//! Starting a shell inside an environment: which program, which `PATH`, and
//! what to report when the shell or the terminal fails.
use vstd::prelude::*;
use crate::text::push_str;

verus! {

/// The shell started when no `SHELL` is set.
pub const DEFAULT_SHELL: &'static str = "/bin/sh";

/// The shell to start: `SHELL` where it is set, else `/bin/sh`.
pub fn shell_program(shell_var: Option<String>) -> (s: String)
    ensures
        s@ == match shell_var {
            Some(v) => v@,
            None => DEFAULT_SHELL@,
        },
{
    match shell_var {
        Some(v) => v,
        None => String::from_str(DEFAULT_SHELL),
    }
}

/// The `PATH` inside the shell: the environment's `bin` directory, then
/// the `PATH` outside (empty where it is unset).
pub fn subshell_path(bin_dir: &str, outer_path: Option<String>) -> (s: String)
    ensures
        s@ == bin_dir@ + ":"@ + match outer_path {
            Some(p) => p@,
            None => Seq::<char>::empty(),
        },
{
    let mut s = String::from_str(bin_dir);
    push_str(&mut s, ":");
    match outer_path {
        Some(p) => push_str(&mut s, p.as_str()),
        None => {},
    }
    assert(s@ =~= bin_dir@ + ":"@ + match outer_path {
        Some(p) => p@,
        None => Seq::<char>::empty(),
    });
    s
}

/// What an activation reports, from how the shell ended (`shell_error` is
/// the reason it could not start) and whether the terminal came back
/// (`restore_error` is the reason it did not).
///
/// With the terminal back: nothing after a normal exit, or a message where
/// the shell could not start. Without it: an error that ends the browser.
pub open spec fn subshell_report_of(shell_error: Option<String>, restore_error: Option<String>) -> Result<Option<Seq<char>>, Seq<char>> {
    match restore_error {
        None => match shell_error {
            None => Ok(None),
            Some(e) => Ok(Some("Could not start subshell: "@ + e@)),
        },
        Some(r) => {
            let detail = match shell_error {
                None => "the shell exited"@,
                Some(e) => "the shell could not be started: "@ + e@,
            };
            Err(detail + "; also failed to restore the terminal: "@ + r@)
        },
    }
}

/// What an activation reports; see `subshell_report_of`.
pub fn subshell_report(shell_error: Option<String>, restore_error: Option<String>) -> (r: Result<Option<String>, String>)
    ensures
        match (r, subshell_report_of(shell_error, restore_error)) {
            (Ok(None), Ok(None)) => true,
            (Ok(Some(m)), Ok(Some(t))) => m@ == t,
            (Err(m), Err(t)) => m@ == t,
            _ => false,
        },
{
    match restore_error {
        None => match shell_error {
            None => Ok(None),
            Some(e) => {
                let mut m = String::from_str("Could not start subshell: ");
                push_str(&mut m, e.as_str());
                Ok(Some(m))
            },
        },
        Some(r) => {
            let mut m = match &shell_error {
                None => String::from_str("the shell exited"),
                Some(e) => {
                    let mut d = String::from_str("the shell could not be started: ");
                    push_str(&mut d, e.as_str());
                    d
                },
            };
            push_str(&mut m, "; also failed to restore the terminal: ");
            push_str(&mut m, r.as_str());
            Err(m)
        },
    }
}

} // verus!
