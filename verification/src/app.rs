//! The state of the environment browser and the decisions it takes on each
//! key press.
use vstd::prelude::*;
use std::time::{Duration, Instant};
use crate::text::push_str;

verus! {

/// A moment of the monotonic clock.
#[verifier::external_type_specification]
#[verifier::external_body]
pub struct ExInstant(Instant);

/// The current moment.
///
/// Trusted: calls `Instant::now`; the moment depends on the clock, so nothing
/// is promised of it.
#[verifier::external_body]
fn instant_now() -> Instant {
    Instant::now()
}

/// The time that has passed since `start`.
///
/// Trusted: calls `Instant::elapsed`, which depends on the clock; nothing is
/// promised of the duration.
#[verifier::external_body]
fn elapsed_since(start: &Instant) -> Duration {
    start.elapsed()
}

/// The whole number of nanoseconds in `d`.
///
/// Trusted: calls `Duration::as_nanos`. `Duration` is opaque here, so the
/// count is not tied to anything else that Verus sees.
#[verifier::external_body]
fn duration_nanos(d: &Duration) -> u128 {
    d.as_nanos()
}

/// The reason given for not deleting an environment that is a symbolic
/// link.
pub const SYMLINK_REFUSAL: &'static str = "refusing to delete a symlink";

/// Whether a deletion is refused before anything is removed: an
/// environment that is a symbolic link is never deleted (the link's target
/// would be emptied).
pub fn delete_refusal(is_symlink: bool) -> (r: Option<String>)
    ensures
        is_symlink ==> (r matches Some(m) && m@ == SYMLINK_REFUSAL@),
        !is_symlink ==> r is None,
{
    if is_symlink {
        Some(String::from_str(SYMLINK_REFUSAL))
    } else {
        None
    }
}

/// How long a status message stays on screen, in nanoseconds (four seconds).
pub const STATUS_TTL_NANOS: u128 = 4_000_000_000;

/// What is known of one virtual environment: the fields of its
/// `pyvenv.cfg` and the packages installed in it.
#[derive(Debug, Clone)]
pub struct VenvMetadata {
    pub version: String,
    pub executable: String,
    pub include_system_packages: String,
    pub packages: Vec<String>,
}

impl Default for VenvMetadata {
    fn default() -> (m: Self)
        ensures
            m.version@ == Seq::<char>::empty(),
            m.executable@ == Seq::<char>::empty(),
            m.include_system_packages@ == Seq::<char>::empty(),
            m.packages@ == Seq::<String>::empty(),
    {
        VenvMetadata {
            version: String::new(),
            executable: String::new(),
            include_system_packages: String::new(),
            packages: Vec::new(),
        }
    }
}

/// The screen the browser shows.
#[derive(Debug, Clone, Copy, PartialEq, Eq, Structural)]
pub enum CurrentScreen {
    Main,
    ConfirmDelete,
}

/// How a status message is to be read.
#[derive(Debug, Clone, Copy, PartialEq, Eq, Structural)]
pub enum MsgLevel {
    Info,
    Error,
}

/// A message in the status bar and the moment it was shown.
pub struct StatusMessage {
    pub text: String,
    pub level: MsgLevel,
    pub shown_at: Instant,
}

/// Whether a message shown `elapsed_nanos` ago has expired.
pub fn expired_after(elapsed_nanos: u128) -> (b: bool)
    ensures
        b == (elapsed_nanos >= STATUS_TTL_NANOS),
{
    elapsed_nanos >= STATUS_TTL_NANOS
}

impl StatusMessage {
    /// Whether the message has been on screen for its full time.
    ///
    /// The answer depends on the clock; `expired_after` states how the time
    /// passed decides it.
    pub fn is_expired(&self) -> bool {
        expired_after(duration_nanos(&elapsed_since(&self.shown_at)))
    }
}

/// A key as the browser tells keys apart.
#[derive(Debug, Clone, Copy, PartialEq, Eq, Structural)]
pub enum Key {
    Char(char),
    Up,
    Down,
    Enter,
    Esc,
    Other,
}

/// What the caller must do after a key press.
#[derive(Debug, Clone, Copy, PartialEq, Eq, Structural)]
pub enum Action {
    /// Nothing beyond redrawing.
    Nothing,
    /// The selection moved: read the metadata of the new selection and ask
    /// for its size.
    RefreshSelection,
    /// Open a shell inside the environment at this index.
    Activate(usize),
    /// The user confirmed: delete the environment at this index, then report
    /// the outcome with `finish_delete`.
    Delete(usize),
}

/// The index after `i` in a list of `n`, wrapping round to the start.
pub open spec fn next_index(i: nat, n: nat) -> nat {
    if n == 0 {
        i
    } else {
        (i + 1) % n
    }
}

/// The index before `i` in a list of `n`, wrapping round to the end.
pub open spec fn previous_index(i: nat, n: nat) -> nat {
    if n == 0 {
        i
    } else if i == 0 {
        (n - 1) as nat
    } else {
        (i - 1) as nat
    }
}

/// The browser's state. `P` is the type of an environment's path.
pub struct App<P> {
    pub venvs: Vec<P>,
    pub selected_index: usize,
    pub current_metadata: Option<VenvMetadata>,
    pub current_size: Option<String>,
    pub should_quit: bool,
    pub current_screen: CurrentScreen,
    pub status: Option<StatusMessage>,
}

impl<P> App<P> {
    /// The list fits its vector's length type, the selection lies in the
    /// list (at 0 for an empty list), and the
    /// delete confirmation is only shown while there is something to delete.
    pub open spec fn wf(&self) -> bool {
        &&& self.venvs@.len() <= usize::MAX
        &&& (self.venvs@.len() == 0 ==> self.selected_index == 0)
        &&& (self.venvs@.len() > 0 ==> self.selected_index < self.venvs@.len())
        &&& (self.current_screen == CurrentScreen::ConfirmDelete ==> self.venvs@.len() > 0)
    }

    /// The state with only the selection, the screen and the quit flag
    /// replaced.
    pub open spec fn with_nav(self, selected: usize, screen: CurrentScreen, quit: bool) -> Self {
        App {
            venvs: self.venvs,
            selected_index: selected,
            current_metadata: self.current_metadata,
            current_size: self.current_size,
            should_quit: quit,
            current_screen: screen,
            status: self.status,
        }
    }

    /// The state and action after a key press; `ctrl` tells whether Control
    /// was held.
    ///
    /// Control-C quits from any screen. On the main screen: `q` quits; Down
    /// or `j` moves to the next environment and Up or `k` to the previous one
    /// (both wrapping round); `d` asks for confirmation of a deletion; Enter
    /// or `a` activates the selected environment. On the confirmation screen:
    /// `y` or `Y` deletes the selected environment; `n`, `N` or Esc cancel.
    /// Any other key does nothing.
    pub open spec fn step(self, key: Key, ctrl: bool) -> (Self, Action) {
        let n = self.venvs@.len();
        let i = self.selected_index;
        let s = self.current_screen;
        if key == Key::Char('c') && ctrl {
            (self.with_nav(i, s, true), Action::Nothing)
        } else if s == CurrentScreen::Main {
            if key == Key::Char('q') {
                (self.with_nav(i, s, true), Action::Nothing)
            } else if key == Key::Down || key == Key::Char('j') {
                (
                    self.with_nav(next_index(i as nat, n) as usize, s, self.should_quit),
                    Action::RefreshSelection,
                )
            } else if key == Key::Up || key == Key::Char('k') {
                (
                    self.with_nav(previous_index(i as nat, n) as usize, s, self.should_quit),
                    Action::RefreshSelection,
                )
            } else if key == Key::Char('d') {
                if n > 0 {
                    (
                        self.with_nav(i, CurrentScreen::ConfirmDelete, self.should_quit),
                        Action::Nothing,
                    )
                } else {
                    (self, Action::Nothing)
                }
            } else if (key == Key::Enter || key == Key::Char('a')) && n > 0 {
                (self, Action::Activate(i))
            } else {
                (self, Action::Nothing)
            }
        } else {
            if key == Key::Char('y') || key == Key::Char('Y') {
                (self, Action::Delete(i))
            } else if key == Key::Char('n') || key == Key::Char('N') || key == Key::Esc {
                (self.with_nav(i, CurrentScreen::Main, self.should_quit), Action::Nothing)
            } else {
                (self, Action::Nothing)
            }
        }
    }

    /// A browser with no environments, on the main screen.
    pub fn new() -> (app: Self)
        ensures
            app.wf(),
            app.venvs@.len() == 0,
            app.selected_index == 0,
            app.current_metadata is None,
            app.current_size is None,
            !app.should_quit,
            app.current_screen == CurrentScreen::Main,
            app.status is None,
    {
        App {
            venvs: Vec::new(),
            selected_index: 0,
            current_metadata: None,
            current_size: None,
            should_quit: false,
            current_screen: CurrentScreen::Main,
            status: None,
        }
    }

    /// Replaces the list of environments and selects the first.
    pub fn load_venvs(&mut self, venvs: Vec<P>)
        ensures
            old(self).current_screen == CurrentScreen::Main || venvs@.len() > 0
                ==> final(self).wf(),
            final(self).venvs == venvs,
            final(self).selected_index == 0,
            final(self).current_metadata == old(self).current_metadata,
            final(self).current_size == old(self).current_size,
            final(self).should_quit == old(self).should_quit,
            final(self).current_screen == old(self).current_screen,
            final(self).status == old(self).status,
    {
        // Reading the length lets the proof use that it fits a usize.
        let _ = venvs.len();
        self.venvs = venvs;
        self.selected_index = 0;
    }

    /// Moves the selection to the next environment, wrapping round to the
    /// first; does nothing when there is none. From any selection, the new
    /// one lies in a non-empty list.
    pub fn next(&mut self)
        requires
            old(self).venvs@.len() > 0 ==> old(self).selected_index < usize::MAX,
        ensures
            old(self).wf() ==> final(self).wf(),
            old(self).venvs@.len() > 0 ==> final(self).selected_index < old(self).venvs@.len(),
            *final(self) == old(self).with_nav(
                next_index(old(self).selected_index as nat, old(self).venvs@.len()) as usize,
                old(self).current_screen,
                old(self).should_quit,
            ),
    {
        if self.venvs.len() > 0 {
            self.selected_index = (self.selected_index + 1) % self.venvs.len();
        }
    }

    /// Moves the selection to the previous environment, wrapping round to the
    /// last; does nothing when there is none.
    pub fn previous(&mut self)
        ensures
            old(self).wf() ==> final(self).wf(),
            *final(self) == old(self).with_nav(
                previous_index(old(self).selected_index as nat, old(self).venvs@.len()) as usize,
                old(self).current_screen,
                old(self).should_quit,
            ),
    {
        if self.venvs.len() > 0 {
            if self.selected_index == 0 {
                self.selected_index = self.venvs.len() - 1;
            } else {
                self.selected_index = self.selected_index - 1;
            }
        }
    }

    /// Shows `text` in the status bar from now on, for `STATUS_TTL_NANOS`.
    pub fn set_status(&mut self, text: String, level: MsgLevel)
        ensures
            final(self).status matches Some(m) && m.text == text && m.level == level,
            final(self).venvs == old(self).venvs,
            final(self).selected_index == old(self).selected_index,
            final(self).current_metadata == old(self).current_metadata,
            final(self).current_size == old(self).current_size,
            final(self).should_quit == old(self).should_quit,
            final(self).current_screen == old(self).current_screen,
    {
        self.status = Some(StatusMessage { text, level, shown_at: instant_now() });
    }

    /// Drops the status message when `expired`.
    pub fn clear_status_if(&mut self, expired: bool)
        ensures
            final(self).status == (if expired {
                None
            } else {
                old(self).status
            }),
            final(self).venvs == old(self).venvs,
            final(self).selected_index == old(self).selected_index,
            final(self).current_metadata == old(self).current_metadata,
            final(self).current_size == old(self).current_size,
            final(self).should_quit == old(self).should_quit,
            final(self).current_screen == old(self).current_screen,
    {
        if expired {
            self.status = None;
        }
    }

    /// Drops the status message once it has expired.
    ///
    /// Whether it has depends on the clock; `clear_status_if` states what
    /// happens either way.
    pub fn clear_expired_status(&mut self)
        ensures
            final(self).status is None || final(self).status == old(self).status,
            final(self).venvs == old(self).venvs,
            final(self).selected_index == old(self).selected_index,
            final(self).current_metadata == old(self).current_metadata,
            final(self).current_size == old(self).current_size,
            final(self).should_quit == old(self).should_quit,
            final(self).current_screen == old(self).current_screen,
    {
        let expired = match &self.status {
            Some(m) => m.is_expired(),
            None => false,
        };
        self.clear_status_if(expired);
    }

    /// The selected environment, if there is one.
    pub fn selected(&self) -> (r: Option<&P>)
        requires
            self.wf(),
        ensures
            self.venvs@.len() == 0 ==> r is None,
            self.venvs@.len() > 0 ==> r == Some(&self.venvs@[self.selected_index as int]),
    {
        if self.venvs.len() == 0 {
            None
        } else {
            Some(&self.venvs[self.selected_index])
        }
    }

    /// The row to highlight in the list of environments.
    pub fn list_selection(&self) -> (r: Option<usize>)
        ensures
            r == (if self.venvs@.len() == 0 {
                None
            } else {
                Some(self.selected_index)
            }),
    {
        if self.venvs.len() == 0 {
            None
        } else {
            Some(self.selected_index)
        }
    }

    /// Takes the decisions for one key press (see `step`) and tells the
    /// caller what to do.
    pub fn handle_key(&mut self, key: Key, ctrl: bool) -> (action: Action)
        requires
            old(self).wf(),
        ensures
            final(self).wf(),
            (*final(self), action) == old(self).step(key, ctrl),
    {
        let n = self.venvs.len();
        let i = self.selected_index;
        if key == Key::Char('c') && ctrl {
            self.should_quit = true;
            return Action::Nothing;
        }
        match self.current_screen {
            CurrentScreen::Main => {
                if key == Key::Char('q') {
                    self.should_quit = true;
                    Action::Nothing
                } else if key == Key::Down || key == Key::Char('j') {
                    self.next();
                    Action::RefreshSelection
                } else if key == Key::Up || key == Key::Char('k') {
                    self.previous();
                    Action::RefreshSelection
                } else if key == Key::Char('d') {
                    if n > 0 {
                        self.current_screen = CurrentScreen::ConfirmDelete;
                    }
                    Action::Nothing
                } else if (key == Key::Enter || key == Key::Char('a')) && n > 0 {
                    Action::Activate(i)
                } else {
                    Action::Nothing
                }
            },
            CurrentScreen::ConfirmDelete => {
                if key == Key::Char('y') || key == Key::Char('Y') {
                    Action::Delete(i)
                } else if key == Key::Char('n') || key == Key::Char('N') || key == Key::Esc {
                    self.current_screen = CurrentScreen::Main;
                    Action::Nothing
                } else {
                    Action::Nothing
                }
            },
        }
    }

    /// Records the outcome of deleting the selected environment: on success
    /// it leaves the list (the selection stays at the same row, or moves to the
    /// new last row) and the status bar says `Deleted <path>`; on failure the
    /// list is unchanged and the status bar says `Delete failed: <reason>`.
    /// Either way the main screen comes back.
    pub fn finish_delete(&mut self, outcome: Result<(), String>, shown_path: &str)
        requires
            old(self).wf(),
            old(self).venvs@.len() > 0,
        ensures
            final(self).wf(),
            final(self).current_screen == CurrentScreen::Main,
            final(self).current_metadata == old(self).current_metadata,
            final(self).current_size == old(self).current_size,
            final(self).should_quit == old(self).should_quit,
            match outcome {
                Ok(()) => {
                    &&& final(self).venvs@ == old(self).venvs@.remove(
                        old(self).selected_index as int,
                    )
                    &&& final(self).selected_index == (if old(self).selected_index
                        < final(self).venvs@.len() {
                        old(self).selected_index as int
                    } else if final(self).venvs@.len() == 0 {
                        0
                    } else {
                        final(self).venvs@.len() - 1
                    })
                    &&& final(self).status matches Some(m) && m.level == MsgLevel::Info
                        && m.text@ == "Deleted "@ + shown_path@
                },
                Err(reason) => {
                    &&& final(self).venvs == old(self).venvs
                    &&& final(self).selected_index == old(self).selected_index
                    &&& final(self).status matches Some(m) && m.level == MsgLevel::Error
                        && m.text@ == "Delete failed: "@ + reason@
                },
            },
    {
        match outcome {
            Ok(()) => {
                self.venvs.remove(self.selected_index);
                if self.selected_index >= self.venvs.len() {
                    self.selected_index = if self.venvs.len() == 0 {
                        0
                    } else {
                        self.venvs.len() - 1
                    };
                }
                let mut text = String::from_str("Deleted ");
                push_str(&mut text, shown_path);
                self.set_status(text, MsgLevel::Info);
            },
            Err(reason) => {
                let mut text = String::from_str("Delete failed: ");
                push_str(&mut text, reason.as_str());
                self.set_status(text, MsgLevel::Error);
            },
        }
        self.current_screen = CurrentScreen::Main;
    }

    /// After the selection changed: keeps `meta` (the selected environment's
    /// metadata, as read by the caller) and marks its size as being
    /// computed; with no environment left, clears both.
    pub fn refresh_selection(&mut self, meta: Option<VenvMetadata>)
        ensures
            old(self).venvs@.len() > 0 ==> final(self).current_metadata == meta,
            old(self).venvs@.len() > 0 ==> (final(self).current_size matches Some(t) && t@
                == "Calculating size..."@),
            old(self).venvs@.len() == 0 ==> final(self).current_metadata is None
                && final(self).current_size is None,
            final(self).venvs == old(self).venvs,
            final(self).selected_index == old(self).selected_index,
            final(self).should_quit == old(self).should_quit,
            final(self).current_screen == old(self).current_screen,
            final(self).status == old(self).status,
    {
        if self.venvs.len() > 0 {
            self.current_metadata = meta;
            self.current_size = Some(String::from_str("Calculating size..."));
        } else {
            self.current_metadata = None;
            self.current_size = None;
        }
    }

    /// Records a computed size: shown only if it is that of the selected
    /// environment (`for_selected`).
    pub fn apply_size(&mut self, for_selected: bool, bytes: u64)
        ensures
            (old(self).venvs@.len() > 0 && for_selected) ==> (final(self).current_size matches Some(
                t,
            ) && t@ == crate::display::format_bytes_text(bytes as nat)),
            !(old(self).venvs@.len() > 0 && for_selected) ==> final(self).current_size
                == old(self).current_size,
            final(self).venvs == old(self).venvs,
            final(self).selected_index == old(self).selected_index,
            final(self).current_metadata == old(self).current_metadata,
            final(self).should_quit == old(self).should_quit,
            final(self).current_screen == old(self).current_screen,
            final(self).status == old(self).status,
    {
        if self.venvs.len() > 0 && for_selected {
            self.current_size = Some(crate::display::format_bytes(bytes));
        }
    }

    /// Records how an activation ended: a message is shown as an error; a
    /// terminal that could not be brought back ends the browser.
    pub fn finish_activation(&mut self, outcome: &Result<Option<String>, String>)
        ensures
            match outcome {
                Ok(Some(msg)) => final(self).status matches Some(m) && m.text == msg
                    && m.level == MsgLevel::Error && final(self).should_quit
                    == old(self).should_quit,
                Ok(None) => final(self).status == old(self).status && final(self).should_quit
                    == old(self).should_quit,
                Err(_) => final(self).status == old(self).status && final(self).should_quit,
            },
            final(self).venvs == old(self).venvs,
            final(self).selected_index == old(self).selected_index,
            final(self).current_metadata == old(self).current_metadata,
            final(self).current_size == old(self).current_size,
            final(self).current_screen == old(self).current_screen,
    {
        match outcome {
            Ok(Some(msg)) => self.set_status(msg.clone(), MsgLevel::Error),
            Ok(None) => {},
            Err(_) => self.should_quit = true,
        }
    }
}

/// Where `k` moves to the next environment lead from `i` in a list of `n`.
pub open spec fn after_nexts(i: nat, n: nat, k: nat) -> nat
    decreases k,
{
    if k == 0 {
        i
    } else {
        next_index(after_nexts(i, n, (k - 1) as nat), n)
    }
}

/// Moving to the next environment and then to the previous one (or the
/// other way round) comes back to where it started.
pub proof fn lemma_next_previous_inverse(i: nat, n: nat)
    requires
        i < n,
    ensures
        previous_index(next_index(i, n), n) == i,
        next_index(previous_index(i, n), n) == i,
{
    if i + 1 < n {
        assert((i + 1) % n == i + 1) by {
            vstd::arithmetic::div_mod::lemma_small_mod((i + 1) as nat, n);
        }
    } else {
        assert((i + 1) % n == 0) by {
            vstd::arithmetic::div_mod::lemma_mod_self_0(n as int);
        }
    }
    if i == 0 {
        vstd::arithmetic::div_mod::lemma_mod_self_0(n as int);
    } else {
        vstd::arithmetic::div_mod::lemma_small_mod(i, n);
    }
}

/// `k` moves to the next environment lead from `i` to `(i + k) mod n`.
pub proof fn lemma_after_nexts(i: nat, n: nat, k: nat)
    requires
        i < n,
    ensures
        after_nexts(i, n, k) == (i + k) % n,
    decreases k,
{
    if k == 0 {
        vstd::arithmetic::div_mod::lemma_small_mod(i, n);
    } else {
        lemma_after_nexts(i, n, (k - 1) as nat);
        if n == 1 {
            assert((i + k) % n == 0);
            assert(after_nexts(i, n, (k - 1) as nat) == 0);
            assert((0 + 1) % n == 0);
        } else {
            vstd::arithmetic::div_mod::lemma_add_mod_noop(i + k - 1, 1, n as int);
            vstd::arithmetic::div_mod::lemma_small_mod(1, n);
        }
    }
}

/// Moving to the next environment as many times as there are environments
/// comes back to where it started.
pub proof fn lemma_full_cycle(i: nat, n: nat)
    requires
        i < n,
    ensures
        after_nexts(i, n, n) == i,
{
    lemma_after_nexts(i, n, n);
    vstd::arithmetic::div_mod::lemma_add_mod_noop(i as int, n as int, n as int);
    vstd::arithmetic::div_mod::lemma_mod_self_0(n as int);
    vstd::arithmetic::div_mod::lemma_small_mod(i, n);
}

impl<P> App<P> {
    /// Every key press keeps the state well formed: the selection stays in
    /// the list and the confirmation screen is only shown when there is
    /// something to delete.
    pub proof fn lemma_step_keeps_wf(self, key: Key, ctrl: bool)
        requires
            self.wf(),
        ensures
            self.step(key, ctrl).0.wf(),
    {
    }

    /// A key press never changes the list of environments, the metadata, the
    /// size shown or the status bar.
    pub proof fn lemma_step_keeps_contents(self, key: Key, ctrl: bool)
        ensures
            self.step(key, ctrl).0.venvs == self.venvs,
            self.step(key, ctrl).0.current_metadata == self.current_metadata,
            self.step(key, ctrl).0.current_size == self.current_size,
            self.step(key, ctrl).0.status == self.status,
    {
    }

    /// Nothing is deleted without confirmation: a deletion is only asked for
    /// on the confirmation screen, and always of the selected environment,
    /// which exists.
    pub proof fn lemma_delete_needs_confirmation(self, key: Key, ctrl: bool)
        requires
            self.wf(),
        ensures
            self.step(key, ctrl).1 matches Action::Delete(i) ==> {
                &&& self.current_screen == CurrentScreen::ConfirmDelete
                &&& key == Key::Char('y') || key == Key::Char('Y')
                &&& i == self.selected_index
                &&& i < self.venvs@.len()
            },
    {
    }

    /// Activation is only asked for on the main screen, of the selected
    /// environment, which exists.
    pub proof fn lemma_activate_selected(self, key: Key, ctrl: bool)
        requires
            self.wf(),
        ensures
            self.step(key, ctrl).1 matches Action::Activate(i) ==> {
                &&& self.current_screen == CurrentScreen::Main
                &&& i == self.selected_index
                &&& i < self.venvs@.len()
            },
    {
    }

    /// Control-C quits from every screen.
    pub proof fn lemma_ctrl_c_quits(self)
        ensures
            self.step(Key::Char('c'), true).0.should_quit,
    {
    }

    /// Cancelling a deletion goes back to the main screen and keeps the
    /// selection.
    pub proof fn lemma_cancel_keeps_selection(self, key: Key)
        requires
            self.current_screen == CurrentScreen::ConfirmDelete,
            key == Key::Char('n') || key == Key::Char('N') || key == Key::Esc,
        ensures
            self.step(key, false).0 == self.with_nav(
                self.selected_index,
                CurrentScreen::Main,
                self.should_quit,
            ),
            self.step(key, false).1 == Action::Nothing,
    {
    }

    /// On the confirmation screen only `y`, `Y`, `n`, `N`, Esc and Control-C
    /// act: any other key (arrows, `j`, `k`, `d`, Enter, ...) leaves the state
    /// exactly as it was and asks for nothing.
    pub proof fn lemma_confirm_ignores_other_keys(self, key: Key, ctrl: bool)
        requires
            self.current_screen == CurrentScreen::ConfirmDelete,
            key != Key::Char('y') && key != Key::Char('Y'),
            key != Key::Char('n') && key != Key::Char('N') && key != Key::Esc,
            !(key == Key::Char('c') && ctrl),
        ensures
            self.step(key, ctrl) == (self, Action::Nothing),
    {
    }

    /// While the confirmation is shown the selection and the list do not
    /// change, so the environment deleted is the one selected when `d` was
    /// pressed.
    pub proof fn lemma_confirm_keeps_selection(self, key: Key, ctrl: bool)
        requires
            self.current_screen == CurrentScreen::ConfirmDelete,
        ensures
            self.step(key, ctrl).0.selected_index == self.selected_index,
            self.step(key, ctrl).0.venvs == self.venvs,
    {
    }

    /// Pressing `d` on the main screen and then any key: a deletion asked
    /// for is of the environment that was selected when `d` was pressed.
    pub proof fn lemma_deletes_flagged_environment(self, key: Key, ctrl: bool)
        requires
            self.wf(),
            self.current_screen == CurrentScreen::Main,
        ensures
            self.step(Key::Char('d'), false).0.step(key, ctrl).1 matches Action::Delete(i) ==> i
                == self.selected_index && i < self.venvs@.len(),
    {
    }

    /// On the main screen, Down then Up (or Up then Down) leaves the state as
    /// it was.
    pub proof fn lemma_down_up(self)
        requires
            self.wf(),
            self.current_screen == CurrentScreen::Main,
        ensures
            self.step(Key::Down, false).0.step(Key::Up, false).0 == self,
            self.step(Key::Up, false).0.step(Key::Down, false).0 == self,
    {
        let n = self.venvs@.len();
        let i = self.selected_index;
        if n > 0 {
            lemma_next_previous_inverse(i as nat, n);
            let down = next_index(i as nat, n);
            let up = previous_index(i as nat, n);
            assert(down < n && up < n);
            assert(down as usize as nat == down);
            assert(up as usize as nat == up);
        }
    }
}

} // verus!
