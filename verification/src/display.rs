//! Text shown on screen: sizes in binary units, the details of the selected
//! environment and the status bar.
use vstd::prelude::*;
use crate::app::{App, MsgLevel, StatusMessage, VenvMetadata};
use crate::scanner::texts;
use crate::text::{decimal, digit_char, push_decimal, push_digit, push_str};
use vstd::arithmetic::power2::{
    lemma_pow2, lemma_pow2_pos, lemma_pow2_strictly_increases, lemma_pow2_unfold, pow2,
};

verus! {

/// Two to the 53rd: integers below it are exact in an `f64`.
pub open spec fn f64_exact_limit() -> nat {
    0x20_0000_0000_0000
}

/// The least `p`, doubling from `start`, with `b / p` below the `f64`
/// exactness limit.
pub open spec fn f64_scale_from(b: nat, start: nat) -> nat
    decreases b - start,
    when start > 0
{
    if b / start < f64_exact_limit() {
        start
    } else {
        proof {
            lemma_scale_step(b, start);
        }
        f64_scale_from(b, 2 * start)
    }
}

pub proof fn lemma_scale_step(b: nat, p: nat)
    requires
        p > 0,
        b / p >= f64_exact_limit(),
    ensures
        2 * p <= b,
        b - 2 * p < b - p,
{
    assert(p * (b / p) <= b) by (nonlinear_arith)
        requires
            p > 0,
    ;
    assert(p * (b / p) >= p * f64_exact_limit()) by (nonlinear_arith)
        requires
            p > 0,
            b / p >= f64_exact_limit(),
    ;
}

/// `n / d` rounded to the nearest integer, ties to even.
pub open spec fn round_half_even(n: nat, d: nat) -> nat {
    let q = n / d;
    let r = n % d;
    if 2 * r > d || (2 * r == d && q % 2 == 1) {
        q + 1
    } else {
        q
    }
}

/// The value of `b as f64`: `b` rounded to the nearest multiple of the
/// power of two that leaves 53 significant bits, ties to an even multiple.
pub open spec fn f64_value(b: nat) -> nat {
    let p = f64_scale_from(b, 1);
    round_half_even(b, p) * p
}

/// `v / unit` written with two decimals (what `{:.2}` writes).
pub open spec fn two_decimals(v: nat, unit: nat) -> Seq<char> {
    let h = round_half_even(v * 100, unit);
    decimal(h / 100) + seq!['.', digit_char((h / 10) % 10), digit_char(h % 10)]
}

/// The size `bytes` in the largest binary unit (B, KB, MB, GB) that it
/// reaches, with two decimals in the units above bytes.
pub open spec fn format_bytes_text(bytes: nat) -> Seq<char> {
    if bytes >= 0x4000_0000 {
        two_decimals(f64_value(bytes), 0x4000_0000) + " GB"@
    } else if bytes >= 0x10_0000 {
        two_decimals(f64_value(bytes), 0x10_0000) + " MB"@
    } else if bytes >= 0x400 {
        two_decimals(f64_value(bytes), 0x400) + " KB"@
    } else {
        decimal(bytes) + " B"@
    }
}

/// The value of `b as f64`, as an integer.
fn f64_value_of(b: u64) -> (v: u128)
    ensures
        v == f64_value(b as nat),
        v <= 2 * (b as nat) + 1,
{
    let mut p: u128 = 1;
    let big: u128 = 0x20_0000_0000_0000;
    while (b as u128) / p >= big
        invariant
            p > 0,
            p <= b as nat || p == 1,
            big == f64_exact_limit(),
            f64_scale_from(b as nat, p as nat) == f64_scale_from(b as nat, 1),
        decreases b - p,
    {
        proof {
            lemma_scale_step(b as nat, p as nat);
        }
        p = p * 2;
    }
    let q = (b as u128) / p;
    let r = (b as u128) % p;
    let up = 2 * r > p || (2 * r == p && q % 2 == 1);
    let m = if up {
        q + 1
    } else {
        q
    };
    assert(q * p <= b) by (nonlinear_arith)
        requires
            p > 0,
            q == b as nat / p as nat,
    ;
    assert(m * p <= 2 * (b as nat) + 1) by (nonlinear_arith)
        requires
            p > 0,
            q * p <= b,
            m <= q + 1,
            p <= b as nat || p == 1,
    ;
    m * p
}

/// Appends `v / unit` with two decimals.
fn push_two_decimals(s: &mut String, v: u128, unit: u128)
    requires
        0 < unit <= 0x4000_0000,
        v <= 0x2_0000_0000_0000_0000,
    ensures
        final(s)@ == old(s)@ + two_decimals(v as nat, unit as nat),
{
    let n = v * 100;
    let q = n / unit;
    let r = n % unit;
    assert(q <= n) by (nonlinear_arith)
        requires
            unit > 0,
            q == n as nat / unit as nat,
    ;
    let h = if 2 * r > unit || (2 * r == unit && q % 2 == 1) {
        q + 1
    } else {
        q
    };
    push_decimal(s, h / 100);
    push_str(s, ".");
    proof {
        reveal_strlit(".");
    }
    push_digit(s, ((h / 10) % 10) as u8);
    push_digit(s, (h % 10) as u8);
    assert(final(s)@ =~= old(s)@ + two_decimals(v as nat, unit as nat));
}

/// The size `bytes` in the largest binary unit (B, KB, MB, GB) that it
/// reaches, as the status bar shows it: `512 B`, `1.50 KB`, `3.25 GB`.
pub fn format_bytes(bytes: u64) -> (s: String)
    ensures
        s@ == format_bytes_text(bytes as nat),
{
    let mut s = String::new();
    if bytes >= 0x4000_0000 {
        push_two_decimals(&mut s, f64_value_of(bytes), 0x4000_0000);
        push_str(&mut s, " GB");
    } else if bytes >= 0x10_0000 {
        push_two_decimals(&mut s, f64_value_of(bytes), 0x10_0000);
        push_str(&mut s, " MB");
    } else if bytes >= 0x400 {
        push_two_decimals(&mut s, f64_value_of(bytes), 0x400);
        push_str(&mut s, " KB");
    } else {
        push_decimal(&mut s, bytes as u128);
        push_str(&mut s, " B");
    }
    s
}

/// A hundred times the size that `format_bytes` writes, in bytes: the
/// number it shows (counted in hundredths in KB, MB and GB, where
/// `two_decimals` writes `round_half_even(v * 100, unit)` with two decimals)
/// times its unit.
pub open spec fn shown_size_x100(bytes: nat) -> nat {
    if bytes >= 0x4000_0000 {
        round_half_even(f64_value(bytes) * 100, 0x4000_0000) * 0x4000_0000
    } else if bytes >= 0x10_0000 {
        round_half_even(f64_value(bytes) * 100, 0x10_0000) * 0x10_0000
    } else if bytes >= 0x400 {
        round_half_even(f64_value(bytes) * 100, 0x400) * 0x400
    } else {
        bytes * 100
    }
}

/// Rounding to the nearest integer, ties to even, keeps the order.
pub proof fn lemma_round_half_even_monotone(n1: nat, n2: nat, d: nat)
    requires
        n1 <= n2,
        d > 0,
    ensures
        round_half_even(n1, d) <= round_half_even(n2, d),
{
    let q1 = n1 / d;
    let q2 = n2 / d;
    vstd::arithmetic::div_mod::lemma_div_is_ordered(n1 as int, n2 as int, d as int);
    if q1 == q2 {
        vstd::arithmetic::div_mod::lemma_fundamental_div_mod(n1 as int, d as int);
        vstd::arithmetic::div_mod::lemma_fundamental_div_mod(n2 as int, d as int);
        assert(n1 % d <= n2 % d);
    }
}

/// A whole multiple of `d` divided by `d` needs no rounding.
pub proof fn lemma_round_half_even_exact(k: nat, d: nat)
    requires
        d > 0,
    ensures
        round_half_even(k * d, d) == k,
{
    vstd::arithmetic::div_mod::lemma_div_by_multiple(k as int, d as int);
    vstd::arithmetic::div_mod::lemma_mod_multiples_basic(k as int, d as int);
}

/// The scale of `x` is a power of two `2^k`, the least one (counting from
/// `2^j`) that leaves `x / 2^k` below the exactness limit.
pub proof fn lemma_scale(x: nat, j: nat) -> (k: nat)
    requires
        j == 0 || x / pow2((j - 1) as nat) >= f64_exact_limit(),
    ensures
        j <= k,
        f64_scale_from(x, pow2(j)) == pow2(k),
        x / pow2(k) < f64_exact_limit(),
        k == 0 || x / pow2((k - 1) as nat) >= f64_exact_limit(),
    decreases x - pow2(j),
{
    lemma_pow2_pos(j);
    if x / pow2(j) < f64_exact_limit() {
        j
    } else {
        lemma_scale_step(x, pow2(j));
        lemma_pow2_unfold(j + 1);
        assert(pow2(j + 1) == 2 * pow2(j));
        lemma_scale(x, j + 1)
    }
}

/// Below the exactness limit an integer is its own `f64` value.
pub proof fn lemma_f64_value_exact(x: nat)
    requires
        x < f64_exact_limit(),
    ensures
        f64_value(x) == x,
{
    assert(x / 1 == x);
    assert(f64_scale_from(x, 1) == 1);
    assert(x % 1 == 0);
}

/// Converting to `f64` keeps the order of integers.
pub proof fn lemma_f64_value_monotone(a: nat, b: nat)
    requires
        a <= b,
    ensures
        f64_value(a) <= f64_value(b),
{
    lemma_pow2_0();
    let ka = lemma_scale(a, 0);
    let kb = lemma_scale(b, 0);
    let pa = pow2(ka);
    let pb = pow2(kb);
    lemma_pow2_pos(ka);
    lemma_pow2_pos(kb);
    let lim = f64_exact_limit();
    if ka == kb {
        lemma_round_half_even_monotone(a, b, pa);
        vstd::arithmetic::mul::lemma_mul_inequality(
            round_half_even(a, pa) as int,
            round_half_even(b, pa) as int,
            pa as int,
        );
    } else if ka < kb {
        let h = pow2((kb - 1) as nat);
        lemma_pow2_pos((kb - 1) as nat);
        lemma_pow2_unfold(kb);
        assert(pb == 2 * h);
        vstd::arithmetic::div_mod::lemma_div_denominator(b as int, h as int, 2);
        assert(b / pb == (b / h) / 2);
        assert(b / pb >= lim / 2);
        assert(round_half_even(a, pa) <= lim);
        vstd::arithmetic::mul::lemma_mul_inequality(
            round_half_even(a, pa) as int,
            lim as int,
            pa as int,
        );
        assert(round_half_even(b, pb) >= lim / 2);
        vstd::arithmetic::mul::lemma_mul_inequality(
            (lim / 2) as int,
            round_half_even(b, pb) as int,
            pb as int,
        );
        if ka < kb - 1 {
            lemma_pow2_strictly_increases(ka, (kb - 1) as nat);
        }
        assert(pa <= h);
        vstd::arithmetic::mul::lemma_mul_inequality(pa as int, h as int, lim as int);
        assert((lim / 2) * pb == lim * h);
    } else {
        let h = pow2((ka - 1) as nat);
        lemma_pow2_pos((ka - 1) as nat);
        if kb < ka - 1 {
            lemma_pow2_strictly_increases(kb, (ka - 1) as nat);
        }
        vstd::arithmetic::div_mod::lemma_div_is_ordered_by_denominator(b as int, pb as int, h as int);
        vstd::arithmetic::div_mod::lemma_div_is_ordered(a as int, b as int, h as int);
        assert(false);
    }
}

/// `2^0 == 1`.
pub proof fn lemma_pow2_0()
    ensures
        pow2(0) == 1,
{
    lemma_pow2(0);
    reveal(vstd::arithmetic::power::pow);
}

/// The size shown lies in the band of its unit: at least 1.00 of the unit
/// and at most 1024.00 of it (at most 1023 for bytes).
pub proof fn lemma_shown_size_bounds(x: nat)
    ensures
        x < 0x400 ==> shown_size_x100(x) == 100 * x,
        0x400 <= x < 0x10_0000 ==> 100 * 0x400 <= shown_size_x100(x) <= 100 * 0x10_0000,
        0x10_0000 <= x < 0x4000_0000 ==> 100 * 0x10_0000 <= shown_size_x100(x) <= 100
            * 0x4000_0000,
        0x4000_0000 <= x ==> 100 * 0x4000_0000 <= shown_size_x100(x),
{
    if 0x400 <= x < 0x10_0000 {
        lemma_f64_value_exact(x);
        lemma_round_half_even_monotone(100 * 0x400, x * 100, 0x400);
        lemma_round_half_even_exact(100, 0x400);
        lemma_round_half_even_monotone(x * 100, 102400 * 0x400, 0x400);
        lemma_round_half_even_exact(102400, 0x400);
    } else if 0x10_0000 <= x < 0x4000_0000 {
        lemma_f64_value_exact(x);
        lemma_round_half_even_monotone(100 * 0x10_0000, x * 100, 0x10_0000);
        lemma_round_half_even_exact(100, 0x10_0000);
        lemma_round_half_even_monotone(x * 100, 102400 * 0x10_0000, 0x10_0000);
        lemma_round_half_even_exact(102400, 0x10_0000);
    } else if 0x4000_0000 <= x {
        lemma_f64_value_exact(0x4000_0000);
        lemma_f64_value_monotone(0x4000_0000, x);
        lemma_round_half_even_monotone(100 * 0x4000_0000, f64_value(x) * 100, 0x4000_0000);
        lemma_round_half_even_exact(100, 0x4000_0000);
    }
}

/// A larger byte count never shows a smaller size: the size that
/// `format_bytes` writes, read with its unit, grows with the count.
pub proof fn lemma_format_bytes_monotone(a: nat, b: nat)
    requires
        a <= b,
    ensures
        shown_size_x100(a) <= shown_size_x100(b),
{
    lemma_shown_size_bounds(a);
    lemma_shown_size_bounds(b);
    if 0x400 <= a && b < 0x10_0000 {
        lemma_f64_value_exact(a);
        lemma_f64_value_exact(b);
        lemma_round_half_even_monotone(a * 100, b * 100, 0x400);
    } else if 0x10_0000 <= a && b < 0x4000_0000 {
        lemma_f64_value_exact(a);
        lemma_f64_value_exact(b);
        lemma_round_half_even_monotone(a * 100, b * 100, 0x10_0000);
    } else if 0x4000_0000 <= a {
        lemma_f64_value_monotone(a, b);
        lemma_round_half_even_monotone(f64_value(a) * 100, f64_value(b) * 100, 0x4000_0000);
    }
}

/// How many packages the details list by name.
pub const PACKAGES_SHOWN: usize = 20;

/// The field as shown: `Unknown` where it is empty.
pub open spec fn or_unknown(s: Seq<char>) -> Seq<char> {
    if s.len() == 0 {
        "Unknown"@
    } else {
        s
    }
}

/// One line `  • name` per package, joined by line breaks.
pub open spec fn bullet_list(ps: Seq<Seq<char>>) -> Seq<char>
    decreases ps.len(),
{
    if ps.len() == 0 {
        Seq::empty()
    } else if ps.len() == 1 {
        "  • "@ + ps[0]
    } else {
        bullet_list(ps.drop_last()) + "\n"@ + "  • "@ + ps.last()
    }
}

/// The list of packages as shown: the first `PACKAGES_SHOWN` as bullets, or
/// a note where there is none.
pub open spec fn package_list_text(ps: Seq<Seq<char>>) -> Seq<char> {
    if ps.len() == 0 {
        " (No installed libraries found)"@
    } else if ps.len() <= PACKAGES_SHOWN {
        bullet_list(ps)
    } else {
        bullet_list(ps.take(PACKAGES_SHOWN as int))
    }
}

/// The note on packages beyond those listed.
pub open spec fn overflow_text(ps: Seq<Seq<char>>) -> Seq<char> {
    if ps.len() > PACKAGES_SHOWN {
        "\n .. and "@ + decimal((ps.len() - PACKAGES_SHOWN) as nat) + " more"@
    } else {
        Seq::empty()
    }
}

/// The details of an environment's configuration, or the note that its
/// `pyvenv.cfg` could not be read.
pub open spec fn metadata_text_of(meta: Option<VenvMetadata>) -> Seq<char> {
    match meta {
        Some(m) => "Python Version: "@ + or_unknown(m.version@) + "\nExecutable: "@ + or_unknown(
            m.executable@,
        ) + "\nInclude System Site Packages: "@ + or_unknown(m.include_system_packages@)
            + "\n Installed packages: ("@ + decimal(m.packages@.len()) + "):\n"@
            + package_list_text(texts(m.packages@)) + overflow_text(texts(m.packages@)),
        None => "Failed to read pyvenv.cfg for this environment target"@,
    }
}

/// The details pane: the selected environment's path (as `path_text`
/// shows it), its size and its configuration.
pub open spec fn details_text_of<P>(app: App<P>, path_text: Seq<char>) -> Seq<char> {
    if app.venvs@.len() == 0 {
        "No virtual environments found."@
    } else {
        "Path: "@ + path_text + "\nDisk footprint: "@ + match app.current_size {
            Some(t) => t@,
            None => "Pending..."@,
        } + "\n"@ + metadata_text_of(app.current_metadata)
    }
}

/// Appends one line per package, for the first `count` packages.
fn push_bullets(s: &mut String, ps: &Vec<String>, count: usize)
    requires
        count <= ps@.len(),
    ensures
        final(s)@ == old(s)@ + bullet_list(texts(ps@).take(count as int)),
{
    let ghost names = texts(ps@);
    let mut k: usize = 0;
    assert(names.take(0) =~= Seq::<Seq<char>>::empty());
    assert(old(s)@ + bullet_list(names.take(0)) =~= old(s)@);
    while k < count
        invariant
            k <= count <= ps@.len(),
            names == texts(ps@),
            s@ == old(s)@ + bullet_list(names.take(k as int)),
        decreases count - k,
    {
        assert(names.take(k + 1).drop_last() =~= names.take(k as int));
        assert(names.take(k + 1).last() == ps@[k as int]@);
        if k > 0 {
            push_str(s, "\n");
        }
        push_str(s, "  • ");
        push_str(s, ps[k].as_str());
        proof {
            if k == 0 {
                assert(names.take(1)[0] == ps@[0]@);
                assert(bullet_list(names.take(0)) =~= Seq::<char>::empty());
                assert(s@ =~= old(s)@ + bullet_list(names.take(1)));
            } else {
                assert(s@ =~= old(s)@ + bullet_list(names.take(k + 1)));
            }
        }
        k = k + 1;
    }
}

/// Appends a field, or `Unknown` where it is empty.
fn push_or_unknown(s: &mut String, field: &String)
    ensures
        final(s)@ == old(s)@ + or_unknown(field@),
{
    if field.as_str().is_empty() {
        push_str(s, "Unknown");
    } else {
        push_str(s, field.as_str());
    }
}

/// The details of an environment's configuration, or the note that its
/// `pyvenv.cfg` could not be read.
pub fn metadata_text(meta: &Option<VenvMetadata>) -> (s: String)
    ensures
        s@ == metadata_text_of(*meta),
{
    match meta {
        None => String::from_str("Failed to read pyvenv.cfg for this environment target"),
        Some(m) => {
            let mut s = String::from_str("Python Version: ");
            push_or_unknown(&mut s, &m.version);
            push_str(&mut s, "\nExecutable: ");
            push_or_unknown(&mut s, &m.executable);
            push_str(&mut s, "\nInclude System Site Packages: ");
            push_or_unknown(&mut s, &m.include_system_packages);
            push_str(&mut s, "\n Installed packages: (");
            push_decimal(&mut s, m.packages.len() as u128);
            push_str(&mut s, "):\n");
            let n = m.packages.len();
            if n == 0 {
                push_str(&mut s, " (No installed libraries found)");
            } else if n <= PACKAGES_SHOWN {
                push_bullets(&mut s, &m.packages, n);
                assert(texts(m.packages@).take(n as int) =~= texts(m.packages@));
            } else {
                push_bullets(&mut s, &m.packages, PACKAGES_SHOWN);
            }
            if n > PACKAGES_SHOWN {
                push_str(&mut s, "\n .. and ");
                push_decimal(&mut s, (n - PACKAGES_SHOWN) as u128);
                push_str(&mut s, " more");
            }
            assert(s@ =~= metadata_text_of(*meta));
            s
        },
    }
}

impl<P> App<P> {
    /// The details pane: the selected environment's path (as `path_text`
    /// shows it), its size and its configuration; or a note that there is no
    /// environment.
    pub fn details_text(&self, path_text: &str) -> (s: String)
        ensures
            s@ == details_text_of(*self, path_text@),
    {
        if self.venvs.len() == 0 {
            return String::from_str("No virtual environments found.");
        }
        let mut s = String::from_str("Path: ");
        push_str(&mut s, path_text);
        push_str(&mut s, "\nDisk footprint: ");
        match &self.current_size {
            Some(t) => push_str(&mut s, t.as_str()),
            None => push_str(&mut s, "Pending..."),
        }
        push_str(&mut s, "\n");
        let meta = metadata_text(&self.current_metadata);
        push_str(&mut s, meta.as_str());
        assert(s@ =~= details_text_of(*self, path_text@));
        s
    }
}

/// The colour family of the status bar.
#[derive(Debug, Clone, Copy, PartialEq, Eq, Structural)]
pub enum Tone {
    Error,
    Info,
    Muted,
}

/// The status bar: its text and how it is coloured.
pub struct StatusLine {
    pub text: String,
    pub tone: Tone,
}

/// The mark put before a message of the given level.
pub open spec fn level_symbol(level: MsgLevel) -> Seq<char> {
    match level {
        MsgLevel::Error => "✗"@,
        MsgLevel::Info => "✓"@,
    }
}

/// The tone of a message of the given level.
pub open spec fn level_tone(level: MsgLevel) -> Tone {
    match level {
        MsgLevel::Error => Tone::Error,
        MsgLevel::Info => Tone::Info,
    }
}

/// The status bar when no message is shown: how many environments were found.
pub open spec fn count_text(n: nat) -> Seq<char> {
    " "@ + decimal(n) + " environment"@ + (if n == 1 {
        ""@
    } else {
        "s"@
    }) + " found"@
}

/// The status bar when `m` is shown.
pub open spec fn message_text(m: StatusMessage) -> Seq<char> {
    " "@ + level_symbol(m.level) + " "@ + m.text@
}

/// The status bar, given whether the current message (if any) has expired.
pub open spec fn status_line_of(status: Option<StatusMessage>, expired: bool, n: nat) -> (
    Seq<char>,
    Tone,
) {
    match status {
        Some(m) => if expired {
            (count_text(n), Tone::Muted)
        } else {
            (message_text(m), level_tone(m.level))
        },
        None => (count_text(n), Tone::Muted),
    }
}

impl<P> App<P> {
    /// The status bar, given whether the current message has expired.
    pub fn status_line_for(&self, expired: bool) -> (line: StatusLine)
        ensures
            (line.text@, line.tone) == status_line_of(self.status, expired, self.venvs@.len()),
    {
        match &self.status {
            Some(m) => {
                if !expired {
                    let mut text = String::from_str(" ");
                    let tone = match m.level {
                        MsgLevel::Error => {
                            push_str(&mut text, "✗");
                            Tone::Error
                        },
                        MsgLevel::Info => {
                            push_str(&mut text, "✓");
                            Tone::Info
                        },
                    };
                    push_str(&mut text, " ");
                    push_str(&mut text, m.text.as_str());
                    assert(text@ =~= message_text(*m));
                    return StatusLine { text, tone };
                }
            },
            None => {},
        }
        let n = self.venvs.len();
        let mut text = String::from_str(" ");
        push_decimal(&mut text, n as u128);
        push_str(&mut text, " environment");
        if n != 1 {
            push_str(&mut text, "s");
        }
        push_str(&mut text, " found");
        proof {
            reveal_strlit("");
        }
        assert(text@ =~= count_text(n as nat));
        StatusLine { text, tone: Tone::Muted }
    }

    /// The status bar now: the current message until it expires, then the
    /// number of environments found. Expiry depends on the clock;
    /// `status_line_for` states the line for either answer.
    pub fn status_line(&self) -> (line: StatusLine)
        ensures
            (line.text@, line.tone) == status_line_of(self.status, true, self.venvs@.len()) || (
            line.text@,
            line.tone,
            ) == status_line_of(self.status, false, self.venvs@.len()),
    {
        let expired = match &self.status {
            Some(m) => m.is_expired(),
            None => false,
        };
        self.status_line_for(expired)
    }
}

/// An expired message is never shown: the bar then counts the environments;
/// a message that has not expired is shown, ending in its own text.
pub proof fn lemma_expired_message_not_shown(status: Option<StatusMessage>, n: nat)
    ensures
        status_line_of(status, true, n) == (count_text(n), Tone::Muted),
        status matches Some(m) ==> status_line_of(status, false, n).1 == level_tone(m.level)
            && m.text@.is_suffix_of(status_line_of(status, false, n).0),
{
    if let Some(m) = status {
        let t = message_text(m);
        assert(t.subrange(t.len() - m.text@.len(), t.len() as int) =~= m.text@);
    }
}

} // verus!
