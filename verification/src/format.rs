//! Human-readable sizes and ages.

use vstd::prelude::*;
use vstd::string::StringExecFns;
use crate::text::{decimal, digit_char, push_decimal};

verus! {

/// Bytes in a kilobyte, as sizes are told here.
pub const KIB: u64 = 1024;

/// Bytes in a megabyte.
pub const MIB: u64 = 1_048_576;

/// Bytes in a gigabyte.
pub const GIB: u64 = 1_073_741_824;

/// The integer nearest to `num / den`; a value exactly half-way between two
/// integers goes to the even one.
pub open spec fn round_half_even(num: nat, den: nat) -> nat
    recommends
        den > 0,
{
    let q = num / den;
    let r = num % den;
    if 2 * r > den || (2 * r == den && q % 2 == 1) {
        q + 1
    } else {
        q
    }
}

/// The gap between neighbouring double-precision numbers around `n`: 1 below
/// 2^53, doubling with every further power of two.
pub open spec fn double_spacing(n: nat) -> nat
    decreases n,
{
    if n < 0x20_0000_0000_0000 {
        1
    } else {
        2 * double_spacing(n / 2)
    }
}

/// The double-precision number nearest to `n`, as an integer: `n` rounded to a
/// multiple of the spacing around it, ties to the even multiple.
pub open spec fn nearest_double(n: nat) -> nat {
    round_half_even(n, double_spacing(n)) * double_spacing(n)
}

/// `num / den` written with one digit after the point, rounded half to even.
pub open spec fn one_decimal(num: nat, den: nat) -> Seq<char>
    recommends
        den > 0,
{
    let tenths = round_half_even(num * 10, den);
    decimal(tenths / 10) + "."@ + seq![digit_char(tenths % 10)]
}

/// The text for a size in bytes: whole bytes below 1024, else the largest of
/// KB, MB, GB that the size reaches, with one decimal.
pub open spec fn size_text(bytes: nat) -> Seq<char> {
    if bytes < KIB {
        decimal(bytes) + " B"@
    } else if bytes < MIB {
        one_decimal(bytes, KIB as nat) + " KB"@
    } else if bytes < GIB {
        one_decimal(bytes, MIB as nat) + " MB"@
    } else {
        one_decimal(nearest_double(bytes), GIB as nat) + " GB"@
    }
}

fn rounded_quotient(num: u128, den: u128) -> (q: u128)
    requires
        0 < den <= 0x1_0000_0000_0000,
        num <= 0x1000_0000_0000_0000_0000,
    ensures
        q == round_half_even(num as nat, den as nat),
{
    let q: u128 = num / den;
    let r: u128 = num % den;
    if 2 * r > den || (2 * r == den && q % 2 == 1) {
        q + 1
    } else {
        q
    }
}

fn spacing(bytes: u64) -> (ulp: u64)
    ensures
        ulp == double_spacing(bytes as nat),
        1 <= ulp <= 4096,
{
    let mut m: u64 = bytes;
    let mut ulp: u64 = 1;
    while m >= 0x20_0000_0000_0000
        invariant
            1 <= ulp <= 4096,
            m * ulp <= bytes,
            double_spacing(bytes as nat) == ulp * double_spacing(m as nat),
        decreases m,
    {
        assert(ulp < 2048) by (nonlinear_arith)
            requires
                m >= 0x20_0000_0000_0000,
                m * ulp <= u64::MAX,
                ulp >= 1,
        ;
        assert(ulp * (2 * double_spacing((m / 2) as nat)) == (ulp * 2) * double_spacing(
            (m / 2) as nat,
        )) by (nonlinear_arith);
        assert((m / 2) * (ulp * 2) <= m * ulp) by (nonlinear_arith)
            requires
                ulp >= 1,
        ;
        m = m / 2;
        ulp = ulp * 2;
    }
    assert(ulp * 1 == ulp);
    ulp
}

fn push_one_decimal(out: &mut String, num: u128, den: u128)
    requires
        1024 <= den <= 0x1_0000_0000_0000,
        num <= 0x2_0000_0000_0000_0000,
    ensures
        final(out)@ == old(out)@ + one_decimal(num as nat, den as nat),
{
    let tenths: u128 = rounded_quotient(num * 10, den);
    assert(tenths / 10 <= u64::MAX) by {
        vstd::arithmetic::div_mod::lemma_div_is_ordered_by_denominator(
            num * 10,
            1024,
            den as int,
        );
    }
    let whole: u64 = (tenths / 10) as u64;
    let last: u64 = (tenths % 10) as u64;
    push_decimal(out, whole);
    out.append(".");
    out.push(crate::text::digit(last));
    assert(final(out)@ =~= old(out)@ + one_decimal(num as nat, den as nat));
}

/// Formats a size in bytes for people: "512 B", "1.5 KB", "2.0 GB".
pub fn format_size(bytes: u64) -> (text: String)
    ensures
        text@ == size_text(bytes as nat),
{
    let mut out = String::new();
    if bytes < KIB {
        push_decimal(&mut out, bytes);
        out.append(" B");
    } else if bytes < MIB {
        push_one_decimal(&mut out, bytes as u128, KIB as u128);
        out.append(" KB");
    } else if bytes < GIB {
        push_one_decimal(&mut out, bytes as u128, MIB as u128);
        out.append(" MB");
    } else {
        let ulp: u64 = spacing(bytes);
        let steps: u128 = rounded_quotient(bytes as u128, ulp as u128);
        assert(steps * ulp <= 0x2_0000_0000_0000_0000) by {
            vstd::arithmetic::div_mod::lemma_fundamental_div_mod(bytes as int, ulp as int);
            assert(steps * ulp <= (bytes / ulp) * ulp + ulp) by (nonlinear_arith)
                requires
                    steps <= bytes / ulp + 1,
                    ulp >= 1,
            ;
            assert((bytes / ulp) * ulp == ulp * (bytes / ulp)) by (nonlinear_arith);
        }
        let nearest: u128 = steps * (ulp as u128);
        push_one_decimal(&mut out, nearest, GIB as u128);
        out.append(" GB");
    }
    assert(out@ =~= size_text(bytes as nat));
    out
}

/// A point in time: whole seconds since the Unix epoch (negative before it)
/// and the nanoseconds past that second.
#[derive(Clone, Copy, Debug, PartialEq, Eq, Structural)]
pub struct Timestamp {
    pub secs: i64,
    pub nanos: u32,
}

impl Timestamp {
    /// Nanoseconds since the epoch.
    pub open spec fn total_nanos(self) -> int {
        self.secs * 1_000_000_000 + self.nanos
    }
}

/// Whole seconds from `then` to `now`, rounded down.
pub open spec fn elapsed_seconds(now: Timestamp, then: Timestamp) -> int {
    (now.total_nanos() - then.total_nanos()) / 1_000_000_000
}

/// "1 day ago" for one, "3 days ago" for more.
pub open spec fn counted(n: nat, one: Seq<char>, many: Seq<char>) -> Seq<char> {
    if n == 1 {
        one
    } else {
        decimal(n) + many
    }
}

/// The text for an age in seconds. Ages are counted in the largest unit that
/// fits at least once: years of 365 days, months of 30 days, weeks, days,
/// hours, minutes. Less than a minute, or a time in the future, is "Just now".
pub open spec fn age_text(seconds: int) -> Seq<char> {
    let days = seconds / 86_400;
    let hours = seconds / 3_600;
    let minutes = seconds / 60;
    if seconds < 60 {
        "Just now"@
    } else if days >= 365 {
        counted((days / 365) as nat, "1 year ago"@, " years ago"@)
    } else if days >= 30 {
        counted((days / 30) as nat, "1 month ago"@, " months ago"@)
    } else if days >= 7 {
        counted((days / 7) as nat, "1 week ago"@, " weeks ago"@)
    } else if days >= 1 {
        counted(days as nat, "1 day ago"@, " days ago"@)
    } else if hours >= 1 {
        counted(hours as nat, "1 hour ago"@, " hours ago"@)
    } else {
        counted(minutes as nat, "1 minute ago"@, " minutes ago"@)
    }
}

fn counted_string(n: u64, one: &str, many: &str) -> (text: String)
    ensures
        text@ == counted(n as nat, one@, many@),
{
    if n == 1 {
        String::from_str(one)
    } else {
        let mut out = String::new();
        push_decimal(&mut out, n);
        out.append(many);
        assert(out@ =~= decimal(n as nat) + many@);
        out
    }
}

fn age_string(seconds: u128) -> (text: String)
    requires
        60 <= seconds <= 0x4_0000_0000_0000_0000,
    ensures
        text@ == age_text(seconds as int),
{
    let days: u64 = (seconds / 86_400) as u64;
    let hours: u64 = (seconds / 3_600) as u64;
    let minutes: u64 = (seconds / 60) as u64;
    if days >= 365 {
        counted_string(days / 365, "1 year ago", " years ago")
    } else if days >= 30 {
        counted_string(days / 30, "1 month ago", " months ago")
    } else if days >= 7 {
        counted_string(days / 7, "1 week ago", " weeks ago")
    } else if days >= 1 {
        counted_string(days, "1 day ago", " days ago")
    } else if hours >= 1 {
        counted_string(hours, "1 hour ago", " hours ago")
    } else {
        counted_string(minutes, "1 minute ago", " minutes ago")
    }
}

/// The text for an age of `seconds`.
pub fn describe_age(seconds: i64) -> (text: String)
    ensures
        text@ == age_text(seconds as int),
{
    if seconds < 60 {
        String::from_str("Just now")
    } else {
        age_string(seconds as u128)
    }
}

/// How long ago `time` was, seen from `now`: the moment is the caller's to
/// give, so that the text depends on the two points in time alone.
pub fn format_last_modified(time: &Timestamp, now: &Timestamp) -> (text: String)
    ensures
        text@ == age_text(elapsed_seconds(*now, *time)),
{
    let now_nanos: i128 = (now.secs as i128) * 1_000_000_000 + (now.nanos as i128);
    let then_nanos: i128 = (time.secs as i128) * 1_000_000_000 + (time.nanos as i128);
    let delta: i128 = now_nanos - then_nanos;
    if delta < 60_000_000_000 {
        String::from_str("Just now")
    } else {
        age_string((delta as u128) / 1_000_000_000)
    }
}

} // verus!
