//! Time values anchored at the venue's zone (Asia/Shanghai, UTC+8), parsing
//! of fixed-width time literals, and whole-minute arithmetic.
use chrono::{DateTime, NaiveDateTime, TimeZone};
use std::fmt::Write;
use vstd::prelude::*;
use vstd::string::*;

use crate::error::Error;

verus! {

/// Canonical format with seconds: `2024-01-02 03:04:05`.
pub const TIME_FMT_S: &'static str = "%Y-%m-%d %H:%M:%S";

/// Canonical format with milliseconds: `2024-01-02 03:04:05.000`.
pub const TIME_FMT_MS: &'static str = "%Y-%m-%d %H:%M:%S%.3f";

/// Compact format with seconds: `20240102030405`.
pub const TIME_FMT_S_CPT: &'static str = "%Y%m%d%H%M%S";

/// Compact format with milliseconds: `20240102030405000`.
pub const TIME_FMT_MS_CPT: &'static str = "%Y%m%d%H%M%S%3f";

pub const NANOS_PER_MILLI: i128 = 1_000_000;

pub const NANOS_PER_SECOND: i128 = 1_000_000_000;

pub const NANOS_PER_MINUTE: i128 = 60_000_000_000;

/// An instant, as nanoseconds since the Unix epoch. It is shown in the
/// venue's zone.
#[derive(Clone, Copy, Debug, PartialEq, Eq, Structural, Hash)]
pub struct Time {
    pub nanos: i128,
}

/// The sentinel time used before the first tick: the epoch.
pub fn default_time() -> (r: Time)
    ensures
        r.nanos == 0,
{
    Time { nanos: 0 }
}

/// The time `value` milliseconds after the epoch. Every `i64` count of
/// milliseconds is a `Time`, so this never fails.
pub fn millis_to_time(value: i64) -> (r: Result<Time, Error>)
    ensures
        r == Ok::<Time, Error>(Time { nanos: (value * NANOS_PER_MILLI) as i128 }),
{
    Ok(Time { nanos: (value as i128) * NANOS_PER_MILLI })
}

/// The time `value` nanoseconds after the epoch.
pub fn nanos_to_time(value: i64) -> (r: Time)
    ensures
        r.nanos == value,
{
    Time { nanos: value as i128 }
}

/// Floor division and its non-negative remainder, for a positive divisor.
pub fn floor_div_mod(n: i128, d: i128) -> (r: (i128, i128))
    requires
        d > 0,
    ensures
        r.0 == n / d,
        r.1 == n % d,
{
    if n >= 0 {
        (n / d, n % d)
    } else {
        let a: i128 = -(n + 1);
        let q = a / d;
        let m = a % d;
        proof {
            vstd::arithmetic::div_mod::lemma_fundamental_div_mod(a as int, d as int);
            assert(n == (-q - 1) * d + (d - 1 - m)) by (nonlinear_arith)
                requires
                    a == d * q + m,
                    n == -(a + 1),
            ;
            vstd::arithmetic::div_mod::lemma_fundamental_div_mod_converse(
                n as int,
                d as int,
                -q - 1,
                d - 1 - m,
            );
        }
        (-q - 1, d - 1 - m)
    }
}

/// The full millisecond form of a separated literal (one holding `-`) of
/// a supported width, by the width in characters.
pub open spec fn pad_separated(s: Seq<char>) -> Option<Seq<char>> {
    if s.len() == 7 {
        Some(s + "-01 00:00:00.000"@)
    } else if s.len() == 10 {
        Some(s + " 00:00:00.000"@)
    } else if s.len() == 13 {
        Some(s + ":00:00.000"@)
    } else if s.len() == 16 {
        Some(s + ":00.000"@)
    } else if s.len() == 19 {
        Some(s + ".000"@)
    } else if s.len() == 23 {
        Some(s)
    } else {
        None
    }
}

/// The full millisecond form of a compact literal (digits only) of a
/// supported width.
pub open spec fn pad_compact(s: Seq<char>) -> Option<Seq<char>> {
    if s.len() == 4 {
        Some(s + "0101000000000"@)
    } else if s.len() == 6 {
        Some(s + "01000000000"@)
    } else if s.len() == 8 {
        Some(s + "000000000"@)
    } else if s.len() == 10 {
        Some(s + "0000000"@)
    } else if s.len() == 12 {
        Some(s + "00000"@)
    } else if s.len() == 14 {
        Some(s + "000"@)
    } else if s.len() == 17 {
        Some(s)
    } else {
        None
    }
}

/// A full compact literal (`YYYYMMDDHHMMSSmmm`) written with separators
/// (`YYYY-MM-DD HH:MM:SS.mmm`).
pub open spec fn separate(c: Seq<char>) -> Seq<char> {
    c.subrange(0, 4) + "-"@ + c.subrange(4, 6) + "-"@ + c.subrange(6, 8) + " "@
        + c.subrange(8, 10) + ":"@ + c.subrange(10, 12) + ":"@ + c.subrange(12, 14) + "."@
        + c.subrange(14, 17)
}

pub open spec fn has_dash(s: Seq<char>) -> bool {
    exists|i: int| 0 <= i < s.len() && s[i] == '-'
}

/// The literal that a time string stands for, in the separated millisecond
/// form `YYYY-MM-DD HH:MM:SS.mmm`; `None` for an unsupported width.
pub open spec fn normalized(s: Seq<char>) -> Option<Seq<char>> {
    if has_dash(s) {
        pad_separated(s)
    } else {
        match pad_compact(s) {
            Some(c) => Some(separate(c)),
            None => None,
        }
    }
}

/// The separated width that writes the same fields as a compact width:
/// `YYYYMM` and `YYYY-MM`, up to `YYYYMMDDHHMMSSmmm` and
/// `YYYY-MM-DD HH:MM:SS.mmm`.
pub open spec fn separated_width(w: nat) -> nat {
    if w == 6 {
        7
    } else if w == 8 {
        10
    } else if w == 10 {
        13
    } else if w == 12 {
        16
    } else if w == 14 {
        19
    } else {
        23
    }
}

/// A compact literal and the literal with separators that writes the same
/// fields denote the same instant, at every width both forms have
/// (`202401` and `2024-01`, ..., `20240102030405000` and
/// `2024-01-02 03:04:05.000`): both normalize to one literal.
pub proof fn compact_and_separated_agree(c: Seq<char>)
    requires
        c.len() == 6 || c.len() == 8 || c.len() == 10 || c.len() == 12 || c.len() == 14 || c.len()
            == 17,
        !has_dash(c),
    ensures
        ({
            let s = separate(pad_compact(c)->Some_0).take(separated_width(c.len()) as int);
            &&& s.len() == separated_width(c.len())
            &&& normalized(s) == normalized(c)
            &&& instant_of_literal(s) == instant_of_literal(c)
        }),
{
    reveal_strlit("-01 00:00:00.000");
    reveal_strlit(" 00:00:00.000");
    reveal_strlit(":00:00.000");
    reveal_strlit(":00.000");
    reveal_strlit(".000");
    reveal_strlit("0101000000000");
    reveal_strlit("01000000000");
    reveal_strlit("000000000");
    reveal_strlit("0000000");
    reveal_strlit("00000");
    reveal_strlit("000");
    reveal_strlit("-");
    reveal_strlit(" ");
    reveal_strlit(":");
    reveal_strlit(".");
    let d = separate(pad_compact(c)->Some_0);
    let w = separated_width(c.len()) as int;
    let s = d.take(w);
    assert(d.len() == 23);
    assert(s[4] == '-');
    assert(has_dash(s));
    assert(s.len() == w);
    assert(pad_separated(s)->Some_0 =~= d);
}

/// Normalizing is idempotent, and a literal denotes the same instant as its
/// normalized form: parsing a supported literal is parsing the full
/// millisecond literal it stands for.
pub proof fn normalized_literal_is_canonical(s: Seq<char>)
    requires
        normalized(s) is Some,
    ensures
        normalized(normalized(s)->Some_0) == normalized(s),
        instant_of_literal(normalized(s)->Some_0) == instant_of_literal(s),
{
    reveal_strlit("-01 00:00:00.000");
    reveal_strlit(" 00:00:00.000");
    reveal_strlit(":00:00.000");
    reveal_strlit(":00.000");
    reveal_strlit(".000");
    reveal_strlit("0101000000000");
    reveal_strlit("01000000000");
    reveal_strlit("000000000");
    reveal_strlit("0000000");
    reveal_strlit("00000");
    reveal_strlit("000");
    reveal_strlit("-");
    reveal_strlit(" ");
    reveal_strlit(":");
    reveal_strlit(".");
    let n = normalized(s)->Some_0;
    if has_dash(s) {
        let i = choose|i: int| 0 <= i < s.len() && s[i] == '-';
        assert(n[i] == '-');
        assert(has_dash(n));
        assert(n.len() == 23);
    } else {
        let c = pad_compact(s)->Some_0;
        assert(c.len() == 17);
        assert(n[4] == '-');
        assert(has_dash(n));
        assert(n.len() == 23);
    }
}

/// What chrono's `NaiveDateTime::parse_from_str` reads from a literal in
/// the millisecond format: the wall-clock time counted as if it were UTC,
/// as whole seconds and the nanoseconds past them.
pub uninterp spec fn naive_parts_of(s: Seq<char>) -> Option<(int, int)>;

/// The instant, as whole seconds and the nanoseconds past them, at which
/// the venue's clock shows a wall-clock time (given the same way as if it
/// were UTC), where there is exactly one.
pub uninterp spec fn venue_instant_of(secs: int, nsec: int) -> Option<(int, int)>;

/// The instant `secs` seconds and `nsec` nanoseconds after the epoch,
/// written in the venue's zone with a strftime format, where chrono can
/// write it.
pub uninterp spec fn formatted_time(secs: int, nsec: int, fmt: Seq<char>) -> Option<Seq<char>>;

/// The instant a time string denotes in the venue's zone, in nanoseconds
/// since the epoch, if any.
pub open spec fn instant_of_literal(s: Seq<char>) -> Option<int> {
    match normalized(s) {
        Some(n) => match naive_parts_of(n) {
            Some((secs, nsec)) => match venue_instant_of(secs, nsec) {
                Some((a, b)) => Some(a * NANOS_PER_SECOND + b),
                None => None,
            },
            None => None,
        },
        None => None,
    }
}

/// The text of the instant `nanos` in format `fmt`: chrono's, where the
/// seconds fit its `i64` timestamps.
pub open spec fn time_text(nanos: int, fmt: Seq<char>) -> Option<Seq<char>> {
    let secs = nanos / (NANOS_PER_SECOND as int);
    if i64::MIN <= secs <= i64::MAX {
        formatted_time(secs, nanos % (NANOS_PER_SECOND as int), fmt)
    } else {
        None
    }
}

/// Relies on chrono's `NaiveDateTime::parse_from_str` with the millisecond
/// format, read as UTC: `timestamp()` and `timestamp_subsec_nanos()`.
#[verifier::external_body]
fn parse_naive(ds: &str) -> (r: Option<(i64, u32)>)
    ensures
        match r {
            Some((secs, nsec)) => naive_parts_of(ds@) == Some((secs as int, nsec as int)),
            None => naive_parts_of(ds@) is None,
        },
{
    NaiveDateTime::parse_from_str(ds, TIME_FMT_MS)
        .ok()
        .map(|n| (n.and_utc().timestamp(), n.and_utc().timestamp_subsec_nanos()))
}

/// Relies on chrono's `DateTime::from_timestamp` (the wall-clock time) and
/// `TimeZone::from_local_datetime(..).single()` in chrono-tz's
/// `Asia::Shanghai`: the one instant that shows that wall-clock time, if
/// there is exactly one.
#[verifier::external_body]
fn venue_instant(secs: i64, nsec: u32) -> (r: Option<(i64, u32)>)
    ensures
        match r {
            Some((a, b)) => venue_instant_of(secs as int, nsec as int) == Some((a as int, b as int)),
            None => venue_instant_of(secs as int, nsec as int) is None,
        },
{
    let wall = DateTime::from_timestamp(secs, nsec)?.naive_utc();
    chrono_tz::Asia::Shanghai
        .from_local_datetime(&wall)
        .single()
        .map(|t| (t.timestamp(), t.timestamp_subsec_nanos()))
}

/// Relies on chrono's `TimeZone::timestamp_opt(..).single()` and
/// `DateTime::format` in `Asia::Shanghai`, written out with `write!` so
/// that an instant or a format chrono cannot write gives `None`.
#[verifier::external_body]
fn format_parts(secs: i64, nsec: u32, fmt: &str) -> (r: Option<String>)
    ensures
        match r {
            Some(s) => formatted_time(secs as int, nsec as int, fmt@) == Some(s@),
            None => formatted_time(secs as int, nsec as int, fmt@) is None,
        },
{
    let t = chrono_tz::Asia::Shanghai.timestamp_opt(secs, nsec).single()?;
    let mut out = String::new();
    match write!(out, "{}", t.format(fmt)) {
        Ok(()) => Some(out),
        Err(_) => None,
    }
}

fn contains_dash(s: &str) -> (r: bool)
    ensures
        r == has_dash(s@),
{
    let n: usize = s.unicode_len();
    let mut i: usize = 0;
    while i < n
        invariant
            n == s@.len(),
            i <= n,
            forall|j: int| 0 <= j < i ==> s@[j] != '-',
        decreases n - i,
    {
        if s.get_char(i) == '-' {
            return true;
        }
        i = i + 1;
    }
    false
}

/// The separated millisecond form of a time literal, or `None` where its
/// width is not one of the supported ones.
pub fn normalize_time_literal(value: &str) -> (r: Option<String>)
    ensures
        match r {
            Some(s) => normalized(value@) == Some(s@),
            None => normalized(value@) is None,
        },
{
    let n: usize = value.unicode_len();
    if contains_dash(value) {
        let suffix = if n == 7 {
            "-01 00:00:00.000"
        } else if n == 10 {
            " 00:00:00.000"
        } else if n == 13 {
            ":00:00.000"
        } else if n == 16 {
            ":00.000"
        } else if n == 19 {
            ".000"
        } else if n == 23 {
            ""
        } else {
            return None;
        };
        proof {
            reveal_strlit("");
        }
        let mut s = String::from_str(value);
        s.append(suffix);
        assert(s@ =~= pad_separated(value@)->Some_0);
        Some(s)
    } else {
        let suffix = if n == 4 {
            "0101000000000"
        } else if n == 6 {
            "01000000000"
        } else if n == 8 {
            "000000000"
        } else if n == 10 {
            "0000000"
        } else if n == 12 {
            "00000"
        } else if n == 14 {
            "000"
        } else if n == 17 {
            ""
        } else {
            return None;
        };
        proof {
            reveal_strlit("");
            reveal_strlit("0101000000000");
            reveal_strlit("01000000000");
            reveal_strlit("000000000");
            reveal_strlit("0000000");
            reveal_strlit("00000");
            reveal_strlit("000");
        }
        let mut c = String::from_str(value);
        c.append(suffix);
        assert(c@ =~= pad_compact(value@)->Some_0);
        assert(c@.len() == 17);
        let cs = c.as_str();
        let mut s = String::from_str(cs.substring_char(0, 4));
        s.append("-");
        s.append(cs.substring_char(4, 6));
        s.append("-");
        s.append(cs.substring_char(6, 8));
        s.append(" ");
        s.append(cs.substring_char(8, 10));
        s.append(":");
        s.append(cs.substring_char(10, 12));
        s.append(":");
        s.append(cs.substring_char(12, 14));
        s.append(".");
        s.append(cs.substring_char(14, 17));
        assert(s@ =~= separate(c@));
        Some(s)
    }
}

/// Parses a time literal of a supported width, read as wall-clock time in
/// the venue's zone. The separated widths are 7, 10, 13, 16, 19 and 23
/// characters (`2024-01` up to `2024-01-02 03:04:05.000`); the compact ones
/// are 4, 6, 8, 10, 12, 14 and 17 digits (`2024` up to
/// `20240102030405000`). Fields left out are the start of their range.
pub fn str_to_time(value: &str) -> (r: Result<Time, Error>)
    ensures
        match r {
            Ok(t) => instant_of_literal(value@) == Some(t.nanos as int),
            Err(e) => e == Error::TimeFormat && instant_of_literal(value@) is None,
        },
{
    let ds = match normalize_time_literal(value) {
        Some(ds) => ds,
        None => return Err(Error::TimeFormat),
    };
    let (secs, nsec) = match parse_naive(ds.as_str()) {
        Some(n) => n,
        None => return Err(Error::TimeFormat),
    };
    match venue_instant(secs, nsec) {
        Some((a, b)) => Ok(Time { nanos: (a as i128) * NANOS_PER_SECOND + (b as i128) }),
        None => Err(Error::TimeFormat),
    }
}

/// `value` written in the venue's zone with the strftime format `fmt`; an
/// error where chrono cannot write that format or that instant.
pub fn time_to_str(value: Time, fmt: &str) -> (r: Result<String, Error>)
    ensures
        match r {
            Ok(s) => time_text(value.nanos as int, fmt@) == Some(s@),
            Err(e) => e == Error::TimeFormat && time_text(value.nanos as int, fmt@) is None,
        },
{
    let (secs, nsec) = floor_div_mod(value.nanos, NANOS_PER_SECOND);
    if secs < i64::MIN as i128 || secs > i64::MAX as i128 {
        return Err(Error::TimeFormat);
    }
    match format_parts(secs as i64, nsec as u32, fmt) {
        Some(s) => Ok(s),
        None => Err(Error::TimeFormat),
    }
}

} // verus!
