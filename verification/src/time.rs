//! Calendar time. A wall-clock date and time is held as the number of
//! nanoseconds from 1970-01-01 00:00:00 to it, counted on the same naive
//! (zone-free) calendar: chrono's `naive.and_utc().timestamp()` seconds times
//! 10^9 plus its `timestamp_subsec_nanos()`. Every conversion to and from text
//! goes through `chrono`.

use vstd::prelude::*;
use chrono::{DateTime, Datelike, Local, NaiveDateTime, Offset, TimeDelta};

verus! {

/// Nanoseconds in a second.
pub const NANOS_PER_SEC: i128 = 1_000_000_000;

/// The first second that chrono holds: -262143-01-01 00:00:00.
pub const MIN_TIMESTAMP: i64 = -8334601228800;

/// The last second that chrono holds: 262142-12-31 23:59:59.
pub const MAX_TIMESTAMP: i64 = 8210266876799;

/// The wall-clock time `secs` seconds and `sub` nanoseconds after the epoch,
/// in nanoseconds.
pub open spec fn join_time(secs: int, sub: int) -> int {
    secs * NANOS_PER_SEC + sub
}

/// The whole second that a time in nanoseconds falls in.
pub open spec fn second_of(t: int) -> int {
    t / (NANOS_PER_SEC as int)
}

/// The nanoseconds of a time past its whole second.
pub open spec fn subsec_of(t: int) -> int {
    t % (NANOS_PER_SEC as int)
}

/// A time in nanoseconds from its seconds and the nanoseconds past them.
pub fn join_nanos(secs: i64, sub: u32) -> (r: i128)
    ensures
        r == join_time(secs as int, sub as int),
{
    assert(-9223372036854775808 * 1000000000 <= secs * 1000000000 <= 9223372036854775807 * 1000000000)
        by (nonlinear_arith)
        requires
            -9223372036854775808 <= secs <= 9223372036854775807,
    ;
    secs as i128 * NANOS_PER_SEC + sub as i128
}

/// A time in nanoseconds as its whole second and the nanoseconds past it;
/// `None` where the second does not fit in an `i64`.
pub fn split_nanos(t: i128) -> (r: Option<(i64, u32)>)
    ensures
        r matches Some(p) ==> p.0 == second_of(t as int) && p.1 == subsec_of(t as int) && p.1 < NANOS_PER_SEC,
        r is None <==> !(i64::MIN <= second_of(t as int) <= i64::MAX),
{
    let (q, m) = split_wide(t);
    if q < i64::MIN as i128 || q > i64::MAX as i128 {
        return None;
    }
    Some((q as i64, m as u32))
}

/// A time that chrono read, in nanoseconds.
pub open spec fn opt_joined(p: Option<(int, int)>) -> Option<int> {
    match p {
        Some(q) => Some(join_time(q.0, q.1)),
        None => None,
    }
}

/// A time that chrono read, in nanoseconds.
pub fn joined(p: Option<(i64, u32)>) -> (r: Option<i128>)
    ensures
        r matches Some(v) ==> p matches Some(q) && v == join_time(q.0 as int, q.1 as int),
        r is None <==> p is None,
{
    match p {
        Some((s, n)) => Some(join_nanos(s, n)),
        None => None,
    }
}

/// The wall-clock time `delta` seconds after `now` (chrono `checked_add_signed`
/// with `TimeDelta::seconds`, which keeps the nanoseconds): `None` where chrono
/// cannot hold either time.
pub open spec fn spec_add_time(now: int, delta: int) -> Option<int> {
    match spec_add_secs(second_of(now), delta) {
        Some(s) => Some(join_time(s, subsec_of(now))),
        None => None,
    }
}

/// The wall-clock time `delta` seconds after `now`.
pub fn add_time(now: i128, delta: i64) -> (r: Option<i128>)
    requires
        -9223372036854775 <= delta <= 9223372036854775,
    ensures
        r matches Some(v) ==> spec_add_time(now as int, delta as int) == Some(v as int),
        r is None ==> spec_add_time(now as int, delta as int) is None,
{
    let (secs, sub) = match split_nanos(now) {
        Some(p) => p,
        None => return None,
    };
    match add_secs(secs, sub, delta) {
        Some((s, n)) => Some(join_nanos(s, n)),
        None => None,
    }
}

/// The whole seconds from `b` to `a` (`a` not before `b`), rounded down.
pub fn secs_between(a: i128, b: i128) -> (r: i128)
    requires
        a >= b,
    ensures
        r == (a - b) / (NANOS_PER_SEC as int),
        r >= 0,
{
    let (qa, ra) = split_wide(a);
    let (qb, rb) = split_wide(b);
    let c: i128 = if ra < rb { 1 } else { 0 };
    let r: i128 = qa - qb - c;
    proof {
        let rem = ra - rb + c * 1000000000;
        assert(a - b == r * 1000000000 + rem);
        vstd::arithmetic::div_mod::lemma_fundamental_div_mod_converse((a - b) as int, 1000000000, r as int, rem as int);
    }
    r
}

/// A time in nanoseconds as its whole second and the nanoseconds past it.
fn split_wide(t: i128) -> (r: (i128, i128))
    ensures
        r.0 == second_of(t as int),
        r.1 == subsec_of(t as int),
        0 <= r.1 < NANOS_PER_SEC,
        -170141183460469231731687303716 <= r.0 <= 170141183460469231731687303715,
        t == r.0 * NANOS_PER_SEC + r.1,
{
    let (q, m): (i128, i128) = if t >= 0 {
        (t / NANOS_PER_SEC, t % NANOS_PER_SEC)
    } else {
        let u: i128 = -(t + 1);
        (0 - u / NANOS_PER_SEC - 1, 999_999_999 - u % NANOS_PER_SEC)
    };
    proof {
        vstd::arithmetic::div_mod::lemma_fundamental_div_mod(t as int, 1000000000);
        if t < 0 {
            let u = -(t + 1);
            vstd::arithmetic::div_mod::lemma_fundamental_div_mod(u as int, 1000000000);
            assert(q * 1000000000 + m == t);
            vstd::arithmetic::div_mod::lemma_fundamental_div_mod_converse(t as int, 1000000000, q as int, m as int);
        }
    }
    (q, m)
}

/// Whether `d` comes at most `k` nanoseconds after `now`.
pub fn within(d: i128, now: i128, k: i128) -> (r: bool)
    requires
        k >= 0,
    ensures
        r == (d - now <= k),
{
    if now > i128::MAX - k {
        true
    } else {
        d <= now + k
    }
}

/// The format of a deadline shown to the user.
pub open spec fn display_format() -> Seq<char> {
    "%Y-%m-%d %H:%M"@
}

/// The format of a deadline in the cache file.
pub open spec fn cache_format() -> Seq<char> {
    "%Y-%m-%dT%H:%M:%S"@
}

/// The format of the time of the cached fetch in the window's status line.
pub open spec fn status_format() -> Seq<char> {
    "%m-%d %H:%M"@
}

/// Whether chrono can hold the wall-clock time `secs` (`DateTime::from_timestamp`
/// gives `Some`): between the first and the last second of chrono's range.
pub open spec fn chrono_representable(secs: int) -> bool {
    MIN_TIMESTAMP <= secs <= MAX_TIMESTAMP
}

/// What chrono's `format` prints for the wall-clock time `secs` seconds and
/// `sub` nanoseconds with a strftime pattern.
pub uninterp spec fn chrono_format(secs: int, sub: int, fmt: Seq<char>) -> Option<Seq<char>>;

/// What chrono's `DateTime::parse_from_rfc3339` reads from a text, taken as
/// the wall-clock time in the text's own offset (`naive_local`): seconds and
/// nanoseconds.
pub uninterp spec fn chrono_rfc3339_naive(raw: Seq<char>) -> Option<(int, int)>;

/// What chrono's `NaiveDateTime::parse_from_str` reads from a text with a
/// strftime pattern: seconds and nanoseconds.
pub uninterp spec fn chrono_parse_naive(raw: Seq<char>, fmt: Seq<char>) -> Option<(int, int)>;

/// The current local wall-clock time as seconds and the nanoseconds past
/// them (chrono `Local::now`, taken in the machine's time zone). Nothing is
/// promised of the values: they are a reading of the clock.
#[verifier::external_body]
fn now_naive_local_parts() -> (r: (i64, u32)) {
    let t = Local::now().naive_local().and_utc();
    (t.timestamp(), t.timestamp_subsec_nanos())
}

/// The current local wall-clock time, in nanoseconds.
pub(crate) fn now_naive_local() -> (r: i128) {
    let (secs, sub) = now_naive_local_parts();
    join_nanos(secs, sub)
}

/// The current local time in RFC 3339 (chrono `Local::now().to_rfc3339()`).
/// Nothing is promised of the text: it is a reading of the clock.
#[verifier::external_body]
pub(crate) fn now_rfc3339() -> (r: String) {
    Local::now().to_rfc3339()
}

/// The current local year and month (chrono `Local::now`, `year`, `month`).
/// The values are a reading of the clock; chrono keeps years within
/// -262143..=262142 and months within 1..=12.
#[verifier::external_body]
pub(crate) fn local_year_month() -> (r: (i32, u32))
    ensures
        -262143 <= r.0 <= 262142,
        1 <= r.1 <= 12,
{
    let now = Local::now();
    (now.year(), now.month())
}

/// Whether chrono holds the times a day either side of `secs`: then the time
/// shifted by any UTC offset (less than a day either way) is within chrono's
/// range too.
pub open spec fn local_shift_holds(secs: int) -> bool {
    chrono_representable(secs - 86400) && chrono_representable(secs + 86400)
}

/// The local wall-clock time of a Unix timestamp in the machine's time zone
/// (chrono `DateTime::from_timestamp`, `with_timezone(&Local)`, then the UTC
/// time shifted by the zone's offset with `checked_add_offset`, which is what
/// `naive_local` does short of its panic). `None` where chrono cannot hold
/// the timestamp or the shifted time. The value depends on the time zone of
/// the machine; what holds of every zone is that it lies less than a day from
/// `secs` (chrono's `FixedOffset` keeps every offset strictly within a day), so
/// the shifted time is held wherever the times a day either side are.
#[verifier::external_body]
pub(crate) fn timestamp_to_local_naive(secs: i64) -> (r: Option<i64>)
    ensures
        !chrono_representable(secs as int) ==> r is None,
        local_shift_holds(secs as int) ==> r is Some,
        r matches Some(v) ==> chrono_representable(v as int) && secs - 86400 < v < secs + 86400,
{
    let utc = DateTime::from_timestamp(secs, 0)?;
    let offset = utc.with_timezone(&Local).offset().fix();
    utc.naive_utc().checked_add_offset(offset).map(|t| t.and_utc().timestamp())
}

/// The UTC wall-clock time of a Unix timestamp (chrono
/// `DateTime::from_timestamp`, then `naive_utc`): the same count of seconds,
/// where chrono can hold it.
#[verifier::external_body]
pub(crate) fn timestamp_to_utc_naive(secs: i64) -> (r: Option<i64>)
    ensures
        r == (if chrono_representable(secs as int) { Some(secs) } else { None::<i64> }),
{
    DateTime::from_timestamp(secs, 0).map(|dt| dt.naive_utc().and_utc().timestamp())
}

/// Formats a wall-clock time with chrono's `NaiveDateTime::format` and one of
/// this library's patterns; `None` where chrono cannot hold the time.
#[verifier::external_body]
pub(crate) fn format_naive(secs: i64, sub: u32, fmt: &str) -> (r: Option<String>)
    requires
        sub < 1_000_000_000,
        fmt@ == display_format() || fmt@ == cache_format() || fmt@ == status_format(),
    ensures
        r is Some <==> chrono_representable(secs as int),
        r matches Some(s) ==> chrono_format(secs as int, sub as int, fmt@) == Some(s@),
{
    DateTime::from_timestamp(secs, sub).map(|dt| dt.naive_utc().format(fmt).to_string())
}

/// Reads an RFC 3339 date and time with chrono's `DateTime::parse_from_rfc3339`
/// and keeps its wall-clock time in the text's offset.
#[verifier::external_body]
pub(crate) fn parse_rfc3339_naive(raw: &str) -> (r: Option<(i64, u32)>)
    ensures
        r matches Some(p) ==> chrono_rfc3339_naive(raw@) == Some((p.0 as int, p.1 as int)),
        r is None ==> chrono_rfc3339_naive(raw@) is None,
{
    DateTime::parse_from_rfc3339(raw).ok().map(|dt| {
        let t = dt.naive_local().and_utc();
        (t.timestamp(), t.timestamp_subsec_nanos())
    })
}

/// Reads a wall-clock time with chrono's `NaiveDateTime::parse_from_str`.
#[verifier::external_body]
pub(crate) fn parse_naive(raw: &str, fmt: &str) -> (r: Option<(i64, u32)>)
    ensures
        r matches Some(p) ==> chrono_parse_naive(raw@, fmt@) == Some((p.0 as int, p.1 as int)),
        r is None ==> chrono_parse_naive(raw@, fmt@) is None,
{
    NaiveDateTime::parse_from_str(raw, fmt).ok().map(|dt| {
        let t = dt.and_utc();
        (t.timestamp(), t.timestamp_subsec_nanos())
    })
}

/// The wall-clock second `secs + delta` (chrono `checked_add_signed` with
/// `TimeDelta::seconds`): `None` where chrono cannot hold either time.
pub open spec fn spec_add_secs(secs: int, delta: int) -> Option<int> {
    if chrono_representable(secs) && chrono_representable(secs + delta) {
        Some(secs + delta)
    } else {
        None
    }
}

/// Adds seconds to a wall-clock time (`secs` seconds and `sub` nanoseconds)
/// with chrono's `checked_add_signed`, which keeps the nanoseconds;
/// `TimeDelta::seconds` holds at most `i64::MAX / 1000` seconds either way.
#[verifier::external_body]
pub(crate) fn add_secs(secs: i64, sub: u32, delta: i64) -> (r: Option<(i64, u32)>)
    requires
        sub < 1_000_000_000,
        -9223372036854775 <= delta <= 9223372036854775,
    ensures
        r matches Some(p) ==> spec_add_secs(secs as int, delta as int) == Some(p.0 as int) && p.1 == sub,
        r is None ==> spec_add_secs(secs as int, delta as int) is None,
{
    let start = DateTime::from_timestamp(secs, sub)?.naive_utc();
    start.checked_add_signed(TimeDelta::seconds(delta)).map(|t| (t.and_utc().timestamp(), t.and_utc().timestamp_subsec_nanos()))
}

} // verus!
