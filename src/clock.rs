//! The rotation clock: which daily boundary a moment in time belongs to.
use vstd::prelude::*;
use chrono::Datelike;

verus! {

/// Hour of the day (UTC) at which a new rotation window opens.
pub const RESET_HOUR: i64 = 14;

pub const SECS_PER_HOUR: i64 = 3600;

pub const SECS_PER_DAY: i64 = 86400;

/// Earliest Unix time that a checkpoint is computed for; the checkpoint of
/// any time from here on fits in an `i64`.
pub const MIN_TIME: i64 = -9_000_000_000_000_000_000;

/// The start of a rotation window, as seconds since the Unix epoch (UTC).
#[derive(Clone, Copy, Debug, PartialEq, Eq, Structural)]
pub struct Checkpoint {
    pub secs: i64,
}

/// Hour of the day (UTC) of Unix time `t`.
pub open spec fn hour_of(t: int) -> int {
    (t % (SECS_PER_DAY as int)) / (SECS_PER_HOUR as int)
}

/// Midnight (UTC) that starts the day holding Unix time `t`.
pub open spec fn day_start(t: int) -> int {
    t - t % (SECS_PER_DAY as int)
}

/// The most recent rotation boundary at Unix time `t`: today at the reset hour
/// once that hour has come, else yesterday at the reset hour.
pub open spec fn checkpoint_secs(t: int) -> int {
    if hour_of(t) >= RESET_HOUR {
        day_start(t) + RESET_HOUR * SECS_PER_HOUR
    } else {
        day_start(t) - SECS_PER_DAY + RESET_HOUR * SECS_PER_HOUR
    }
}

/// A Unix time that lies exactly on a rotation boundary.
pub open spec fn is_boundary(s: int) -> bool {
    s % (SECS_PER_DAY as int) == RESET_HOUR * SECS_PER_HOUR
}

/// Lowest value that `now_secs` can return: the first second of chrono's
/// earliest representable year, with some margin below it.
pub const CLOCK_MIN: i64 = -8_400_000_000_000;

/// Highest value that `now_secs` can return: past the last second of chrono's
/// latest representable year.
pub const CLOCK_MAX: i64 = 8_300_000_000_000;

/// Relies on `chrono::Utc::now` and `DateTime::timestamp`: the current time
/// in whole seconds since the Unix epoch. A `DateTime<Utc>` only spans the
/// years chrono can represent (about 262,000 years either side of year 0),
/// which bounds the result.
#[verifier::external_body]
pub(crate) fn now_secs() -> (r: i64)
    ensures
        CLOCK_MIN <= r <= CLOCK_MAX,
{
    chrono::Utc::now().timestamp()
}

/// The checkpoint in force at Unix time `now`.
pub fn checkpoint_at(now: i64) -> (r: Checkpoint)
    requires
        MIN_TIME <= now,
    ensures
        r.secs == checkpoint_secs(now as int),
{
    let into_day: i64 = match now.checked_rem_euclid(SECS_PER_DAY) {
        Some(v) => v,
        None => 0,
    };
    assert(into_day == (now as int) % (SECS_PER_DAY as int));
    let midnight: i64 = now - into_day;
    let hour: i64 = into_day / SECS_PER_HOUR;
    if hour >= RESET_HOUR {
        Checkpoint { secs: midnight + RESET_HOUR * SECS_PER_HOUR }
    } else {
        Checkpoint { secs: midnight - SECS_PER_DAY + RESET_HOUR * SECS_PER_HOUR }
    }
}

/// The checkpoint in force now, by the system clock.
pub fn current_checkpoint() -> (r: Checkpoint)
    ensures
        exists|t: int| CLOCK_MIN <= t <= CLOCK_MAX && r.secs == #[trigger] checkpoint_secs(t),
        is_boundary(r.secs as int),
{
    let now = now_secs();
    let r = checkpoint_at(now);
    proof {
        lemma_checkpoint_bounds(now as int);
    }
    r
}

/// A checkpoint is a boundary at or before the time it is taken at, and less
/// than one day before it.
pub proof fn lemma_checkpoint_bounds(t: int)
    ensures
        checkpoint_secs(t) <= t < checkpoint_secs(t) + SECS_PER_DAY,
        is_boundary(checkpoint_secs(t)),
{
    let d = SECS_PER_DAY as int;
    let m = t % d;
    assert(0 <= m < d);
    assert((day_start(t)) % d == 0) by {
        vstd::arithmetic::div_mod::lemma_fundamental_div_mod(t, d);
        vstd::arithmetic::div_mod::lemma_mod_multiples_basic(t / d, d);
    }
    let c = checkpoint_secs(t);
    if hour_of(t) >= RESET_HOUR {
        vstd::arithmetic::div_mod::lemma_mod_multiples_vanish(t / d, RESET_HOUR * SECS_PER_HOUR, d);
        vstd::arithmetic::div_mod::lemma_fundamental_div_mod(t, d);
    } else {
        vstd::arithmetic::div_mod::lemma_fundamental_div_mod(t, d);
        vstd::arithmetic::div_mod::lemma_mod_multiples_vanish(t / d - 1, RESET_HOUR * SECS_PER_HOUR, d);
        assert(c == (t / d - 1) * d + RESET_HOUR * SECS_PER_HOUR) by (nonlinear_arith)
            requires c == t - m - d + RESET_HOUR * SECS_PER_HOUR, t == d * (t / d) + m;
    }
}

/// Two boundaries less than a day apart are the same boundary.
proof fn lemma_boundaries_apart(a: int, b: int)
    requires
        is_boundary(a),
        is_boundary(b),
        a <= b,
    ensures
        b - a == 0 || b - a >= SECS_PER_DAY,
{
    let d = SECS_PER_DAY as int;
    vstd::arithmetic::div_mod::lemma_fundamental_div_mod(a, d);
    vstd::arithmetic::div_mod::lemma_fundamental_div_mod(b, d);
    let qa = a / d;
    let qb = b / d;
    assert(b - a == d * (qb - qa)) by (nonlinear_arith)
        requires a == d * qa + a % d, b == d * qb + b % d, a % d == b % d;
    if qb - qa >= 1 {
        assert(d * (qb - qa) >= d) by (nonlinear_arith)
            requires qb - qa >= 1, d > 0;
    } else {
        assert(qb - qa <= 0);
        assert(d * (qb - qa) <= 0) by (nonlinear_arith)
            requires qb - qa <= 0, d > 0;
    }
}

/// Every time inside the rotation window that opened at the checkpoint of `t1`
/// maps to that same checkpoint.
pub proof fn lemma_same_window(t1: int, t2: int)
    requires
        checkpoint_secs(t1) <= t2 < checkpoint_secs(t1) + SECS_PER_DAY,
    ensures
        checkpoint_secs(t2) == checkpoint_secs(t1),
{
    lemma_checkpoint_bounds(t1);
    lemma_checkpoint_bounds(t2);
    let c1 = checkpoint_secs(t1);
    let c2 = checkpoint_secs(t2);
    if c1 <= c2 {
        lemma_boundaries_apart(c1, c2);
    } else {
        lemma_boundaries_apart(c2, c1);
    }
}

/// Once a full day has passed since the checkpoint of `t1`, the checkpoint is
/// strictly later: it has moved on by at least one day.
pub proof fn lemma_next_window_later(t1: int, t2: int)
    requires
        t2 >= checkpoint_secs(t1) + SECS_PER_DAY,
    ensures
        checkpoint_secs(t2) >= checkpoint_secs(t1) + SECS_PER_DAY,
        checkpoint_secs(t2) > checkpoint_secs(t1),
{
    lemma_checkpoint_bounds(t1);
    lemma_checkpoint_bounds(t2);
    lemma_boundaries_apart(checkpoint_secs(t1), checkpoint_secs(t2));
}

/// Checkpoints never move backwards as time goes forward.
pub proof fn lemma_checkpoint_monotone(t1: int, t2: int)
    requires
        t1 <= t2,
    ensures
        checkpoint_secs(t1) <= checkpoint_secs(t2),
{
    lemma_checkpoint_bounds(t1);
    if t2 < checkpoint_secs(t1) + SECS_PER_DAY {
        lemma_same_window(t1, t2);
    } else {
        lemma_next_window_later(t1, t2);
    }
}

/// Month of the year (1 to 12) of the UTC date holding Unix time `t`, by
/// chrono's proleptic Gregorian calendar.
pub uninterp spec fn month_of(t: int) -> int;

/// Day of the month (1 to 31) of the UTC date holding Unix time `t`, by
/// chrono's proleptic Gregorian calendar.
pub uninterp spec fn day_of(t: int) -> int;

/// Unix times whose UTC date chrono can certainly represent.
pub open spec fn in_date_range(t: int) -> bool {
    -8_000_000_000_000 <= t <= 8_000_000_000_000
}

/// Relies on `chrono::DateTime::from_timestamp` and `Datelike::month`: the
/// month of the UTC date at Unix time `t`, when chrono can represent that
/// date (`None` only outside its range of about 262,000 years either side of
/// year 0).
#[verifier::external_body]
fn utc_month(t: i64) -> (r: Option<u32>)
    ensures
        r matches Some(m) ==> m == month_of(t as int) && 1 <= m <= 12,
        in_date_range(t as int) ==> r is Some,
{
    match chrono::DateTime::from_timestamp(t, 0) {
        Some(d) => Some(d.month()),
        None => None,
    }
}

/// Relies on `chrono::DateTime::from_timestamp` and `Datelike::day`: the day
/// of the month of the UTC date at Unix time `t`, when chrono can represent
/// that date.
#[verifier::external_body]
fn utc_day(t: i64) -> (r: Option<u32>)
    ensures
        r matches Some(d) ==> d == day_of(t as int) && 1 <= d <= 31,
        in_date_range(t as int) ==> r is Some,
{
    match chrono::DateTime::from_timestamp(t, 0) {
        Some(d) => Some(d.day()),
        None => None,
    }
}

/// Month and day of the special date on which everyone gets the designated
/// entry.
pub const OVERRIDE_MONTH: u32 = 3;

pub const OVERRIDE_DAY: u32 = 31;

/// Whether a calendar month and day are the override date.
pub fn is_override_month_day(month: u32, day: u32) -> (r: bool)
    ensures
        r == (month == OVERRIDE_MONTH && day == OVERRIDE_DAY),
{
    month == OVERRIDE_MONTH && day == OVERRIDE_DAY
}

/// Whether Unix time `t` falls on the override date (UTC).
pub fn is_override_date(t: i64) -> (r: bool)
    ensures
        in_date_range(t as int) ==> r == (month_of(t as int) == OVERRIDE_MONTH && day_of(t as int)
            == OVERRIDE_DAY),
        r ==> month_of(t as int) == OVERRIDE_MONTH && day_of(t as int) == OVERRIDE_DAY,
{
    match (utc_month(t), utc_day(t)) {
        (Some(m), Some(d)) => is_override_month_day(m, d),
        _ => false,
    }
}

} // verus!
