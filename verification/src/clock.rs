//! Points in time and spans of time.
//!
//! `Duration` and `Instant` are the standard library's. In contracts a span is its length in
//! nanoseconds and a point in time is its position, in nanoseconds, on the monotonic clock.

use std::time::{Duration, Instant};
use vstd::prelude::*;

verus! {

/// The shortest TTL that the channel accepts (one millisecond), in nanoseconds.
pub const MIN_TTL_NANOS: u128 = 1_000_000;

/// The longest TTL that the channel accepts (365 days), in nanoseconds.
pub const MAX_TTL_NANOS: u128 = 31_536_000_000_000_000;

/// `std::time::Instant`: a point on the monotonic clock, opaque.
#[verifier::external_type_specification]
#[verifier::external_body]
pub struct ExInstant(Instant);

/// The length of a span in nanoseconds: what `Duration::as_nanos` returns.
pub uninterp spec fn duration_nanos(d: Duration) -> nat;

/// The position of a point in time on the monotonic clock, in nanoseconds from an origin that
/// is the same for all points: what comparisons of `Instant`s compare.
pub uninterp spec fn instant_nanos(t: Instant) -> int;

/// The point in time `nanos` after `t`, `None` if `Instant` cannot represent it: what
/// `Instant::checked_add` returns.
pub uninterp spec fn instant_plus(t: Instant, nanos: nat) -> Option<Instant>;

/// `Duration::as_nanos` returns the total number of nanoseconds of the span.
pub assume_specification[ Duration::as_nanos ](d: &Duration) -> (nanos: u128)
    ensures
        nanos == duration_nanos(*d),
;

/// `Duration::from_millis` makes a span of so many milliseconds.
pub assume_specification[ Duration::from_millis ](millis: u64) -> (d: Duration)
    ensures
        duration_nanos(d) == millis * 1_000_000,
;

/// `Duration::from_secs` makes a span of so many seconds.
pub assume_specification[ Duration::from_secs ](secs: u64) -> (d: Duration)
    ensures
        duration_nanos(d) == secs * 1_000_000_000,
;

/// `Instant::now` reads the monotonic clock. Nothing is claimed of the reading.
pub assume_specification[ Instant::now ]() -> (now: Instant)
;

/// `Instant::checked_add` returns the point in time that lies the given span later, or `None`
/// if that point cannot be represented. Which points can be is left open.
pub assume_specification[ Instant::checked_add ](t: &Instant, duration: Duration) -> (sum: Option<
    Instant,
>)
    ensures
        sum == instant_plus(*t, duration_nanos(duration)),
        sum matches Some(u) ==> instant_nanos(u) == instant_nanos(*t) + duration_nanos(duration),
;

/// `Instant::saturating_duration_since` returns the time from `earlier` to `t`, or zero if
/// `earlier` is the later of the two.
pub assume_specification[ Instant::saturating_duration_since ](
    t: &Instant,
    earlier: Instant,
) -> (d: Duration)
    ensures
        duration_nanos(d) == if instant_nanos(earlier) <= instant_nanos(*t) {
            instant_nanos(*t) - instant_nanos(earlier)
        } else {
            0
        },
;

/// The operator `<=` on `Instant`s: `a` lies at or before `b` on the clock.
#[verifier::external_body]
pub(crate) fn at_or_before(a: Instant, b: Instant) -> (r: bool)
    ensures
        r == (instant_nanos(a) <= instant_nanos(b)),
{
    a <= b
}

/// Whether `t` is a reading of the clock: a value that a call of `Instant::now` returned.
pub open spec fn is_reading(t: Instant) -> bool {
    call_ensures(Instant::now, (), t)
}

/// Whether a TTL of `nanos` nanoseconds is accepted: one millisecond to one year, inclusive.
pub open spec fn ttl_in_range(nanos: nat) -> bool {
    MIN_TTL_NANOS <= nanos <= MAX_TTL_NANOS
}

/// The accepted TTL nearest to `nanos`.
pub open spec fn clamped_ttl(nanos: nat) -> nat {
    if nanos < MIN_TTL_NANOS {
        MIN_TTL_NANOS as nat
    } else if nanos > MAX_TTL_NANOS {
        MAX_TTL_NANOS as nat
    } else {
        nanos
    }
}

/// The deadline of an item enqueued at `now` with a TTL of `ttl` nanoseconds. Where that point
/// cannot be represented, the shortest TTL is taken instead, and `now` itself where even that
/// fails, so that there always is a deadline.
pub open spec fn deadline_spec(now: Instant, ttl: nat) -> Instant {
    match instant_plus(now, ttl) {
        Some(t) => t,
        None => match instant_plus(now, MIN_TTL_NANOS as nat) {
            Some(t) => t,
            None => now,
        },
    }
}

/// Whether `t` is the deadline of an item enqueued at `now` with a TTL of `ttl` nanoseconds, and
/// lies so long after `now` on the clock: the TTL, or what is taken in its place.
pub open spec fn is_deadline(t: Instant, now: Instant, ttl: nat) -> bool {
    &&& t == deadline_spec(now, ttl)
    &&& instant_nanos(t) - instant_nanos(now) == if instant_plus(now, ttl) is Some {
        ttl as int
    } else if instant_plus(now, MIN_TTL_NANOS as nat) is Some {
        MIN_TTL_NANOS as int
    } else {
        0
    }
}

/// The shortest accepted TTL.
pub fn min_ttl() -> (d: Duration)
    ensures
        duration_nanos(d) == MIN_TTL_NANOS,
{
    Duration::from_millis(1)
}

/// The longest accepted TTL.
pub fn max_ttl() -> (d: Duration)
    ensures
        duration_nanos(d) == MAX_TTL_NANOS,
{
    Duration::from_secs(31_536_000)
}

/// Whether `ttl` is accepted.
pub fn is_valid_ttl(ttl: Duration) -> (valid: bool)
    ensures
        valid == ttl_in_range(duration_nanos(ttl)),
{
    let nanos: u128 = ttl.as_nanos();
    MIN_TTL_NANOS <= nanos && nanos <= MAX_TTL_NANOS
}

/// The accepted TTL nearest to `ttl`.
pub fn clamp_ttl(ttl: Duration) -> (clamped: Duration)
    ensures
        duration_nanos(clamped) == clamped_ttl(duration_nanos(ttl)),
        ttl_in_range(duration_nanos(ttl)) ==> clamped == ttl,
{
    let nanos: u128 = ttl.as_nanos();
    if nanos < MIN_TTL_NANOS {
        min_ttl()
    } else if nanos > MAX_TTL_NANOS {
        max_ttl()
    } else {
        ttl
    }
}

/// The deadline of an item enqueued at `now` with the TTL `ttl`.
pub fn deadline_after(now: Instant, ttl: Duration) -> (deadline: Instant)
    ensures
        is_deadline(deadline, now, duration_nanos(ttl)),
{
    match now.checked_add(ttl) {
        Some(t) => t,
        None => match now.checked_add(min_ttl()) {
            Some(t) => t,
            None => now,
        },
    }
}

} // verus!
