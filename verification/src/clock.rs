//! The monotonic clock and durations, behind trusted wrappers. What the
//! clock reads depends on when it is asked, so `now` promises nothing of its
//! result; the span between two given instants, a duration's milliseconds
//! and the order of two durations depend on their arguments alone, and are
//! named.

use std::time::{Duration, Instant};
use vstd::prelude::*;

verus! {

/// `std::time::Instant`, carried through the logic as an opaque value.
#[verifier::external_type_specification]
#[verifier::external_body]
pub struct ExInstant(Instant);

/// What `later.duration_since(earlier)` gives: the time from `earlier` to
/// `later`, zero when `later` is not after `earlier`.
pub uninterp spec fn span_between(later: Instant, earlier: Instant) -> Duration;

/// What `Duration::as_millis` gives: the whole milliseconds of `d`.
pub uninterp spec fn millis_of(d: Duration) -> u128;

/// What `d >= bound` gives on two durations.
pub uninterp spec fn duration_ge(d: Duration, bound: Duration) -> bool;

/// Calls `Instant::now`. Nothing is stated of the instant returned: it is
/// whenever the call happens.
#[verifier::external_body]
pub(crate) fn now() -> Instant {
    Instant::now()
}

/// Calls `Instant::duration_since`; its result is named [`span_between`] of
/// the two instants.
#[verifier::external_body]
pub(crate) fn duration_since(later: &Instant, earlier: &Instant) -> (d: Duration)
    ensures
        d == span_between(*later, *earlier),
{
    later.duration_since(*earlier)
}

/// Calls `Duration::as_millis`; its result is named [`millis_of`] of the
/// duration.
#[verifier::external_body]
pub(crate) fn as_millis(d: &Duration) -> (r: u128)
    ensures
        r == millis_of(*d),
{
    d.as_millis()
}

/// Calls `>=` on two `Duration`s; its result is named [`duration_ge`] of the
/// two.
#[verifier::external_body]
pub(crate) fn duration_at_least(d: &Duration, bound: &Duration) -> (r: bool)
    ensures
        r == duration_ge(*d, *bound),
{
    *d >= *bound
}

} // verus!
