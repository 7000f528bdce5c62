use vstd::prelude::*;

verus! {

/// The `Duration` that `Duration::from_nanos` returns for a given
/// nanosecond count.  A `Duration`'s inside is opaque here, so the
/// value carries a name and nothing more.
pub uninterp spec fn duration_of_nanos(nanos: u64) -> core::time::Duration;

/// Relies on std's Duration::from_nanos: a span of exactly `nanos`
/// nanoseconds, a function of its argument alone.
pub assume_specification[ core::time::Duration::from_nanos ](nanos: u64) -> (d:
    core::time::Duration)
    ensures
        d == duration_of_nanos(nanos),
;

/// The period of an event repeating `freq_hertz` times per second:
/// a duration of 1_000_000_000 / freq_hertz nanoseconds.
pub fn freq_to_period_duration(freq_hertz: u64) -> (d: core::time::Duration)
    requires
        1 <= freq_hertz,
    ensures
        d == duration_of_nanos(1_000_000_000u64 / freq_hertz),
{
    core::time::Duration::from_nanos(1_000_000_000 / freq_hertz)
}

} // verus!
