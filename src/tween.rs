//! The capability that every easing curve offers to the drivers.
use vstd::prelude::*;

verus! {

/// A stateless easing curve: a duration, a value for each instant before the
/// end, and the value that stands once the duration has passed.
///
/// Time is counted in `u64` ticks and values are `i64`.
pub trait Tween: Sized {
    /// The length of the curve in ticks.
    spec fn spec_duration(&self) -> nat;

    /// The value of the curve after `t` ticks, for `t` below the duration.
    spec fn spec_run(&self, t: nat) -> i64;

    /// The value that the curve ends on.
    spec fn spec_final_value(&self) -> i64;

    fn duration(&self) -> (r: u64)
        ensures
            r == self.spec_duration(),
    ;

    fn run(&self, t: u64) -> (r: i64)
        requires
            t < self.spec_duration(),
        ensures
            r == self.spec_run(t as nat),
    ;

    fn final_value(&self) -> (r: i64)
        ensures
            r == self.spec_final_value(),
    ;
}

/// A curve that is given by its two end values and its duration, so that the
/// same kind of curve can be built again between other values.
pub trait SizedTween: Tween {
    /// The value that the curve starts from.
    spec fn spec_initial_value(&self) -> i64;

    fn initial_value(&self) -> (r: i64)
        ensures
            r == self.spec_initial_value(),
    ;

    /// The curve of this kind from `initial` to `end` over `duration` ticks.
    spec fn spec_new(initial: i64, end: i64, duration: u64) -> Self;

    /// Builds the curve from `initial` to `end` over `duration` ticks.
    fn new(initial: i64, end: i64, duration: u64) -> (r: Self)
        ensures
            r == Self::spec_new(initial, end, duration),
            r.spec_initial_value() == initial,
            r.spec_final_value() == end,
            r.spec_duration() == duration,
    ;
}

} // verus!
