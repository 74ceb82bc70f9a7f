//! The linear curve.
use crate::tween::{SizedTween, Tween};
use vstd::prelude::*;

verus! {

/// The value of a straight line from `start` to `end` over `duration` ticks,
/// after `t` ticks, rounded toward `start`.
pub open spec fn linear_at(start: int, end: int, duration: nat, t: nat) -> int {
    if start <= end {
        start + (end - start) * t / (duration as int)
    } else {
        start - (start - end) * t / (duration as int)
    }
}

/// A straight line from one value to another.
#[derive(Debug, Clone, Copy, PartialEq, Eq)]
pub struct Linear {
    start: i64,
    end: i64,
    duration: u64,
}

/// For `t < duration`, the part of `span` that `t` ticks cover lies within `span`.
proof fn lemma_part_within(span: int, t: int, duration: int)
    requires
        0 <= span,
        0 <= t < duration,
    ensures
        0 <= span * t / duration <= span,
{
    assert(span * t <= span * duration) by (nonlinear_arith)
        requires
            0 <= span,
            t < duration,
    ;
    assert(0 <= span * t) by (nonlinear_arith)
        requires
            0 <= span,
            0 <= t,
    ;
    vstd::arithmetic::div_mod::lemma_div_is_ordered(span * t, span * duration, duration);
    vstd::arithmetic::div_mod::lemma_div_by_multiple(span, duration);
    vstd::arithmetic::div_mod::lemma_div_pos_is_pos(span * t, duration);
}

/// The line that its kind's constructor builds runs from `start` to `end`
/// over `duration` ticks, and before its end has the value of a straight line
/// between them.
pub proof fn lemma_spec_new(start: i64, end: i64, duration: u64)
    ensures
        ({
            let r = <Linear as SizedTween>::spec_new(start, end, duration);
            &&& r.spec_initial_value() == start
            &&& r.spec_final_value() == end
            &&& r.spec_duration() == duration
            &&& forall|t: nat|
                t < duration ==> #[trigger] r.spec_run(t) == linear_at(start as int, end as int, duration as nat, t)
        }),
{
    let r = <Linear as SizedTween>::spec_new(start, end, duration);
    assert forall|t: nat| t < duration implies #[trigger] r.spec_run(t) == linear_at(
        start as int,
        end as int,
        duration as nat,
        t,
    ) by {
        lemma_part_within(if start <= end { end - start } else { start - end }, t as int, duration as int);
    }
}

impl Linear {
    /// A line from `start` to `end` over `duration` ticks.
    pub fn new(start: i64, end: i64, duration: u64) -> (r: Linear)
        ensures
            r == <Linear as SizedTween>::spec_new(start, end, duration),
            r.spec_initial_value() == start,
            r.spec_final_value() == end,
            r.spec_duration() == duration,
            forall|t: nat|
                t < duration ==> #[trigger] r.spec_run(t) == linear_at(start as int, end as int, duration as nat, t),
    {
        let r = Linear { start, end, duration };
        assert forall|t: nat| t < duration implies #[trigger] r.spec_run(t) == linear_at(start as int, end as int, duration as nat, t) by {
            lemma_part_within(if start <= end { end - start } else { start - end }, t as int, duration as int);
        }
        r
    }
}

impl Tween for Linear {
    closed spec fn spec_duration(&self) -> nat {
        self.duration as nat
    }

    closed spec fn spec_run(&self, t: nat) -> i64 {
        linear_at(self.start as int, self.end as int, self.duration as nat, t) as i64
    }

    closed spec fn spec_final_value(&self) -> i64 {
        self.end
    }

    fn duration(&self) -> (r: u64) {
        self.duration
    }

    fn run(&self, t: u64) -> (r: i64) {
        let d = self.duration as u128;
        if self.start <= self.end {
            let span = (self.end as i128 - self.start as i128) as u128;
            proof {
                lemma_part_within(span as int, t as int, d as int);
                vstd::arithmetic::mul::lemma_mul_upper_bound(span as int, 0xffff_ffff_ffff_ffff, t as int, 0xffff_ffff_ffff_ffff);
            }
            let part = span * (t as u128) / d;
            (self.start as i128 + part as i128) as i64
        } else {
            let span = (self.start as i128 - self.end as i128) as u128;
            proof {
                lemma_part_within(span as int, t as int, d as int);
                vstd::arithmetic::mul::lemma_mul_upper_bound(span as int, 0xffff_ffff_ffff_ffff, t as int, 0xffff_ffff_ffff_ffff);
            }
            let part = span * (t as u128) / d;
            (self.start as i128 - part as i128) as i64
        }
    }

    fn final_value(&self) -> (r: i64) {
        self.end
    }
}

impl SizedTween for Linear {
    closed spec fn spec_initial_value(&self) -> i64 {
        self.start
    }

    closed spec fn spec_new(initial: i64, end: i64, duration: u64) -> Linear {
        Linear { start: initial, end, duration }
    }

    fn initial_value(&self) -> (r: i64) {
        self.start
    }

    fn new(initial: i64, end: i64, duration: u64) -> (r: Linear) {
        Linear::new(initial, end, duration)
    }
}

} // verus!
