//! Drivers that start over each time their tween ends.
use super::{advance, emitted, fresh, state_valid, steps_to_finish, DriverState, FixedTweener, Tweener};
use crate::tween::Tween;
use vstd::prelude::*;

verus! {

/// The state that a looping driver steps from: a spent run starts over at
/// tick zero.
pub open spec fn restarted(s: DriverState) -> DriverState {
    if s.fused {
        fresh()
    } else {
        s
    }
}

/// The state of a looping driver after a step of `delta` ticks.
pub open spec fn loop_step(s: DriverState, duration: nat, delta: nat) -> DriverState {
    advance(restarted(s), duration, delta)
}

/// The state of a looping driver after `k` steps of `delta` ticks from `s`.
pub open spec fn loop_steps(s: DriverState, duration: nat, delta: nat, k: nat) -> DriverState
    decreases k,
{
    if k == 0 {
        s
    } else {
        loop_steps(loop_step(s, duration, delta), duration, delta, (k - 1) as nat)
    }
}

/// What step `k` (counted from zero) of a looping driver yields, when it
/// starts fresh and adds `delta` ticks per step.
pub open spec fn loop_output<T: Tween>(tween: T, delta: nat, k: nat) -> Option<i64> {
    emitted(tween, restarted(loop_steps(fresh(), tween.spec_duration(), delta, k)), delta)
}

proof fn lemma_loop_steps_split(s: DriverState, duration: nat, delta: nat, a: nat, b: nat)
    ensures
        loop_steps(s, duration, delta, a + b) == loop_steps(
            loop_steps(s, duration, delta, a),
            duration,
            delta,
            b,
        ),
    decreases a,
{
    if a > 0 {
        lemma_loop_steps_split(loop_step(s, duration, delta), duration, delta, (a - 1) as nat, b);
        assert((a + b - 1) as nat == (a - 1) as nat + b);
    }
}

/// One more step of a looping driver takes it from its state after `k` steps
/// to its state after `k + 1`: a run of calls that each make one step follows
/// `loop_steps`.
pub proof fn lemma_loop_steps_next(s: DriverState, duration: nat, delta: nat, k: nat)
    ensures
        loop_steps(s, duration, delta, k + 1) == loop_step(loop_steps(s, duration, delta, k), duration, delta),
{
    lemma_loop_steps_split(s, duration, delta, k, 1);
    assert(loop_steps(loop_steps(s, duration, delta, k), duration, delta, 1) == loop_steps(
        loop_step(loop_steps(s, duration, delta, k), duration, delta),
        duration,
        delta,
        0,
    ));
}

proof fn lemma_loop_steps_finish(s: DriverState, duration: nat, delta: nat)
    requires
        state_valid(s, duration),
        !s.fused,
        delta > 0 || duration == 0,
    ensures
        loop_steps(s, duration, delta, steps_to_finish((duration - s.elapsed) as nat, delta)).fused,
    decreases duration - s.elapsed,
{
    let remaining = (duration - s.elapsed) as nat;
    if delta == 0 || remaining <= delta {
        assert(loop_steps(s, duration, delta, 1) == loop_steps(loop_step(s, duration, delta), duration, delta, 0));
    } else {
        let next = loop_step(s, duration, delta);
        assert((duration - next.elapsed) as nat == (remaining - delta) as nat);
        lemma_loop_steps_finish(next, duration, delta);
    }
}

proof fn lemma_loop_steps_same_restart(x: DriverState, y: DriverState, duration: nat, delta: nat, k: nat)
    requires
        restarted(x) == restarted(y),
    ensures
        restarted(loop_steps(x, duration, delta, k)) == restarted(loop_steps(y, duration, delta, k)),
    decreases k,
{
    if k > 0 {
        lemma_loop_steps_same_restart(
            loop_step(x, duration, delta),
            loop_step(y, duration, delta),
            duration,
            delta,
            (k - 1) as nat,
        );
    }
}

/// A looping driver that adds the same delta on every step yields a periodic
/// sequence whose period is the number of steps its tween takes to finish,
/// and it never runs out.
pub proof fn lemma_loop_periodic<T: Tween>(tween: T, delta: nat, k: nat)
    requires
        delta > 0 || tween.spec_duration() == 0,
    ensures
        loop_output(tween, delta, k + steps_to_finish(tween.spec_duration(), delta)) == loop_output(
            tween,
            delta,
            k,
        ),
        loop_output(tween, delta, k) is Some,
{
    let d = tween.spec_duration();
    let n = steps_to_finish(d, delta);
    lemma_loop_steps_finish(fresh(), d, delta);
    lemma_loop_steps_split(fresh(), d, delta, n, k);
    assert(n + k == k + n);
    lemma_loop_steps_same_restart(loop_steps(fresh(), d, delta, n), fresh(), d, delta, k);
}

/// Drives a tween with a delta given on each call, and starts it over each
/// time it ends; it never runs out.
pub struct Looper<T: Tween> {
    tweener: Tweener<T>,
}

impl<T: Tween> Looper<T> {
    /// The driver that this one starts over.
    pub closed spec fn inner(&self) -> Tweener<T> {
        self.tweener
    }

    /// Loops `tweener`.
    pub fn new(tweener: Tweener<T>) -> (r: Self)
        ensures
            r.inner() == tweener,
    {
        Looper { tweener }
    }

    /// Advances by `delta` ticks, first starting over at tick zero if the
    /// last run ended, and yields the value there.
    pub fn update(&mut self, delta: u64) -> (r: Option<i64>)
        ensures
            final(self).inner().spec_tween() == old(self).inner().spec_tween(),
            final(self).inner()@ == loop_step(
                old(self).inner()@,
                old(self).inner().spec_tween().spec_duration(),
                delta as nat,
            ),
            r == emitted(old(self).inner().spec_tween(), restarted(old(self).inner()@), delta as nat),
            r is Some,
    {
        if self.tweener.fused {
            self.tweener.restart();
        }
        self.tweener.update(delta)
    }
}

/// Drives a tween by the same delta on every step, and starts it over each
/// time it ends; it never runs out.
pub struct FixedLooper<T: Tween> {
    tweener: FixedTweener<T>,
}

impl<T: Tween> FixedLooper<T> {
    /// The driver that this one starts over.
    pub closed spec fn inner(&self) -> FixedTweener<T> {
        self.tweener
    }

    /// Loops `tweener`.
    pub fn new(tweener: FixedTweener<T>) -> (r: Self)
        ensures
            r.inner() == tweener,
    {
        FixedLooper { tweener }
    }

    /// Advances by the fixed delta, first starting over at tick zero if the
    /// last run ended, and yields the value there.
    pub fn next(&mut self) -> (r: Option<i64>)
        ensures
            final(self).inner().spec_tween() == old(self).inner().spec_tween(),
            final(self).inner().spec_delta() == old(self).inner().spec_delta(),
            final(self).inner()@ == loop_step(
                old(self).inner()@,
                old(self).inner().spec_tween().spec_duration(),
                old(self).inner().spec_delta() as nat,
            ),
            r == emitted(
                old(self).inner().spec_tween(),
                restarted(old(self).inner()@),
                old(self).inner().spec_delta() as nat,
            ),
            r is Some,
    {
        if self.tweener.fused {
            self.tweener.restart();
        }
        self.tweener.next()
    }
}

} // verus!
