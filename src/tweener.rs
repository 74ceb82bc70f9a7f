//! Drivers that advance a tween through time, and the model of one step.
//!
//! A driver counts the ticks that have passed and holds a one-shot fuse. Each
//! step adds some ticks; the step on which the count meets or passes the
//! duration yields the curve's final value and trips the fuse, and every step
//! after that yields nothing.
use crate::tween::{SizedTween, Tween};
use vstd::prelude::*;

pub mod chain;
pub mod looper;
pub mod oscillator;

pub use chain::Chain;
pub use looper::{FixedLooper, Looper};
pub use oscillator::{FixedOscillator, OscillationDirection, Oscillator};

verus! {

/// Where a driver stands: the ticks it has counted, and whether its fuse has
/// tripped.
pub struct DriverState {
    pub elapsed: nat,
    pub fused: bool,
}

/// The state of a driver that has not run yet.
pub open spec fn fresh() -> DriverState {
    DriverState { elapsed: 0, fused: false }
}

/// A state that a driver over a curve of `duration` ticks can be in: the count
/// never passes the duration, and a tripped fuse stands at the duration.
pub open spec fn state_valid(s: DriverState, duration: nat) -> bool {
    &&& s.elapsed <= duration
    &&& s.fused ==> s.elapsed == duration
}

/// The state after a step of `delta` ticks over a curve of `duration` ticks.
pub open spec fn advance(s: DriverState, duration: nat, delta: nat) -> DriverState {
    if s.fused {
        s
    } else if s.elapsed + delta >= duration {
        DriverState { elapsed: duration, fused: true }
    } else {
        DriverState { elapsed: s.elapsed + delta, fused: false }
    }
}

/// What a step of `delta` ticks from `s` yields: nothing once the fuse has
/// tripped, the final value on the step that reaches the duration, and the
/// curve's value at the new count before that.
pub open spec fn emitted<T: Tween>(tween: T, s: DriverState, delta: nat) -> Option<i64> {
    if s.fused {
        None
    } else if s.elapsed + delta >= tween.spec_duration() {
        Some(tween.spec_final_value())
    } else {
        Some(tween.spec_run(s.elapsed + delta))
    }
}

/// What a driver yields over a run of steps with the given deltas.
pub open spec fn drive<T: Tween>(tween: T, s: DriverState, deltas: Seq<nat>) -> Seq<Option<i64>>
    decreases deltas.len(),
{
    if deltas.len() == 0 {
        seq![]
    } else {
        seq![emitted(tween, s, deltas[0])] + drive(
            tween,
            advance(s, tween.spec_duration(), deltas[0]),
            deltas.drop_first(),
        )
    }
}

/// A driver whose fuse has tripped yields nothing, whatever the deltas.
pub proof fn lemma_fused_yields_nothing<T: Tween>(tween: T, s: DriverState, deltas: Seq<nat>)
    requires
        s.fused,
    ensures
        drive(tween, s, deltas).len() == deltas.len(),
        forall|j: int| 0 <= j < deltas.len() ==> #[trigger] drive(tween, s, deltas)[j] is None,
    decreases deltas.len(),
{
    if deltas.len() > 0 {
        lemma_fused_yields_nothing(tween, s, deltas.drop_first());
    }
}

/// Once a step has signalled completion, every later step yields nothing,
/// however many steps follow and whatever their deltas.
pub proof fn lemma_exhausted_forever<T: Tween>(tween: T, s: DriverState, deltas: Seq<nat>)
    requires
        deltas.len() > 0,
        advance(s, tween.spec_duration(), deltas[0]).fused,
    ensures
        drive(tween, s, deltas).len() == deltas.len(),
        forall|j: int| 1 <= j < deltas.len() ==> #[trigger] drive(tween, s, deltas)[j] is None,
{
    let next = advance(s, tween.spec_duration(), deltas[0]);
    lemma_fused_yields_nothing(tween, next, deltas.drop_first());
    assert forall|j: int| 1 <= j < deltas.len() implies #[trigger] drive(tween, s, deltas)[j] is None by {
        assert(drive(tween, s, deltas)[j] == drive(tween, next, deltas.drop_first())[j - 1]);
    }
}

/// The step on which the count first meets or passes the duration yields the
/// curve's final value, not the curve evaluated at that count.
pub proof fn lemma_completing_step_yields_final<T: Tween>(tween: T, s: DriverState, delta: nat)
    requires
        !s.fused,
        s.elapsed + delta >= tween.spec_duration(),
    ensures
        emitted(tween, s, delta) == Some(tween.spec_final_value()),
        advance(s, tween.spec_duration(), delta) == (DriverState {
            elapsed: tween.spec_duration(),
            fused: true,
        }),
{
}

/// A step far past the end yields the same value, and leaves the same state,
/// as a step of exactly the ticks that remain.
pub proof fn lemma_overshoot_invariance<T: Tween>(tween: T, s: DriverState, delta: nat)
    requires
        state_valid(s, tween.spec_duration()),
        !s.fused,
        s.elapsed + delta >= tween.spec_duration(),
    ensures
        emitted(tween, s, delta) == emitted(tween, s, (tween.spec_duration() - s.elapsed) as nat),
        advance(s, tween.spec_duration(), delta) == advance(
            s,
            tween.spec_duration(),
            (tween.spec_duration() - s.elapsed) as nat,
        ),
{
}

/// A step keeps a driver's state valid.
pub proof fn lemma_advance_valid(s: DriverState, duration: nat, delta: nat)
    requires
        state_valid(s, duration),
    ensures
        state_valid(advance(s, duration, delta), duration),
{
}

/// The number of steps of `delta` ticks that a driver takes to cover
/// `remaining` ticks; the step that reaches the end counts.
pub open spec fn steps_to_finish(remaining: nat, delta: nat) -> nat
    decreases remaining,
{
    if delta == 0 || remaining <= delta {
        1
    } else {
        1 + steps_to_finish((remaining - delta) as nat, delta)
    }
}

/// A run of `k` steps of `delta` ticks each.
pub open spec fn repeated(delta: nat, k: nat) -> Seq<nat> {
    Seq::new(k, |_i: int| delta)
}

/// A driver that adds the same `delta` on each step yields exactly as many
/// values as it takes steps to reach the end, the last of them the final
/// value, and nothing after them.
pub proof fn lemma_fixed_run_length<T: Tween>(tween: T, s: DriverState, delta: nat, k: nat)
    requires
        state_valid(s, tween.spec_duration()),
        !s.fused,
        delta > 0 || tween.spec_duration() == 0,
    ensures
        ({
            let n = steps_to_finish((tween.spec_duration() - s.elapsed) as nat, delta);
            let out = drive(tween, s, repeated(delta, k));
            &&& out.len() == k
            &&& forall|j: int| 0 <= j < k ==> (#[trigger] out[j] is Some <==> j < n)
            &&& n <= k ==> out[n - 1] == Some(tween.spec_final_value())
        }),
    decreases k,
{
    let d = tween.spec_duration();
    let n = steps_to_finish((d - s.elapsed) as nat, delta);
    let out = drive(tween, s, repeated(delta, k));
    if k > 0 {
        let next = advance(s, d, delta);
        assert(repeated(delta, k).drop_first() =~= repeated(delta, (k - 1) as nat));
        let rest = drive(tween, next, repeated(delta, (k - 1) as nat));
        assert(out == seq![emitted(tween, s, delta)] + rest);
        if next.fused {
            lemma_fused_yields_nothing(tween, next, repeated(delta, (k - 1) as nat));
            assert forall|j: int| 0 <= j < k implies (#[trigger] out[j] is Some <==> j < n) by {
                if j > 0 {
                    assert(out[j] == rest[j - 1]);
                }
            }
        } else {
            assert((d - next.elapsed) as nat == ((d - s.elapsed) as nat - delta) as nat);
            lemma_fixed_run_length(tween, next, delta, (k - 1) as nat);
            assert forall|j: int| 0 <= j < k implies (#[trigger] out[j] is Some <==> j < n) by {
                if j > 0 {
                    assert(out[j] == rest[j - 1]);
                }
            }
            if n <= k {
                assert(out[n - 1] == rest[n - 2]);
            }
        }
    }
}

/// Drives a tween with a delta given on each call.
///
/// A delta that carries the count past the duration yields the final value
/// once; after that every call yields `None`.
pub struct Tweener<T: Tween> {
    tween: T,
    last_time: u64,
    fused: bool,
}

impl<T: Tween> View for Tweener<T> {
    type V = DriverState;

    closed spec fn view(&self) -> DriverState {
        DriverState { elapsed: self.last_time as nat, fused: self.fused }
    }
}

impl<T: Tween> Tweener<T> {
    /// The tween that this driver runs.
    pub closed spec fn spec_tween(&self) -> T {
        self.tween
    }

    /// The count stays within the tween, and a tripped fuse stands at its end.
    pub open spec fn wf(&self) -> bool {
        state_valid(self@, self.spec_tween().spec_duration())
    }

    /// Takes `tween` and starts at tick zero.
    pub fn new(tween: T) -> (r: Self)
        ensures
            r.spec_tween() == tween,
            r@ == fresh(),
            r.wf(),
    {
        Tweener { tween, last_time: 0, fused: false }
    }

    /// Advances the count by `delta` ticks and yields the value there: the
    /// final value on the call that reaches the end, `None` on every call
    /// after it.
    pub fn update(&mut self, delta: u64) -> (r: Option<i64>)
        ensures
            final(self).spec_tween() == old(self).spec_tween(),
            final(self)@ == advance(old(self)@, old(self).spec_tween().spec_duration(), delta as nat),
            r == emitted(old(self).spec_tween(), old(self)@, delta as nat),
            old(self).wf() ==> final(self).wf(),
    {
        if self.fused {
            return None;
        }
        let duration = self.tween.duration();
        if self.last_time >= duration || delta >= duration - self.last_time {
            self.fused = true;
            self.last_time = duration;
            Some(self.tween.final_value())
        } else {
            self.last_time = self.last_time + delta;
            Some(self.tween.run(self.last_time))
        }
    }

    /// Puts the driver back at tick zero with its fuse whole.
    fn restart(&mut self)
        ensures
            final(self).spec_tween() == old(self).spec_tween(),
            final(self)@ == fresh(),
            final(self).wf(),
    {
        self.last_time = 0;
        self.fused = false;
    }

    /// Turns this driver into one that starts over each time it ends.
    pub fn looper(self) -> (r: Looper<T>)
        ensures
            r.inner() == self,
    {
        Looper::new(self)
    }
}

/// Drives a tween by the same delta on every step.
///
/// It yields the values of a finite sequence, one per call of `next`, and
/// `None` once that sequence is spent.
pub struct FixedTweener<T: Tween> {
    tween: T,
    last_time: u64,
    delta: u64,
    fused: bool,
}

impl<T: Tween> View for FixedTweener<T> {
    type V = DriverState;

    closed spec fn view(&self) -> DriverState {
        DriverState { elapsed: self.last_time as nat, fused: self.fused }
    }
}

impl<T: Tween> FixedTweener<T> {
    /// The tween that this driver runs.
    pub closed spec fn spec_tween(&self) -> T {
        self.tween
    }

    /// The ticks that each step adds.
    pub closed spec fn spec_delta(&self) -> u64 {
        self.delta
    }

    /// The count stays within the tween, and a tripped fuse stands at its end.
    pub open spec fn wf(&self) -> bool {
        state_valid(self@, self.spec_tween().spec_duration())
    }

    /// Takes `tween` and the ticks that each step adds, and starts at tick zero.
    pub fn new(tween: T, delta: u64) -> (r: Self)
        ensures
            r.spec_tween() == tween,
            r.spec_delta() == delta,
            r@ == fresh(),
            r.wf(),
    {
        FixedTweener { tween, last_time: 0, delta, fused: false }
    }

    /// The tween that this driver runs.
    pub fn tween(&self) -> (r: &T)
        ensures
            *r == self.spec_tween(),
    {
        &self.tween
    }

    /// The ticks counted so far.
    pub fn current_time(&self) -> (r: u64)
        ensures
            r == self@.elapsed,
    {
        self.last_time
    }

    /// Advances the count by the fixed delta and yields the value there: the
    /// final value on the step that reaches the end, `None` on every step
    /// after it.
    pub fn next(&mut self) -> (r: Option<i64>)
        ensures
            final(self).spec_tween() == old(self).spec_tween(),
            final(self).spec_delta() == old(self).spec_delta(),
            final(self)@ == advance(
                old(self)@,
                old(self).spec_tween().spec_duration(),
                old(self).spec_delta() as nat,
            ),
            r == emitted(old(self).spec_tween(), old(self)@, old(self).spec_delta() as nat),
            old(self).wf() ==> final(self).wf(),
    {
        if self.fused {
            return None;
        }
        let duration = self.tween.duration();
        if self.last_time >= duration || self.delta >= duration - self.last_time {
            self.fused = true;
            self.last_time = duration;
            Some(self.tween.final_value())
        } else {
            self.last_time = self.last_time + self.delta;
            Some(self.tween.run(self.last_time))
        }
    }

    /// Puts the driver back at tick zero with its fuse whole.
    fn restart(&mut self)
        ensures
            final(self).spec_tween() == old(self).spec_tween(),
            final(self).spec_delta() == old(self).spec_delta(),
            final(self)@ == fresh(),
            final(self).wf(),
    {
        self.last_time = 0;
        self.fused = false;
    }

    /// Turns this driver into one that starts over each time it ends.
    pub fn looper(self) -> (r: FixedLooper<T>)
        ensures
            r.inner() == self,
    {
        FixedLooper::new(self)
    }

    /// Oscillates between this driver, rising, and `other`, falling. Either
    /// one whose fuse has tripped starts over at tick zero.
    pub fn oscillator_with(self, other: Self) -> (r: FixedOscillator<T>)
        ensures
            r.direction_spec() == OscillationDirection::Rising,
            r.rising().spec_tween() == self.spec_tween(),
            r.rising().spec_delta() == self.spec_delta(),
            r.rising()@ == looper::restarted(self@),
            r.falling().spec_tween() == other.spec_tween(),
            r.falling().spec_delta() == other.spec_delta(),
            r.falling()@ == looper::restarted(other@),
    {
        FixedOscillator::with_falling(self, other)
    }
}

impl<T: SizedTween> FixedTweener<T> {
    /// Oscillates between this driver, rising, and the same kind of curve
    /// run back from its final value to its initial value, falling, with the
    /// same duration and delta. A tripped fuse starts over at tick zero.
    pub fn oscillator(self) -> (r: FixedOscillator<T>)
        ensures
            r.direction_spec() == OscillationDirection::Rising,
            r.rising().spec_tween() == self.spec_tween(),
            r.rising().spec_delta() == self.spec_delta(),
            r.rising()@ == looper::restarted(self@),
            r.falling().spec_tween() == T::spec_new(
                self.spec_tween().spec_final_value(),
                self.spec_tween().spec_initial_value(),
                self.spec_tween().spec_duration() as u64,
            ),
            r.falling().spec_delta() == self.spec_delta(),
            r.falling()@ == fresh(),
    {
        FixedOscillator::new(self)
    }
}

} // verus!
