//! Drivers that swing back and forth between a rising and a falling tween.
use super::looper::restarted;
use super::{advance, emitted, fresh, DriverState, FixedTweener, Tweener};
use crate::tween::{SizedTween, Tween};
use vstd::prelude::*;

verus! {

/// Which of its two drivers an oscillator is running.
#[derive(Debug, Clone, Copy, PartialEq, Eq, Structural)]
pub enum OscillationDirection {
    Rising,
    Falling,
}

/// The other direction.
pub open spec fn flipped(d: OscillationDirection) -> OscillationDirection {
    match d {
        OscillationDirection::Rising => OscillationDirection::Falling,
        OscillationDirection::Falling => OscillationDirection::Rising,
    }
}

/// Whether a step of `delta` ticks from `s` (started over if spent) ends the
/// curve.
pub open spec fn completes(s: DriverState, duration: nat, delta: nat) -> bool {
    advance(restarted(s), duration, delta).fused
}

/// The state of the active driver after a step: a driver that has just ended
/// is put back at tick zero, ready for its next turn.
pub open spec fn swing_step(s: DriverState, duration: nat, delta: nat) -> DriverState {
    restarted(advance(restarted(s), duration, delta))
}

/// Swings between a rising and a falling driver that are each given a delta
/// per call. It starts rising, and turns on the very step on which the active
/// driver ends; it never runs out.
pub struct Oscillator<T: Tween> {
    rising: Tweener<T>,
    falling: Tweener<T>,
    direction: OscillationDirection,
}

impl<T: Tween> Oscillator<T> {
    /// The driver that runs while rising.
    pub closed spec fn rising(&self) -> Tweener<T> {
        self.rising
    }

    /// The driver that runs while falling.
    pub closed spec fn falling(&self) -> Tweener<T> {
        self.falling
    }

    /// The direction of the next step.
    pub closed spec fn direction_spec(&self) -> OscillationDirection {
        self.direction
    }

    /// Oscillates between `rising` and `falling`. Either one whose fuse has
    /// tripped starts over at tick zero.
    pub fn with_falling(rising: Tweener<T>, falling: Tweener<T>) -> (r: Self)
        ensures
            r.direction_spec() == OscillationDirection::Rising,
            r.rising().spec_tween() == rising.spec_tween(),
            r.rising()@ == restarted(rising@),
            r.falling().spec_tween() == falling.spec_tween(),
            r.falling()@ == restarted(falling@),
    {
        let mut rising = rising;
        let mut falling = falling;
        if rising.fused {
            rising.restart();
        }
        if falling.fused {
            falling.restart();
        }
        Oscillator { rising, falling, direction: OscillationDirection::Rising }
    }

    /// The driver that the next step runs.
    pub fn direction(&self) -> (r: OscillationDirection)
        ensures
            r == self.direction_spec(),
    {
        self.direction
    }

    /// Runs the active driver for `delta` ticks and yields its value. On the
    /// step on which it ends, it yields the final value, is put back at tick
    /// zero, and the direction turns.
    pub fn update(&mut self, delta: u64) -> (r: Option<i64>)
        ensures
            r is Some,
            final(self).rising().spec_tween() == old(self).rising().spec_tween(),
            final(self).falling().spec_tween() == old(self).falling().spec_tween(),
            old(self).direction_spec() == OscillationDirection::Rising ==> {
                let dur = old(self).rising().spec_tween().spec_duration();
                &&& r == emitted(old(self).rising().spec_tween(), restarted(old(self).rising()@), delta as nat)
                &&& final(self).rising()@ == swing_step(old(self).rising()@, dur, delta as nat)
                &&& final(self).falling()@ == old(self).falling()@
                &&& final(self).direction_spec() == if completes(old(self).rising()@, dur, delta as nat) {
                    OscillationDirection::Falling
                } else {
                    OscillationDirection::Rising
                }
            },
            old(self).direction_spec() == OscillationDirection::Falling ==> {
                let dur = old(self).falling().spec_tween().spec_duration();
                &&& r == emitted(old(self).falling().spec_tween(), restarted(old(self).falling()@), delta as nat)
                &&& final(self).falling()@ == swing_step(old(self).falling()@, dur, delta as nat)
                &&& final(self).rising()@ == old(self).rising()@
                &&& final(self).direction_spec() == if completes(old(self).falling()@, dur, delta as nat) {
                    OscillationDirection::Rising
                } else {
                    OscillationDirection::Falling
                }
            },
    {
        match self.direction {
            OscillationDirection::Rising => {
                if self.rising.fused {
                    self.rising.restart();
                }
                let out = self.rising.update(delta);
                if self.rising.fused {
                    self.rising.restart();
                    self.direction = OscillationDirection::Falling;
                }
                out
            },
            OscillationDirection::Falling => {
                if self.falling.fused {
                    self.falling.restart();
                }
                let out = self.falling.update(delta);
                if self.falling.fused {
                    self.falling.restart();
                    self.direction = OscillationDirection::Rising;
                }
                out
            },
        }
    }
}

impl<T: SizedTween> Oscillator<T> {
    /// Oscillates between `rising` and the same kind of curve run back from
    /// its final value to its initial value over the same duration. A tripped
    /// fuse starts over at tick zero.
    pub fn new(rising: Tweener<T>) -> (r: Self)
        ensures
            r.direction_spec() == OscillationDirection::Rising,
            r.rising().spec_tween() == rising.spec_tween(),
            r.rising()@ == restarted(rising@),
            r.falling().spec_tween() == T::spec_new(
                rising.spec_tween().spec_final_value(),
                rising.spec_tween().spec_initial_value(),
                rising.spec_tween().spec_duration() as u64,
            ),
            r.falling()@ == fresh(),
    {
        let back = T::new(rising.tween.final_value(), rising.tween.initial_value(), rising.tween.duration());
        Oscillator::with_falling(rising, Tweener::new(back))
    }
}

/// Swings between a rising and a falling driver that each add a fixed delta
/// per step. It starts rising, and turns on the very step on which the active
/// driver ends; it never runs out.
pub struct FixedOscillator<T: Tween> {
    rising: FixedTweener<T>,
    falling: FixedTweener<T>,
    direction: OscillationDirection,
}

impl<T: Tween> FixedOscillator<T> {
    /// The driver that runs while rising.
    pub closed spec fn rising(&self) -> FixedTweener<T> {
        self.rising
    }

    /// The driver that runs while falling.
    pub closed spec fn falling(&self) -> FixedTweener<T> {
        self.falling
    }

    /// The direction of the next step.
    pub closed spec fn direction_spec(&self) -> OscillationDirection {
        self.direction
    }

    /// Oscillates between `rising` and `falling`. Either one whose fuse has
    /// tripped starts over at tick zero.
    pub fn with_falling(rising: FixedTweener<T>, falling: FixedTweener<T>) -> (r: Self)
        ensures
            r.direction_spec() == OscillationDirection::Rising,
            r.rising().spec_tween() == rising.spec_tween(),
            r.rising().spec_delta() == rising.spec_delta(),
            r.rising()@ == restarted(rising@),
            r.falling().spec_tween() == falling.spec_tween(),
            r.falling().spec_delta() == falling.spec_delta(),
            r.falling()@ == restarted(falling@),
    {
        let mut rising = rising;
        let mut falling = falling;
        if rising.fused {
            rising.restart();
        }
        if falling.fused {
            falling.restart();
        }
        FixedOscillator { rising, falling, direction: OscillationDirection::Rising }
    }

    /// The driver that the next step runs.
    pub fn direction(&self) -> (r: OscillationDirection)
        ensures
            r == self.direction_spec(),
    {
        self.direction
    }

    /// Runs the active driver for one step and yields its value. On the step
    /// on which it ends, it yields the final value, is put back at tick zero,
    /// and the direction turns.
    pub fn next(&mut self) -> (r: Option<i64>)
        ensures
            r is Some,
            final(self).rising().spec_tween() == old(self).rising().spec_tween(),
            final(self).rising().spec_delta() == old(self).rising().spec_delta(),
            final(self).falling().spec_tween() == old(self).falling().spec_tween(),
            final(self).falling().spec_delta() == old(self).falling().spec_delta(),
            old(self).direction_spec() == OscillationDirection::Rising ==> {
                let dur = old(self).rising().spec_tween().spec_duration();
                let delta = old(self).rising().spec_delta() as nat;
                &&& r == emitted(old(self).rising().spec_tween(), restarted(old(self).rising()@), delta)
                &&& final(self).rising()@ == swing_step(old(self).rising()@, dur, delta)
                &&& final(self).falling()@ == old(self).falling()@
                &&& final(self).direction_spec() == if completes(old(self).rising()@, dur, delta) {
                    OscillationDirection::Falling
                } else {
                    OscillationDirection::Rising
                }
            },
            old(self).direction_spec() == OscillationDirection::Falling ==> {
                let dur = old(self).falling().spec_tween().spec_duration();
                let delta = old(self).falling().spec_delta() as nat;
                &&& r == emitted(old(self).falling().spec_tween(), restarted(old(self).falling()@), delta)
                &&& final(self).falling()@ == swing_step(old(self).falling()@, dur, delta)
                &&& final(self).rising()@ == old(self).rising()@
                &&& final(self).direction_spec() == if completes(old(self).falling()@, dur, delta) {
                    OscillationDirection::Rising
                } else {
                    OscillationDirection::Falling
                }
            },
    {
        match self.direction {
            OscillationDirection::Rising => {
                if self.rising.fused {
                    self.rising.restart();
                }
                let out = self.rising.next();
                if self.rising.fused {
                    self.rising.restart();
                    self.direction = OscillationDirection::Falling;
                }
                out
            },
            OscillationDirection::Falling => {
                if self.falling.fused {
                    self.falling.restart();
                }
                let out = self.falling.next();
                if self.falling.fused {
                    self.falling.restart();
                    self.direction = OscillationDirection::Rising;
                }
                out
            },
        }
    }
}

impl<T: SizedTween> FixedOscillator<T> {
    /// Oscillates between `rising` and the same kind of curve run back from
    /// its final value to its initial value over the same duration, with the
    /// same delta. A tripped fuse starts over at tick zero.
    pub fn new(rising: FixedTweener<T>) -> (r: Self)
        ensures
            r.direction_spec() == OscillationDirection::Rising,
            r.rising().spec_tween() == rising.spec_tween(),
            r.rising().spec_delta() == rising.spec_delta(),
            r.rising()@ == restarted(rising@),
            r.falling().spec_tween() == T::spec_new(
                rising.spec_tween().spec_final_value(),
                rising.spec_tween().spec_initial_value(),
                rising.spec_tween().spec_duration() as u64,
            ),
            r.falling().spec_delta() == rising.spec_delta(),
            r.falling()@ == fresh(),
    {
        let back = T::new(rising.tween.final_value(), rising.tween.initial_value(), rising.tween.duration());
        let delta = rising.delta;
        FixedOscillator::with_falling(rising, FixedTweener::new(back, delta))
    }
}

} // verus!
