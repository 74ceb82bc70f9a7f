use tween::tweener::{Chain, FixedTweener, OscillationDirection, Oscillator, Tweener};
use tween::{Linear, SizedTween, Tween};

#[test]
fn variable_delta_clamps_and_fuses() {
    let mut t = Tweener::new(Linear::new(0, 2, 2));
    assert_eq!(t.update(1), Some(1));
    assert_eq!(t.update(2), Some(2));
    assert_eq!(t.update(100), None);
}

#[test]
fn variable_delta_documented_run() {
    let mut t = Tweener::new(Linear::new(0, 10, 10));
    assert_eq!(t.update(1), Some(1));
    assert_eq!(t.update(2), Some(3));
    assert_eq!(t.update(100), Some(10));
    assert_eq!(t.update(100), None);
}

#[test]
fn exhausted_driver_stays_exhausted() {
    let mut t = Tweener::new(Linear::new(5, 9, 3));
    assert_eq!(t.update(3), Some(9));
    for delta in [0u64, 1, 2, 1000, u64::MAX] {
        assert_eq!(t.update(delta), None);
    }
    let mut f = FixedTweener::new(Linear::new(0, 4, 4), 2);
    assert_eq!(f.next(), Some(2));
    assert_eq!(f.next(), Some(4));
    for _ in 0..5 {
        assert_eq!(f.next(), None);
    }
}

#[test]
fn completing_step_yields_final_value() {
    // 7 * 2 / 3 rounds to 4, but the step that reaches the end yields 7 itself.
    let mut f = FixedTweener::new(Linear::new(0, 7, 3), 2);
    assert_eq!(f.next(), Some(4));
    assert_eq!(f.next(), Some(7));
    assert_eq!(f.current_time(), 3);
    assert_eq!(f.next(), None);
}

#[test]
fn overshoot_matches_exact_remainder() {
    let mut huge = Tweener::new(Linear::new(-3, 12, 6));
    let mut exact = Tweener::new(Linear::new(-3, 12, 6));
    assert_eq!(huge.update(2), exact.update(2));
    assert_eq!(huge.update(u64::MAX), exact.update(4));
    assert_eq!(huge.update(1), None);
    assert_eq!(exact.update(1), None);
}

#[test]
fn zero_duration_completes_at_once() {
    let mut t = Tweener::new(Linear::new(1, 8, 0));
    assert_eq!(t.update(0), Some(8));
    assert_eq!(t.update(0), None);
    let mut f = FixedTweener::new(Linear::new(1, 8, 0), 0);
    assert_eq!(f.next(), Some(8));
    assert_eq!(f.next(), None);
}

#[test]
fn linear_values() {
    let up = Linear::new(0, 100, 10);
    assert_eq!(up.run(3), 30);
    assert_eq!(up.duration(), 10);
    assert_eq!(up.final_value(), 100);
    assert_eq!(up.initial_value(), 0);
    // Rounds toward the start value in both directions.
    let down = Linear::new(10, 0, 4);
    assert_eq!(down.run(1), 8);
    assert_eq!(down.run(3), 3);
    let wide = Linear::new(i64::MIN, i64::MAX, u64::MAX);
    assert_eq!(wide.run(0), i64::MIN);
    assert_eq!(wide.run(u64::MAX - 1), i64::MAX - 1);
    let built = <Linear as SizedTween>::new(4, -4, 8);
    assert_eq!(built.run(2), 2);
}

#[test]
fn fixed_tweener_accessors() {
    let mut f = FixedTweener::new(Linear::new(0, 6, 6), 2);
    assert_eq!(f.current_time(), 0);
    assert_eq!(f.tween().final_value(), 6);
    assert_eq!(f.next(), Some(2));
    assert_eq!(f.current_time(), 2);
}

#[test]
fn looper_is_periodic() {
    // Three steps to finish a duration of 5 with a delta of 2.
    let mut looper = FixedTweener::new(Linear::new(0, 10, 5), 2).looper();
    let first: Vec<i64> = (0..3).map(|_| looper.next().unwrap()).collect();
    assert_eq!(first, vec![4, 8, 10]);
    for _ in 0..4 {
        let again: Vec<i64> = (0..3).map(|_| looper.next().unwrap()).collect();
        assert_eq!(again, first);
    }
}

#[test]
fn looper_restarts_a_spent_driver() {
    let mut t = Tweener::new(Linear::new(0, 2, 2));
    assert_eq!(t.update(5), Some(2));
    let mut looper = t.looper();
    assert_eq!(looper.update(1), Some(1));
}

#[test]
fn oscillator_turns_only_when_a_side_ends() {
    let mut o = Oscillator::new(Tweener::new(Linear::new(0, 3, 3)));
    let expected = [
        (1, OscillationDirection::Rising),
        (2, OscillationDirection::Rising),
        (3, OscillationDirection::Falling),
        (2, OscillationDirection::Falling),
        (1, OscillationDirection::Falling),
        (0, OscillationDirection::Rising),
    ];
    assert_eq!(o.direction(), OscillationDirection::Rising);
    for (value, direction) in expected {
        assert_eq!(o.update(1), Some(value));
        assert_eq!(o.direction(), direction);
    }
    // A huge delta ends a side in one step.
    assert_eq!(o.update(u64::MAX), Some(3));
    assert_eq!(o.direction(), OscillationDirection::Falling);
}

#[test]
fn fixed_oscillator_with_own_falling_side() {
    let rising = FixedTweener::new(Linear::new(0, 4, 2), 1);
    let falling = FixedTweener::new(Linear::new(10, 0, 1), 1);
    let mut o = rising.oscillator_with(falling);
    assert_eq!(o.next(), Some(2));
    assert_eq!(o.next(), Some(4));
    assert_eq!(o.direction(), OscillationDirection::Falling);
    assert_eq!(o.next(), Some(0));
    assert_eq!(o.direction(), OscillationDirection::Rising);
    assert_eq!(o.next(), Some(2));
}

#[test]
fn fixed_oscillator_from_method() {
    let mut spent = FixedTweener::new(Linear::new(0, 2, 2), 2);
    assert_eq!(spent.next(), Some(2));
    let mut o = spent.oscillator();
    assert_eq!(o.direction(), OscillationDirection::Rising);
    assert_eq!(o.next(), Some(2));
    assert_eq!(o.direction(), OscillationDirection::Falling);
    assert_eq!(o.next(), Some(0));
    assert_eq!(o.direction(), OscillationDirection::Rising);
}

#[test]
fn chain_of_two_lines() {
    let mut c = Chain::new(vec![Linear::new(0, 10, 5), Linear::new(10, 0, 5)]);
    assert_eq!(c.update(5), Some(10));
    assert_eq!(c.update(5), Some(0));
    assert_eq!(c.update(5), None);
}

#[test]
fn chain_carries_overshoot() {
    let members = vec![
        Linear::new(0, 10, 5),
        Linear::new(100, 200, 10),
        Linear::new(-50, 50, 4),
    ];
    let mut c = Chain::new(members.clone());
    // Within the first member.
    assert_eq!(c.update(2), Some(4));
    // Crosses the end of the first member: its final value, overshoot 1 kept.
    assert_eq!(c.update(4), Some(10));
    assert_eq!(c.update(1), Some(120));
    // Crosses the second member's end with an overshoot of 2.
    assert_eq!(c.update(10), Some(200));
    assert_eq!(c.update(1), Some(25));
    // Ends the chain.
    assert_eq!(c.update(1), Some(50));
    assert_eq!(c.update(1), None);

    // One delta over several members lands where steps member by member do.
    let mut whole = Chain::new(members.clone());
    let mut parts = Chain::new(members);
    assert_eq!(whole.update(15), Some(200));
    assert_eq!(parts.update(5), Some(10));
    assert_eq!(parts.update(10), Some(200));
    assert_eq!(whole.update(2), parts.update(2));
    assert_eq!(whole.update(9), Some(50));
    assert_eq!(parts.update(9), Some(50));
}

#[test]
fn chain_skips_empty_members() {
    let mut c = Chain::new(vec![Linear::new(0, 1, 0), Linear::new(5, 6, 0), Linear::new(0, 4, 4)]);
    assert_eq!(c.update(0), Some(6));
    assert_eq!(c.update(2), Some(2));
    assert_eq!(c.update(u64::MAX), Some(4));
    assert_eq!(c.update(0), None);
}

#[test]
fn fixed_run_yields_one_value_per_step_to_the_end() {
    // A duration of 5 with a delta of 2 takes three steps.
    let mut f = FixedTweener::new(Linear::new(0, 10, 5), 2);
    let mut values: Vec<i64> = Vec::new();
    while let Some(v) = f.next() {
        values.push(v);
    }
    assert_eq!(values, vec![4, 8, 10]);
    assert_eq!(f.current_time(), 5);
}
