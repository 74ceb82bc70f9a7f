use tween::tweener::{FixedOscillator, FixedTweener, OscillationDirection, Oscillator, Tweener};
use tween::Linear;

#[test]
fn tweener() {
    let mut tweener = FixedTweener::new(Linear::new(0, 100, 10), 1);
    let mut values: Vec<i64> = Vec::new();
    while let Some(v) = tweener.next() {
        values.push(v);
    }

    assert_eq!(*values, [10, 20, 30, 40, 50, 60, 70, 80, 90, 100]);
}

#[test]
fn fixed_tweener_loop() {
    let mut looper = FixedTweener::new(Linear::new(0, 2, 2), 1).looper();

    assert_eq!(looper.next().unwrap(), 1);
    assert_eq!(looper.next().unwrap(), 2);
    assert_eq!(looper.next().unwrap(), 1);
    assert_eq!(looper.next().unwrap(), 2);
}

#[test]
fn tweener_loop() {
    let mut looper = Tweener::new(Linear::new(0, 2, 2)).looper();

    assert_eq!(looper.update(1).unwrap(), 1);
    assert_eq!(looper.update(1).unwrap(), 2);
    assert_eq!(looper.update(1).unwrap(), 1);
    assert_eq!(looper.update(1).unwrap(), 2);
}

#[test]
fn tweener_oscillator() {
    let mut oscillator = Oscillator::new(Tweener::new(Linear::new(0, 2, 2)));

    assert_eq!(oscillator.direction(), OscillationDirection::Rising);
    assert_eq!(oscillator.update(1).unwrap(), 1);
    assert_eq!(oscillator.direction(), OscillationDirection::Rising);
    assert_eq!(oscillator.update(1).unwrap(), 2);
    assert_eq!(oscillator.direction(), OscillationDirection::Falling);
    assert_eq!(oscillator.update(1).unwrap(), 1);
    assert_eq!(oscillator.direction(), OscillationDirection::Falling);
    assert_eq!(oscillator.update(1).unwrap(), 0);
    assert_eq!(oscillator.direction(), OscillationDirection::Rising);
    assert_eq!(oscillator.update(1).unwrap(), 1);
    assert_eq!(oscillator.direction(), OscillationDirection::Rising);
    assert_eq!(oscillator.update(1).unwrap(), 2);
    assert_eq!(oscillator.direction(), OscillationDirection::Falling);
}

#[test]
fn fixed_tweener_oscillator() {
    let mut oscillator: FixedOscillator<Linear> =
        FixedOscillator::new(FixedTweener::new(Linear::new(0, 2, 2), 1));

    assert_eq!(oscillator.direction(), OscillationDirection::Rising);
    assert_eq!(oscillator.next().unwrap(), 1);
    assert_eq!(oscillator.direction(), OscillationDirection::Rising);
    assert_eq!(oscillator.next().unwrap(), 2);
    assert_eq!(oscillator.direction(), OscillationDirection::Falling);
    assert_eq!(oscillator.next().unwrap(), 1);
    assert_eq!(oscillator.direction(), OscillationDirection::Falling);
    assert_eq!(oscillator.next().unwrap(), 0);
    assert_eq!(oscillator.direction(), OscillationDirection::Rising);
    assert_eq!(oscillator.next().unwrap(), 1);
    assert_eq!(oscillator.direction(), OscillationDirection::Rising);
    assert_eq!(oscillator.next().unwrap(), 2);
    assert_eq!(oscillator.direction(), OscillationDirection::Falling);
}
