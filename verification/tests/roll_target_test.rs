use aos_statshammer::processors::{RollTarget, RollTargetValue};

#[test]
fn roll_target_new() {
    let output: RollTarget<f32, f32> = RollTarget::new(3., 2., Some(2.));
    let expected: RollTarget<f32, f32> =
        RollTarget { initial: 3., modifier: 2., min_value: Some(2.) };
    assert_eq!(output, expected);
}

#[test]
fn roll_target_from() {
    let output = RollTarget::from(2.);
    let expected = RollTarget::<f32, f32> { initial: 2., modifier: 0., min_value: None };
    assert_eq!(output, expected);
}

#[test]
fn roll_target_from_integer() {
    let output = RollTarget::from(4);
    let expected = RollTarget::<u32, i32> { initial: 4, modifier: 0, min_value: None };
    assert_eq!(output, expected);
}

#[test]
fn roll_target_add_assign() {
    let mut a = RollTarget::new(2., 1., None);
    assert_eq!(a.modifier, 1.); // Precondition

    a += 2.;
    assert_eq!(a.modifier, 3.); // Check mutation
}

#[test]
fn roll_target_sub_assign() {
    let mut a: RollTarget<u32, i32> = RollTarget::new(4, 1, Some(2));
    a -= 3;
    assert_eq!(a, RollTarget { initial: 4, modifier: -2, min_value: Some(2) });
    a += 5;
    assert_eq!(a.modifier, 3);
}

#[test]
fn roll_target_clone_with_initial() {
    let target: RollTarget<u32, i32> = RollTarget::new(3, 1, Some(2));
    assert_eq!(
        target.clone_with_initial(6),
        RollTarget { initial: 6, modifier: 1, min_value: Some(2) }
    );
}

#[test]
fn roll_target_unmodified() {
    let unbounded: RollTarget<u32, i32> = RollTarget { initial: 3, modifier: 2, min_value: None };
    assert_eq!(unbounded.unmodified(), 3);
    let bounded: RollTarget<u32, i32> = RollTarget { initial: 3, modifier: 2, min_value: Some(4) };
    assert_eq!(bounded.unmodified(), 4);
}

#[test]
fn roll_target_modified() {
    let unbounded: RollTarget<u32, i32> = RollTarget { initial: 3, modifier: 2, min_value: None };
    assert_eq!(unbounded.modified(), 1);
    let bounded: RollTarget<u32, i32> = RollTarget { initial: 3, modifier: 2, min_value: Some(4) };
    assert_eq!(bounded.modified(), 4);
    let easier: RollTarget<u32, i32> = RollTarget { initial: 4, modifier: 1, min_value: Some(2) };
    assert_eq!(easier.modified(), 3);
    assert_eq!(easier.value(false), 3);
    assert_eq!(easier.value(true), 4);
    let harder: RollTarget<u32, i32> = RollTarget { initial: 4, modifier: -2, min_value: Some(2) };
    assert_eq!(harder.modified(), 6);
}

#[test]
fn roll_target_never_falls_below_its_floor() {
    for modifier in [0, 1, 2, 3, 4, 100, i32::MAX, -1, -100, i32::MIN] {
        let target: RollTarget<u32, i32> = RollTarget::new(4, modifier, Some(2));
        assert!(target.modified() >= 2);
        assert!(target.unmodified() >= 2);
    }
    let target: RollTarget<u32, i32> = RollTarget::new(4, i32::MAX, Some(2));
    assert_eq!(target.modified(), 2);
    let unbounded: RollTarget<u32, i32> = RollTarget::new(4, i32::MAX, None);
    assert_eq!(unbounded.modified(), 0);
    let exact: RollTarget<u32, i32> = RollTarget::new(4, 4, None);
    assert_eq!(exact.modified(), 0);
}

#[test]
fn roll_target_at_the_limits() {
    let target: RollTarget<u32, i32> = RollTarget::new(0x7FFF_FFFF, i32::MIN, Some(2));
    assert_eq!(target.modified(), 0xFFFF_FFFF);
    let high: RollTarget<u32, i32> = RollTarget::new(0xFFFF_FFFF, 0, Some(2));
    assert_eq!(high.modified(), 0xFFFF_FFFF);
    assert_eq!(high.unmodified(), 0xFFFF_FFFF);
}

#[test]
fn roll_target_is_met_by() {
    let target: RollTarget<u32, i32> = RollTarget::new(4, 1, Some(2));
    assert!(!target.is_met_by(2, false));
    assert!(target.is_met_by(3, false));
    assert!(!target.is_met_by(3, true));
    assert!(target.is_met_by(4, true));
    let beyond: RollTarget<u32, i32> = RollTarget::new(0xFFFF_FFFF, i32::MIN, None);
    assert!(!beyond.is_met_by(0xFFFF_FFFF, false));
    assert!(beyond.is_met_by(0xFFFF_FFFF, true));
}

#[test]
fn roll_target_checked_value() {
    let target: RollTarget<u32, i32> = RollTarget::new(4, 1, Some(2));
    assert_eq!(target.checked_value(false), Some(3));
    assert_eq!(target.checked_value(true), Some(4));
    let beyond: RollTarget<u32, i32> = RollTarget::new(0xFFFF_FFFF, -1, Some(2));
    assert_eq!(beyond.checked_value(false), None);
    assert_eq!(beyond.checked_value(true), Some(0xFFFF_FFFF));
    let at_the_limit: RollTarget<u32, i32> = RollTarget::new(0xFFFF_FFFE, -1, None);
    assert_eq!(at_the_limit.checked_value(false), Some(0xFFFF_FFFF));
}
