use aos_statshammer::profile::characteristics::{
    inverse_probability, modify, probability, Characteristic, Exploding, ExplodingAbility, Reroll,
};
use aos_statshammer::profile::dice::Dice;
use aos_statshammer::profile::weapon::AVERAGE_DENOMINATOR;
use aos_statshammer::profile::config::{
    Abilities, BonusAbility, Characteristics, RerollAbility, RollCharacteristic, TargetAbilities,
    TargetCharacteristics, TargetConfig, ValueCharacteristic, WeaponConfig,
};
use aos_statshammer::profile::config::ExplodingAbility as ExplodingEntry;
use aos_statshammer::profile::target::{Save, Target, TargetBuilder, TargetBuilderError};
use aos_statshammer::profile::weapon::{
    Attacks, Damage, Hit, Rend, Weapon, WeaponBuilder, WeaponBuilderError, WeaponField, Wound,
};
use aos_statshammer::profile::RerollType;

#[test]
fn positive() {
    let item = Attacks { value: 3, bonus: 1 };
    assert_eq!(item.bonus(), 1);
    assert_eq!(item.unmodified(), 3);
    assert_eq!(item.modified(), 4);
}

#[test]
fn negative() {
    let item = Hit { value: 3, bonus: 1, reroll: None, exploding: None };
    assert_eq!(item.bonus(), 1);
    assert_eq!(item.unmodified(), 3);
    assert_eq!(item.modified(), 2);
}

#[test]
fn modified_is_never_below_zero() {
    assert_eq!(Attacks { value: 3, bonus: -5 }.modified(), 0);
    assert_eq!(Wound { value: 3, bonus: 5, reroll: None, exploding: None }.modified(), 0);
    assert_eq!(Save { value: 4, bonus: 4, reroll: None }.modified(), 0);
    assert_eq!(Rend { value: 0, bonus: 0 }.modified(), 0);
    assert_eq!(Damage { value: 255, bonus: -255 }.modified(), 0);
}

#[test]
fn modified_keeps_eight_bits() {
    assert_eq!(Attacks { value: 3, bonus: 300 }.modified(), 47);
    assert_eq!(Attacks { value: 255, bonus: 1 }.modified(), 0);
    assert_eq!(Save { value: 4, bonus: -252, reroll: None }.modified(), 0);
    assert_eq!(modify(255, 32512), 255);
    assert_eq!(modify(0, -32768), 0);
}

#[test]
fn characteristics_from_a_value_and_with_a_bonus() {
    assert_eq!(Attacks::from(2), Attacks { value: 2, bonus: 0 });
    assert_eq!(Hit::from(3), Hit { value: 3, bonus: 0, reroll: None, exploding: None });
    assert_eq!(Save::from(4), Save { value: 4, bonus: 0, reroll: None });
    assert_eq!(Attacks::default(), Attacks { value: 0, bonus: 0 });
    assert_eq!(Rend::from(1) + 2, Rend { value: 1, bonus: 2 });
    assert_eq!(Damage::from(1) - 2, Damage { value: 1, bonus: -2 });
    assert_eq!((Save::from(4) - 1).modified(), 5);
    assert_eq!((Save::from(4) + 1).modified(), 3);
    let hit = Hit { value: 3, bonus: 0, reroll: Some(RerollType::Ones), exploding: None };
    assert_eq!(hit.reroll_type(), Some(RerollType::Ones));
    assert_eq!(Save::from(4).reroll_type(), None);
}

#[test]
fn exploding_ability_default_and_roll_target() {
    let ability = ExplodingAbility::default();
    assert_eq!(ability, ExplodingAbility { on: 6, unmodified: true, extra: 1 });
    assert_eq!(ability.roll_target(2), 6);
    let modified = ExplodingAbility { on: 6, unmodified: false, extra: 1 };
    assert_eq!(modified.roll_target(2), 4);
    assert_eq!(modified.roll_target(-1), 7);
    assert_eq!(modified.roll_target(10), 0);
}

fn basic_characteristics() -> Characteristics {
    Characteristics { attack: 2, hit: 3, wound: 4, rend: 0, damage: 1 }
}

#[test]
fn bonus_to_sums_many_together() {
    let config = WeaponConfig {
        characteristics: basic_characteristics(),
        abilities: Abilities {
            bonus: vec![
                BonusAbility { to: ValueCharacteristic::Attacks, amount: 1 },
                BonusAbility { to: ValueCharacteristic::Attacks, amount: 2 },
            ],
            ..Default::default()
        },
    };
    assert_eq!(config.bonus_to(ValueCharacteristic::Attacks), 3);
}

#[test]
fn bonus_to_counts_only_the_characteristic() {
    let config = WeaponConfig {
        characteristics: basic_characteristics(),
        abilities: Abilities {
            bonus: vec![
                BonusAbility { to: ValueCharacteristic::Hit, amount: 1 },
                BonusAbility { to: ValueCharacteristic::Damage, amount: 32767 },
                BonusAbility { to: ValueCharacteristic::Hit, amount: -3 },
                BonusAbility { to: ValueCharacteristic::Damage, amount: 32767 },
                BonusAbility { to: ValueCharacteristic::Damage, amount: -32767 },
            ],
            ..Default::default()
        },
    };
    assert_eq!(config.bonus_to(ValueCharacteristic::Hit), -2);
    assert_eq!(config.bonus_to(ValueCharacteristic::Damage), 32767);
    assert_eq!(config.bonus_to(ValueCharacteristic::Rend), 0);
}

#[test]
fn reroll_picks_best_option() {
    let config = WeaponConfig {
        characteristics: basic_characteristics(),
        abilities: Abilities {
            reroll: vec![
                RerollAbility { to: RollCharacteristic::Hit, reroll_type: RerollType::Failed },
                RerollAbility { to: RollCharacteristic::Hit, reroll_type: RerollType::Ones },
                RerollAbility { to: RollCharacteristic::Wound, reroll_type: RerollType::Ones },
                RerollAbility { to: RollCharacteristic::Wound, reroll_type: RerollType::Any },
                RerollAbility { to: RollCharacteristic::Wound, reroll_type: RerollType::Failed },
            ],
            ..Default::default()
        },
    };
    assert_eq!(config.reroll_to(RollCharacteristic::Hit), Some(RerollType::Failed));
    assert_eq!(config.reroll_to(RollCharacteristic::Wound), Some(RerollType::Any));
}

#[test]
fn exploding_to_picks_the_first() {
    let first =
        ExplodingEntry { to: RollCharacteristic::Wound, on: 5, unmodified: false, extra: 2 };
    let config = WeaponConfig {
        characteristics: basic_characteristics(),
        abilities: Abilities {
            exploding: vec![
                first,
                ExplodingEntry { to: RollCharacteristic::Wound, on: 6, unmodified: true, extra: 1 },
            ],
            ..Default::default()
        },
    };
    assert_eq!(config.exploding_to(RollCharacteristic::Wound), Some(first));
    assert_eq!(config.exploding_to(RollCharacteristic::Hit), None);
    assert_eq!(config.reroll_to(RollCharacteristic::Hit), None);
}

#[test]
fn create_weapon_basic() {
    let config = WeaponConfig {
        characteristics: Characteristics { attack: 2, hit: 3, wound: 4, rend: 1, damage: 1 },
        abilities: Default::default(),
    };
    let output: Weapon = config.try_into().unwrap();
    assert_eq!(
        output,
        Weapon {
            attacks: Attacks { value: 2, ..Default::default() },
            hit: Hit { value: 3, ..Default::default() },
            wound: Wound { value: 4, ..Default::default() },
            rend: Rend { value: 1, ..Default::default() },
            damage: Damage { value: 1, ..Default::default() },
        }
    )
}

#[test]
fn create_weapon_with_abilities() {
    let config = WeaponConfig {
        characteristics: Characteristics { attack: 2, hit: 3, wound: 4, rend: 1, damage: 1 },
        abilities: Abilities {
            bonus: vec![
                BonusAbility { to: ValueCharacteristic::Hit, amount: 1 },
                BonusAbility { to: ValueCharacteristic::Rend, amount: 2 },
            ],
            reroll: vec![RerollAbility {
                to: RollCharacteristic::Wound,
                reroll_type: RerollType::Ones,
            }],
            exploding: vec![ExplodingEntry {
                to: RollCharacteristic::Hit,
                on: 6,
                unmodified: true,
                extra: 2,
            }],
        },
    };
    assert_eq!(
        config.try_into(),
        Ok(Weapon {
            attacks: Attacks { value: 2, bonus: 0 },
            hit: Hit {
                value: 3,
                bonus: 1,
                reroll: None,
                exploding: Some(ExplodingAbility { on: 6, unmodified: true, extra: 2 }),
            },
            wound: Wound { value: 4, bonus: 0, reroll: Some(RerollType::Ones), exploding: None },
            rend: Rend { value: 1, bonus: 2 },
            damage: Damage { value: 1, bonus: 0 },
        })
    );
}

#[test]
fn profile_weapon_builder_names_the_first_missing_field() {
    let mut builder = WeaponBuilder::default();
    assert_eq!(builder.build(), Err(WeaponBuilderError::UninitializedField(WeaponField::Attacks)));
    builder.attacks(2).wound(4);
    assert_eq!(builder.build(), Err(WeaponBuilderError::UninitializedField(WeaponField::Hit)));
    builder.hit(Hit::from(3)).rend(1);
    assert_eq!(builder.build(), Err(WeaponBuilderError::UninitializedField(WeaponField::Damage)));
    builder.damage(Damage { value: 1, bonus: 1 });
    assert_eq!(
        builder.build(),
        Ok(Weapon {
            attacks: Attacks::from(2),
            hit: Hit::from(3),
            wound: Wound::from(4),
            rend: Rend::from(1),
            damage: Damage { value: 1, bonus: 1 },
        })
    );
    assert_eq!(WeaponField::Attacks.name(), "attacks");
    assert_eq!(WeaponField::Damage.name(), "damage");
}

#[test]
fn target_builder_bonus_and_reroll() {
    assert_eq!(
        TargetBuilder::default().build(),
        Ok(Target { save: Save { value: 0, bonus: 0, reroll: None }, ethereal: false })
    );
    let mut builder = TargetBuilder::default();
    builder.bonus(1);
    assert_eq!(builder.save, Some(Save { value: 0, bonus: 1, reroll: None }));
    builder.save(4).reroll(RerollType::Ones).bonus(-1).ethereal(true);
    assert_eq!(
        builder.build(),
        Ok::<Target, TargetBuilderError>(Target {
            save: Save { value: 4, bonus: -1, reroll: Some(RerollType::Ones) },
            ethereal: true
        })
    );
}

#[test]
fn target_config_into_target() {
    let config = TargetConfig {
        characteristics: TargetCharacteristics { save: 4 },
        abilities: TargetAbilities {
            bonus: Some(1),
            ethereal: true,
            reroll: Some(RerollType::Any),
        },
    };
    assert_eq!(
        config.try_into(),
        Ok(Target {
            save: Save { value: 4, bonus: 1, reroll: Some(RerollType::Any) },
            ethereal: true
        })
    );
    let plain = TargetConfig {
        characteristics: TargetCharacteristics { save: 5 },
        abilities: TargetAbilities::default(),
    };
    assert_eq!(plain.try_into(), Ok(Target::from(5)));
}

#[test]
fn target_needed_roll() {
    let target = Target { save: 4.into(), ethereal: false };
    assert_eq!(target.needed_roll(0), 4);
    assert_eq!(target.needed_roll(1), 5);
    let with_bonus = Target { save: Save { value: 4, bonus: 1, reroll: None }, ethereal: false };
    assert_eq!(with_bonus.needed_roll(1), 4);
    assert_eq!(with_bonus.needed_roll(0), 3);
    let ethereal = Target { save: Save { value: 4, bonus: 1, reroll: None }, ethereal: true };
    assert_eq!(ethereal.needed_roll(1), 4);
    assert_eq!(ethereal.needed_roll(0), 4);
}

#[test]
fn target_with_save() {
    let target = Target { save: Save { value: 4, bonus: 1, reroll: None }, ethereal: true };
    assert_eq!(Target::with_save(None, None), None);
    assert_eq!(Target::with_save(Some(target), None), Some(target));
    assert_eq!(Target::with_save(None, Some(3)), Some(Target::from(3)));
    assert_eq!(
        Target::with_save(Some(target), Some(3)),
        Some(Target { save: Save::from(3), ethereal: true })
    );
}

fn assert_relative_eq(output: f64, expected: f64, max_relative: f64) {
    let largest = output.abs().max(expected.abs());
    assert!((output - expected).abs() <= largest * max_relative, "{} is not {}", output, expected);
}

fn sixths(parts: u8) -> f64 {
    parts as f64 / 6.0
}

fn example(bonus: i16, reroll: Option<RerollType>) -> Save {
    Save { value: 4, bonus, reroll }
}

#[test]
fn no_reroll() {
    let item = example(1, None);
    assert_eq!(item.reroll_type(), None);
    assert_eq!(item.reroll_probability(), 0);
}

#[test]
fn reroll_ones() {
    let item = example(1, Some(RerollType::Ones));
    assert_eq!(item.reroll_type(), Some(RerollType::Ones));
    assert_relative_eq(sixths(item.reroll_probability()), 0.1667, 0.001);
}

#[test]
fn reroll_failed() {
    let item = example(1, Some(RerollType::Failed));
    assert_eq!(item.reroll_type(), Some(RerollType::Failed));
    assert_relative_eq(sixths(item.reroll_probability()), 0.3333, 0.001);
}

#[test]
fn reroll_any() {
    let item = example(1, Some(RerollType::Any));
    assert_eq!(item.reroll_type(), Some(RerollType::Any));
    assert_relative_eq(sixths(item.reroll_probability()), 0.3333, 0.001);
}

#[test]
fn reroll_failed_with_negative_bonus() {
    let mut item = example(-1, None);
    assert_relative_eq(sixths(item.reroll_probability()), 0.0, 0.001);
    item.reroll = Some(RerollType::Any);
    assert_relative_eq(sixths(item.reroll_probability()), 0.6667, 0.001);
    item.reroll = Some(RerollType::Failed);
    assert_relative_eq(sixths(item.reroll_probability()), 0.5, 0.001);
}

#[test]
fn probability_in_sixths() {
    let expected = [6, 6, 5, 4, 3, 2, 1, 0, 0];
    for (target, chance) in expected.iter().enumerate() {
        assert_eq!(probability(target as u8), *chance);
        assert_eq!(inverse_probability(target as u8), 6 - *chance);
    }
    assert_eq!(probability(255), 0);
}

#[test]
fn dice_probability_in_parts_of_its_sides() {
    let d6 = Dice::d6();
    assert_eq!(d6, Dice::new(6));
    for target in 0..=9u8 {
        assert_eq!(d6.probability(target), probability(target) as usize);
        assert_eq!(d6.inverse_probability(target), inverse_probability(target) as usize);
    }
    let d20 = Dice::new(20);
    assert_eq!(d20.probability(11), 10);
    assert_eq!(d20.probability(21), 0);
    assert_eq!(d20.probability(22), 0);
    assert_eq!(d20.inverse_probability(16), 15);
    assert_eq!(Dice::new(0).probability(1), 0);
    assert_eq!(Dice::new(usize::MAX).probability(0), usize::MAX);
    assert_eq!(Dice::new(usize::MAX).probability(2), usize::MAX - 1);
}

#[test]
fn extra_probability_of_exploding_rolls() {
    let hit = Hit { value: 3, bonus: 1, reroll: None, exploding: None };
    assert_eq!(hit.extra_probability(), 0);
    let unmodified = Hit { exploding: Some(ExplodingAbility::default()), ..hit };
    assert_eq!(unmodified.extra_probability(), 1);
    let modified = Hit {
        exploding: Some(ExplodingAbility { on: 6, unmodified: false, extra: 2 }),
        ..hit
    };
    assert_eq!(modified.extra_probability(), 4);
}

#[test]
fn test_average_saved_basic_no_rend() {
    let target = Target { save: 4.into(), ethereal: false };
    assert_relative_eq(sixths(target.average_saved(0)), 0.5, 0.000_001);
}

#[test]
fn test_average_unsaved_inverse_of_saved() {
    let target = Target { save: 4.into(), ethereal: false };
    assert_relative_eq(sixths(target.average_unsaved(0)), 0.5, 0.000_001);
}

#[test]
fn test_average_saved_basic_with_rend() {
    let target = Target { save: 4.into(), ethereal: false };
    assert_relative_eq(sixths(target.average_saved(1)), 0.333, 0.001);
}

#[test]
fn test_average_saved_with_bonus_and_rend() {
    let target = Target { save: Save { value: 4, bonus: 1, reroll: None }, ethereal: false };
    assert_relative_eq(sixths(target.average_saved(1)), 0.5, 0.000_001);
}

#[test]
fn test_average_saved_ethereal_ignores_bonus() {
    let target = Target { save: Save { value: 4, bonus: 1, reroll: None }, ethereal: true };
    assert_relative_eq(sixths(target.average_saved(1)), 0.5, 0.000_001);
}

#[test]
fn test_average_saved_ethereal_ignores_rend() {
    let target = Target { save: 4.into(), ethereal: true };
    assert_relative_eq(sixths(target.average_saved(1)), 0.5, 0.000_001);
}

#[test]
fn test_average_saved_reroll_ones() {
    let target = Target { save: 4.into(), ethereal: true };
    assert_relative_eq(sixths(target.average_saved(1)), 0.5, 0.000_001);
}

#[test]
fn profile_weapon_average_damage() {
    let weapon = Weapon {
        attacks: Attacks::from(2),
        hit: Hit::from(3),
        wound: Wound::from(4),
        rend: Rend::from(1),
        damage: Damage::from(1),
    };
    // Two attacks hit on three and wound on four; a save of four with rend one fails four
    // times out of six: 2 * 2/3 * 1/2 * 2/3.
    let average = weapon.average_damage(&Target::from(4));
    assert_eq!(average * 9, 4 * AVERAGE_DENOMINATOR);
    let better = Weapon {
        attacks: Attacks { value: 2, bonus: 1 },
        hit: Hit {
            value: 3,
            bonus: 0,
            reroll: Some(RerollType::Ones),
            exploding: Some(ExplodingAbility::default()),
        },
        damage: Damage { value: 1, bonus: 1 },
        ..weapon
    };
    // Three attacks with 1 + 1/6 + 1/6 rolls each, and damage two.
    let average = better.average_damage(&Target::from(4));
    assert_eq!(average * 9, 16 * AVERAGE_DENOMINATOR);
    let ethereal = Target { save: 4.into(), ethereal: true };
    assert_eq!(weapon.average_damage(&ethereal) * 3, AVERAGE_DENOMINATOR);
}

#[test]
fn weapon_config_is_convertible() {
    let config = WeaponConfig {
        characteristics: basic_characteristics(),
        abilities: Abilities {
            bonus: vec![
                BonusAbility { to: ValueCharacteristic::Damage, amount: 32767 },
                BonusAbility { to: ValueCharacteristic::Damage, amount: -1 },
            ],
            ..Default::default()
        },
    };
    assert!(config.is_convertible());
    let config = WeaponConfig {
        characteristics: basic_characteristics(),
        abilities: Abilities {
            bonus: vec![
                BonusAbility { to: ValueCharacteristic::Damage, amount: 32767 },
                BonusAbility { to: ValueCharacteristic::Damage, amount: 1 },
            ],
            ..Default::default()
        },
    };
    assert!(!config.is_convertible());
}

#[test]
fn profile_weapon_average_needs_characteristics_within_sixteen_bits() {
    let weapon = Weapon {
        attacks: Attacks::from(2),
        hit: Hit::from(3),
        wound: Wound::from(4),
        rend: Rend::from(1),
        damage: Damage::from(1),
    };
    let target = Target::from(4);
    assert!(weapon.is_ready(&target));
    assert_eq!(weapon.checked_average_damage(&target), Some(weapon.average_damage(&target)));
    let too_much = Weapon { attacks: Attacks { value: 255, bonus: 32767 }, ..weapon };
    assert!(!too_much.is_ready(&target));
    assert_eq!(too_much.checked_average_damage(&target), None);
    let too_little = Weapon { hit: Hit { bonus: -32768, ..Hit::from(3) }, ..weapon };
    assert_eq!(too_little.checked_average_damage(&target), None);
    let hard_target =
        Target { save: Save { value: 4, bonus: -32768, reroll: None }, ethereal: true };
    assert_eq!(weapon.checked_average_damage(&hard_target), None);
}
