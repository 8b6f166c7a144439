use aos_statshammer::abilities::opponent::{Ethereal, SaveBonus, SaveReroll, Ward};
use aos_statshammer::abilities::weapon::{
    Ability, Bonus, Exploding, LeaderExtraAttacks, MortalWounds, Reroll,
};
use aos_statshammer::abilities::RerollType;
use aos_statshammer::processors::{
    inverse_probability, probability, reroll_probability, AverageDamageProcessor,
    ProcessorResults, RollTarget, SaveResult, AVERAGE_DENOMINATOR,
};
use aos_statshammer::rollable::Rollable;
use aos_statshammer::testutils::weapons;
use aos_statshammer::{
    Characteristic, Dice, DiceNotation, Opponent, RollCharacteristic, ValueCharacteristic, Weapon,
};

const PRECISION: f64 = 0.000_5; // Approximately 3 decimal places

/// A number of parts as a fraction.
fn parts(value: i128, denominator: i128) -> f64 {
    value as f64 / denominator as f64
}

fn assert_close(output: f64, expected: f64) {
    assert!((output - expected).abs() <= PRECISION, "{} is not {}", output, expected);
}

fn assert_average_damage_eq(weapon: &Weapon, expected: [f64; 7]) {
    let results = AverageDamageProcessor::new(weapon).average_damage();
    assert_results_eq(&results, expected);
}

fn assert_results_eq(results: &ProcessorResults, expected: [f64; 7]) {
    assert_eq!(results.save_results.len(), 7);
    for (index, expected_value) in expected.iter().enumerate() {
        assert_eq!(results.save_results[index].save, index as u32 + 1);
        let output = parts(results.save_results[index].value, AVERAGE_DENOMINATOR);
        assert_close(output, *expected_value);
    }
}

fn basic_weapon(abilities: Vec<Ability>) -> Weapon {
    Weapon {
        models: 10,
        attacks: DiceNotation::from(2),
        to_hit: 3,
        to_wound: 4,
        rend: 1,
        damage: DiceNotation::from(2),
        abilities,
    }
}

#[test]
fn average_damage_gotrek() {
    assert_average_damage_eq(
        &weapons::gotrek::zangrom_thaz(),
        [9.407, 11.778, 14.148, 16.519, 18.889, 18.889, 18.889],
    );
}

#[test]
fn average_hearthguard_berserkers() {
    assert_average_damage_eq(
        &weapons::hearthguard_berserkers::broadaxes(),
        [6.074, 12.148, 18.222, 24.296, 30.370, 36.444, 36.444],
    );
}

#[test]
fn average_chainrasp_horde() {
    assert_average_damage_eq(
        &weapons::chainrasp_horde::malignant_weapon(),
        [0.875, 0.875, 1.75, 2.625, 3.5, 4.375, 5.25],
    );
}

#[test]
fn average_mortek_guard() {
    assert_average_damage_eq(
        &weapons::mortek_guard::nadirite_blade(),
        [1.319, 2.639, 3.958, 5.278, 6.597, 7.917, 7.917],
    );
    assert_average_damage_eq(
        &weapons::mortek_guard::soulcleaver_greatblade(),
        [0.148, 0.296, 0.444, 0.593, 0.741, 0.889, 0.889],
    );
}

#[test]
fn average_damage_is_exact() {
    // Two attacks hit on three (2/3) and wound on three (2/3); against a save of seven
    // every wound deals one damage: 8/9.
    let results =
        AverageDamageProcessor::new(&weapons::mortek_guard::soulcleaver_greatblade())
            .average_damage();
    assert_eq!(results.save_results[6].value * 9, 8 * AVERAGE_DENOMINATOR);
    // Against a save of four with rend one a five saves: 2/3 of the wounds are left.
    assert_eq!(results.save_results[3].value * 27, 16 * AVERAGE_DENOMINATOR);
}

#[test]
fn roll_probability_for_target() {
    let cases = [
        (0.0, 1.0),
        (1.0, 1.0),
        (2.0, 0.833),
        (3.0, 0.667),
        (4.0, 0.5),
        (5.0, 0.333),
        (6.0, 0.167),
        (7.0, 0.0),
        (8.0, 0.0),
        (3.5, 0.583),
    ];
    for (target, expected) in cases {
        let output = probability((target * 2.0) as i128);
        assert_close(parts(output, 12), expected);
    }
    assert_eq!(probability(i128::MIN), 12);
    assert_eq!(probability(i128::MAX), 0);
}

#[test]
fn inverse_probability_for_target() {
    let cases = [
        (0.0, 0.0),
        (1.0, 0.0),
        (2.0, 0.167),
        (3.0, 0.333),
        (4.0, 0.5),
        (5.0, 0.667),
        (6.0, 0.833),
        (7.0, 1.0),
    ];
    for (target, expected) in cases {
        let output = inverse_probability((target * 2.0) as i128);
        assert_close(parts(output, 12), expected);
    }
}

#[test]
fn reroll_probability_by_type() {
    // To hit on four with a bonus of one: three is needed with the bonus counted.
    let target: RollTarget<i64, i64> = RollTarget::new(8, 2, Some(4));
    let base = 6 * 7;
    // Any: the rolls that fail against three, a third of them.
    assert_eq!(reroll_probability(RerollType::Any, base, target), Some(base * 4));
    // Failed: the rolls that fail against four, half of them.
    assert_eq!(reroll_probability(RerollType::Failed, base, target), Some(base * 6));
    // Ones: a sixth of the rolls, whatever the target.
    assert_eq!(reroll_probability(RerollType::Ones, base, target), Some(base * 2));
    let other: RollTarget<i64, i64> = RollTarget::new(12, -2, Some(4));
    assert_eq!(reroll_probability(RerollType::Ones, base, other), Some(base * 2));
    assert_eq!(reroll_probability(RerollType::Any, base, other), Some(base * 12));
    assert_eq!(reroll_probability(RerollType::Any, i128::MAX, other), None);
}

#[test]
fn dice_average_doubled() {
    assert_eq!(Dice { sides: 3, quantity: 1 }.average_doubled(), 4);
    assert_eq!(Dice { sides: 6, quantity: 1 }.average_doubled(), 7);
    assert_eq!(Dice { sides: 6, quantity: 2 }.average_doubled(), 14);
    assert_eq!(Dice { sides: 8, quantity: 4 }.average_doubled(), 36);
    assert_eq!(Dice { sides: 10, quantity: 6 }.average_doubled(), 66);
    assert_eq!(
        Dice { sides: 0xFFFF_FFFF, quantity: 0xFFFF_FFFF }.average_doubled(),
        0xFFFF_FFFF * 0x1_0000_0000
    );
}

#[test]
fn notation_average_doubled() {
    let notation = |text: &str| DiceNotation::try_from(text).unwrap();
    assert_eq!(notation("d6").average_doubled(), 7);
    assert_eq!(notation("2d6").average_doubled(), 14);
    assert_eq!(notation("2d6 - d6 + 2").average_doubled(), 11);
    assert_eq!(notation("4d8 - 3").average_doubled(), 30);
    assert_eq!(notation("d6 - 10").average_doubled(), 0);
    assert_eq!(notation("-1").average_doubled(), 0);
}

#[test]
fn average_attacks_no_ability() {
    let weapon = basic_weapon(vec![]);
    let processor = AverageDamageProcessor::new(&weapon);
    assert_close(parts(processor.average_attacks().unwrap(), 2), 20.0);
}

#[test]
fn average_attacks_with_abilities() {
    let weapon = basic_weapon(vec![
        Ability::from(Bonus {
            characteristic: ValueCharacteristic::Attacks.into(),
            value: 1.into(),
        }),
        Ability::from(Bonus {
            characteristic: ValueCharacteristic::Attacks.into(),
            value: DiceNotation::try_from("d3").unwrap(),
        }),
        Ability::from(LeaderExtraAttacks { value: 1.into(), models: 1 }),
        Ability::from(LeaderExtraAttacks {
            value: DiceNotation::try_from("d6").unwrap(),
            models: 2,
        }),
    ]);
    let processor = AverageDamageProcessor::new(&weapon);
    assert_close(parts(processor.average_attacks().unwrap(), 2), 58.0);
}

fn roll_phase_of(weapon: &Weapon, phase: RollCharacteristic) -> (f64, f64) {
    let processor = AverageDamageProcessor::new(weapon);
    // Two rolls.
    let (successes, mortals) = processor.roll_phase(2, phase).unwrap();
    (parts(successes, 288), parts(mortals, 1728))
}

#[test]
fn roll_phase_no_abilities() {
    let weapon = basic_weapon(vec![]);
    assert_close(roll_phase_of(&weapon, RollCharacteristic::Hit).0, 1.333);
    assert_close(roll_phase_of(&weapon, RollCharacteristic::Wound).0, 1.0);
    assert_close(roll_phase_of(&weapon, RollCharacteristic::Hit).1, 0.0);
}

#[test]
fn roll_phase_with_bonus_abilities() {
    let weapon = basic_weapon(vec![
        Ability::from(Bonus { characteristic: RollCharacteristic::Hit.into(), value: 2.into() }),
        Ability::from(Bonus { characteristic: RollCharacteristic::Wound.into(), value: 1.into() }),
    ]);
    assert_close(roll_phase_of(&weapon, RollCharacteristic::Hit).0, 1.667);
    assert_close(roll_phase_of(&weapon, RollCharacteristic::Wound).0, 1.333);
}

#[test]
fn roll_phase_with_exploding_abilities() {
    let weapon = basic_weapon(vec![Ability::from(Exploding {
        characteristic: RollCharacteristic::Hit,
        on: 6,
        unmodified: true,
        extra: 2.into(),
    })]);
    let (successes, mortals) = roll_phase_of(&weapon, RollCharacteristic::Hit);
    assert_close(successes, 2.0);
    assert_close(mortals, 0.0);
}

#[test]
fn roll_phase_with_mortal_wounds_abilities() {
    let weapon = basic_weapon(vec![Ability::from(MortalWounds {
        characteristic: RollCharacteristic::Hit,
        on: 6,
        unmodified: true,
        mortals: 2.into(),
        in_addition: false,
    })]);
    let (successes, mortals) = roll_phase_of(&weapon, RollCharacteristic::Hit);
    assert_close(successes, 1.0);
    assert_close(mortals, 0.667);
}

#[test]
fn roll_phase_with_rerolls() {
    let any = basic_weapon(vec![Ability::from(Reroll {
        characteristic: RollCharacteristic::Wound,
        reroll_type: RerollType::Any,
    })]);
    // Two rolls to wound on four: one wounds, one is rolled again and wounds half of the
    // time.
    assert_close(roll_phase_of(&any, RollCharacteristic::Wound).0, 1.5);
    let ones = basic_weapon(vec![Ability::from(Reroll {
        characteristic: RollCharacteristic::Wound,
        reroll_type: RerollType::Ones,
    })]);
    assert_close(roll_phase_of(&ones, RollCharacteristic::Wound).0, 1.0 + 1.0 / 6.0);
}

#[test]
fn save_phase_no_abilities() {
    let weapon = basic_weapon(vec![]);
    let processor = AverageDamageProcessor::new(&weapon);
    assert_close(parts(processor.save_phase(10, 3).unwrap(), 144), 5.0);
}

#[test]
fn save_phase_with_bonus_rend_abilities() {
    let weapon = basic_weapon(vec![Ability::from(Bonus {
        characteristic: ValueCharacteristic::Rend.into(),
        value: 1.into(),
    })]);
    let processor = AverageDamageProcessor::new(&weapon);
    assert_close(parts(processor.save_phase(10, 3).unwrap(), 144), 6.667);
}

#[test]
fn average_save_phase_with_opponent_abilities() {
    let weapon = basic_weapon(vec![]);
    let bonus = Opponent::new(vec![SaveBonus { value: 1.into() }.into()]);
    let mut processor = AverageDamageProcessor::new(&weapon);
    processor.opponent(&bonus);
    // The bonus makes up for the rend: a save of three saves on three.
    assert_close(parts(processor.save_phase(12, 3).unwrap(), 144), 4.0);
    let ethereal = Opponent::new(vec![Ethereal {}.into()]);
    let mut processor = AverageDamageProcessor::new(&weapon);
    processor.opponent(&ethereal);
    assert_close(parts(processor.save_phase(12, 3).unwrap(), 144), 4.0);
    // With rerolls of every failed save of four against rend one: a third saves, and a
    // third of the other two thirds.
    let rerolls = Opponent::new(vec![SaveReroll { reroll_type: RerollType::Any }.into()]);
    let mut processor = AverageDamageProcessor::new(&weapon);
    processor.opponent(&rerolls);
    assert_close(parts(processor.save_phase(9, 4).unwrap(), 144), 4.0);
}

#[test]
fn damage_phase_no_abilities() {
    let weapon = basic_weapon(vec![Ability::from(Bonus {
        characteristic: ValueCharacteristic::Rend.into(),
        value: 1.into(),
    })]);
    let processor = AverageDamageProcessor::new(&weapon);
    assert_eq!(processor.damage_phase(2), Some(4 * 12));
}

#[test]
fn damage_phase_with_bonus_abilities() {
    let weapon = basic_weapon(vec![Ability::from(Bonus {
        characteristic: ValueCharacteristic::Damage.into(),
        value: DiceNotation::try_from("d6").unwrap(),
    })]);
    let processor = AverageDamageProcessor::new(&weapon);
    assert_eq!(processor.damage_phase(2), Some(11 * 12));
}

#[test]
fn damage_phase_with_ward() {
    let weapon = basic_weapon(vec![]);
    let opponent = Opponent::new(vec![Ward { on: 5 }.into()]);
    let mut processor = AverageDamageProcessor::new(&weapon);
    processor.opponent(&opponent);
    // A third of four damage is ignored.
    assert_eq!(processor.damage_phase(2), Some(32));
    assert_eq!(processor.average_ward_saves(6), Some(12));
}

#[test]
fn average_bonus_no_ability_found() {
    let weapon = basic_weapon(vec![]);
    let processor = AverageDamageProcessor::new(&weapon);
    assert_eq!(processor.average_bonus(ValueCharacteristic::Attacks.into()), Some(0));
}

#[test]
fn average_bonus_single_ability_found() {
    let weapon = basic_weapon(vec![Ability::from(Bonus {
        characteristic: ValueCharacteristic::Attacks.into(),
        value: DiceNotation::from(2),
    })]);
    let processor = AverageDamageProcessor::new(&weapon);
    assert_eq!(processor.average_bonus(ValueCharacteristic::Attacks.into()), Some(2 * 2));
}

#[test]
fn average_bonus_multiple_abilities_found() {
    let weapon = basic_weapon(vec![
        Ability::from(Bonus {
            characteristic: ValueCharacteristic::Attacks.into(),
            value: DiceNotation::from(2),
        }),
        Ability::from(Bonus {
            characteristic: ValueCharacteristic::Attacks.into(),
            value: DiceNotation::try_from("d6").unwrap(),
        }),
        Ability::from(Bonus {
            // Test that it correctly filters by characteristic
            characteristic: ValueCharacteristic::Damage.into(),
            value: DiceNotation::from(2),
        }),
    ]);
    let processor = AverageDamageProcessor::new(&weapon);
    assert_eq!(processor.average_bonus(ValueCharacteristic::Attacks.into()), Some(11));
    assert_eq!(
        processor.average_bonus(Characteristic::Roll(RollCharacteristic::Hit)),
        Some(0)
    );
}

#[test]
fn exploding_no_ability_found() {
    let weapon = basic_weapon(vec![]);
    let processor = AverageDamageProcessor::new(&weapon);
    assert_eq!(
        processor.average_exploding(RollCharacteristic::Hit, 2, RollTarget::new(6, 0, None)),
        Some(0)
    );
}

fn exploding_single_ability(unmodified: bool) -> f64 {
    let weapon = basic_weapon(vec![Ability::from(Exploding {
        characteristic: RollCharacteristic::Hit,
        on: 6,
        unmodified,
        extra: DiceNotation::from(2),
    })]);
    let processor = AverageDamageProcessor::new(&weapon);
    let target = RollTarget::new(6, 2, None);
    parts(processor.average_exploding(RollCharacteristic::Hit, 2, target).unwrap(), 24)
}

#[test]
fn exploding_single_ability_found() {
    assert_close(exploding_single_ability(true), 0.667);
    assert_close(exploding_single_ability(false), 1.333);
}

#[test]
fn exploding_multiple_abilities_found() {
    let weapon = basic_weapon(vec![
        Ability::from(Exploding {
            characteristic: RollCharacteristic::Hit,
            on: 6,
            unmodified: true,
            extra: DiceNotation::from(2),
        }),
        Ability::from(Exploding {
            characteristic: RollCharacteristic::Hit,
            on: 5,
            unmodified: true,
            extra: DiceNotation::try_from("d6").unwrap(),
        }),
    ]);
    let processor = AverageDamageProcessor::new(&weapon);
    let target = RollTarget::new(6, 2, None);
    let output = processor.average_exploding(RollCharacteristic::Hit, 2, target).unwrap();
    assert_close(parts(output, 24), 3.0);
}

#[test]
fn mortal_wounds_no_ability_found() {
    let weapon = basic_weapon(vec![]);
    let processor = AverageDamageProcessor::new(&weapon);
    assert_eq!(
        processor.mortal_wounds(RollCharacteristic::Hit, 2, RollTarget::new(6, 0, None)),
        Some((0, 0))
    );
}

fn mortal_wounds_single_ability(unmodified: bool, in_addition: bool) -> (f64, f64) {
    let weapon = basic_weapon(vec![Ability::from(MortalWounds {
        characteristic: RollCharacteristic::Hit,
        on: 6,
        unmodified,
        mortals: DiceNotation::from(2),
        in_addition,
    })]);
    let processor = AverageDamageProcessor::new(&weapon);
    let target = RollTarget::new(6, 2, None);
    let (damage, base_reduction) =
        processor.mortal_wounds(RollCharacteristic::Hit, 2, target).unwrap();
    (parts(damage, 144), parts(base_reduction, 12))
}

#[test]
fn mortal_wounds_single_ability_found() {
    let cases = [
        (false, false, (1.333, 0.667)),
        (true, false, (0.667, 0.333)),
        (false, true, (1.333, 0.0)),
        (true, true, (0.667, 0.0)),
    ];
    for (unmodified, in_addition, expected) in cases {
        let (damage, base_reduction) = mortal_wounds_single_ability(unmodified, in_addition);
        assert_close(damage, expected.0);
        assert_close(base_reduction, expected.1);
    }
}

#[test]
fn mortal_wounds_multiple_abilities_found() {
    let weapon = basic_weapon(vec![
        Ability::from(MortalWounds {
            characteristic: RollCharacteristic::Hit,
            on: 6,
            unmodified: true,
            mortals: DiceNotation::from(2),
            in_addition: false,
        }),
        Ability::from(MortalWounds {
            characteristic: RollCharacteristic::Hit,
            on: 5,
            unmodified: true,
            mortals: DiceNotation::try_from("d6").unwrap(),
            in_addition: false,
        }),
    ]);
    let processor = AverageDamageProcessor::new(&weapon);
    let target = RollTarget::new(6, 2, None);
    let (damage, base_reduction) =
        processor.mortal_wounds(RollCharacteristic::Hit, 2, target).unwrap();
    assert_close(parts(damage, 144), 3.0);
    assert_close(parts(base_reduction, 12), 0.667);
}

#[test]
fn average_damage_grows_with_the_save() {
    for weapon in [
        weapons::gotrek::zangrom_thaz(),
        weapons::hearthguard_berserkers::broadaxes(),
        weapons::chainrasp_horde::malignant_weapon(),
        weapons::mortek_guard::nadirite_blade(),
        basic_weapon(vec![]),
    ] {
        let results = AverageDamageProcessor::new(&weapon).average_damage();
        for i in 1..7 {
            assert!(results.save_results[i - 1].value <= results.save_results[i].value);
        }
    }
    // Without rend a save of one is no better than a save of two.
    let results =
        AverageDamageProcessor::new(&weapons::chainrasp_horde::malignant_weapon()).average_damage();
    assert_eq!(results.save_results[0].value, results.save_results[1].value);
    // With rend two a save of five or worse saves nothing.
    let results = AverageDamageProcessor::new(&weapons::gotrek::zangrom_thaz()).average_damage();
    assert_eq!(results.save_results[4].value, results.save_results[5].value);
    assert_eq!(results.save_results[5].value, results.save_results[6].value);
}

#[test]
fn average_damage_with_mortal_wounds_that_take_more_than_hit() {
    // Mortal wounds on a two take the place of more rolls than hit on a four: no hits
    // are left, and the average damage is that of the mortal wounds against every save.
    let weapon = Weapon {
        to_hit: 4,
        ..basic_weapon(vec![Ability::from(MortalWounds {
            characteristic: RollCharacteristic::Hit,
            on: 2,
            unmodified: true,
            mortals: 1.into(),
            in_addition: false,
        })])
    };
    let processor = AverageDamageProcessor::new(&weapon);
    let (hits, _) = processor.roll_phase(40, RollCharacteristic::Hit).unwrap();
    assert_eq!(hits, 0);
    let results = processor.average_damage();
    // Twenty attacks, five in six of which deal one mortal wound.
    for result in results.save_results.iter() {
        assert_eq!(result.value, 4_777_574_400);
    }
}

#[test]
fn average_save_phase_never_leaves_less_than_nothing() {
    // A save of three with a bonus succeeds on two; every save that fails against three
    // is rolled again. More saves succeed than there are wounds: none is left.
    let weapon = basic_weapon(vec![]);
    let opponent = Opponent::new(vec![
        SaveBonus { value: 2.into() }.into(),
        SaveReroll { reroll_type: RerollType::Failed }.into(),
    ]);
    let mut processor = AverageDamageProcessor::new(&weapon);
    processor.opponent(&opponent);
    assert_eq!(processor.save_phase(12, 3), Some(0));
    for result in processor.average_damage().save_results.iter() {
        assert!(result.value >= 0);
    }
}

#[test]
fn average_damage_beyond_128_bits() {
    let weapon = Weapon {
        models: 0xFFFF_FFFF,
        attacks: DiceNotation::new(vec![Dice::new(0xFFFF_FFFF, 0xFFFF_FFFF); 4], vec![], 0),
        damage: DiceNotation::new(vec![Dice::new(0xFFFF_FFFF, 0xFFFF_FFFF); 4], vec![], 0),
        ..basic_weapon(vec![])
    };
    assert_eq!(AverageDamageProcessor::new(&weapon).checked_average_damage(), None);
    let weapon = basic_weapon(vec![]);
    assert!(AverageDamageProcessor::new(&weapon).checked_average_damage().is_some());
}

#[test]
fn processor_results_new() {
    let results = ProcessorResults::new();
    for (index, result) in results.save_results.iter().enumerate() {
        assert_eq!(*result, SaveResult::initial(index as u32 + 1));
        assert_eq!(*result, SaveResult::new(index as u32 + 1, 0));
    }
    assert_eq!(ProcessorResults::default(), results);
}

#[test]
fn processor_results_add_and_merge() {
    let mut results = ProcessorResults::new();
    results.add(3, 5);
    results.add(8, 5);
    results.add_all(2);
    let expected = ProcessorResults::from([
        SaveResult::new(1, 2),
        SaveResult::new(2, 2),
        SaveResult::new(3, 7),
        SaveResult::new(4, 2),
        SaveResult::new(5, 2),
        SaveResult::new(6, 2),
        SaveResult::new(7, 2),
    ]);
    assert_eq!(results, expected);
    let mut merged = ProcessorResults::new();
    merged.add(7, -4);
    merged.merge(results);
    merged += results;
    assert_eq!(
        merged.save_results.iter().map(|r| r.value).collect::<Vec<_>>(),
        vec![4, 4, 14, 4, 4, 4, 0]
    );
}
