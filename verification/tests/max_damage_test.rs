use aos_statshammer::abilities::weapon::{
    Ability, Bonus, Exploding, LeaderExtraAttacks, MortalWounds,
};
use aos_statshammer::processors::MaxDamageProcessor;
use aos_statshammer::testutils::weapons;
use aos_statshammer::{Dice, DiceNotation, RollCharacteristic, ValueCharacteristic, Weapon};

fn basic_weapon(abilities: Vec<Ability>) -> Weapon {
    Weapon {
        models: 10,
        attacks: DiceNotation::from(2),
        to_hit: 3,
        to_wound: 4,
        rend: 1,
        damage: DiceNotation::from(2),
        abilities,
    }
}

#[test]
fn max_leader_extra_attacks_no_ability_found() {
    let weapon = basic_weapon(vec![]);
    let processor = MaxDamageProcessor::new(&weapon);
    assert_eq!(processor.max_leader_extra_attacks(), 0);
}

#[test]
fn max_leader_extra_attacks_single_ability_found() {
    let weapon = basic_weapon(vec![Ability::from(LeaderExtraAttacks {
        value: DiceNotation::try_from("d6").unwrap(),
        models: 2,
    })]);
    let processor = MaxDamageProcessor::new(&weapon);
    assert_eq!(processor.max_leader_extra_attacks(), 12);
}

#[test]
fn max_leader_extra_attacks_multiple_abilities_found() {
    let weapon = basic_weapon(vec![
        Ability::from(LeaderExtraAttacks {
            value: DiceNotation::try_from("d6").unwrap(),
            models: 2,
        }),
        Ability::from(LeaderExtraAttacks { value: DiceNotation::from(2), models: 1 }),
    ]);
    let processor = MaxDamageProcessor::new(&weapon);
    assert_eq!(processor.max_leader_extra_attacks(), 14);
}

#[test]
fn max_bonus_no_ability_found() {
    let weapon = basic_weapon(vec![]);
    let processor = MaxDamageProcessor::new(&weapon);
    assert_eq!(processor.max_bonus(ValueCharacteristic::Attacks.into()), 0);
}

#[test]
fn max_bonus_single_ability_found() {
    let weapon = basic_weapon(vec![Ability::from(Bonus {
        characteristic: ValueCharacteristic::Attacks.into(),
        value: DiceNotation::try_from("d6").unwrap(),
    })]);
    let processor = MaxDamageProcessor::new(&weapon);
    assert_eq!(processor.max_bonus(ValueCharacteristic::Attacks.into()), 6);
}

#[test]
fn max_bonus_multiple_abilities_found() {
    let weapon = basic_weapon(vec![
        Ability::from(Bonus {
            characteristic: ValueCharacteristic::Attacks.into(),
            value: DiceNotation::try_from("d6").unwrap(),
        }),
        Ability::from(Bonus {
            characteristic: ValueCharacteristic::Attacks.into(),
            value: DiceNotation::from(2),
        }),
    ]);
    let processor = MaxDamageProcessor::new(&weapon);
    assert_eq!(processor.max_bonus(ValueCharacteristic::Attacks.into()), 8);
}

#[test]
fn max_bonus_counts_only_the_characteristic() {
    let weapon = basic_weapon(vec![
        Ability::from(Bonus {
            characteristic: ValueCharacteristic::Attacks.into(),
            value: DiceNotation::from(2),
        }),
        Ability::from(Bonus {
            characteristic: ValueCharacteristic::Damage.into(),
            value: DiceNotation::from(5),
        }),
        Ability::from(Bonus {
            characteristic: RollCharacteristic::Hit.into(),
            value: DiceNotation::from(1),
        }),
    ]);
    let processor = MaxDamageProcessor::new(&weapon);
    assert_eq!(processor.max_bonus(ValueCharacteristic::Attacks), 2);
    assert_eq!(processor.max_bonus(ValueCharacteristic::Damage), 5);
    assert_eq!(processor.max_bonus(ValueCharacteristic::Rend), 0);
}

#[test]
fn max_exploding_no_ability_found() {
    let weapon = basic_weapon(vec![]);
    let processor = MaxDamageProcessor::new(&weapon);
    assert_eq!(processor.max_exploding(RollCharacteristic::Hit, 1), 0);
}

#[test]
fn max_exploding_single_ability_found() {
    let weapon = basic_weapon(vec![Ability::from(Exploding {
        characteristic: RollCharacteristic::Hit,
        on: 6,
        unmodified: true,
        extra: DiceNotation::try_from("d6").unwrap(),
    })]);
    let processor = MaxDamageProcessor::new(&weapon);
    assert_eq!(processor.max_exploding(RollCharacteristic::Hit, 1), 6);
    assert_eq!(processor.max_exploding(RollCharacteristic::Hit, 4), 24);
    assert_eq!(processor.max_exploding(RollCharacteristic::Wound, 4), 0);
}

#[test]
fn max_mortal_wounds_no_ability_found() {
    let weapon = basic_weapon(vec![]);
    let processor = MaxDamageProcessor::new(&weapon);
    assert_eq!(processor.max_mortal_wounds(RollCharacteristic::Hit, 4), (0, 0));
}

fn single_mortal_wounds(in_addition: bool) -> Weapon {
    basic_weapon(vec![Ability::from(MortalWounds {
        characteristic: RollCharacteristic::Hit,
        on: 6,
        unmodified: true,
        mortals: DiceNotation::try_from("d6").unwrap(),
        in_addition,
    })])
}

#[test]
fn max_mortal_wounds_single_ability_found_in_addition() {
    let weapon = single_mortal_wounds(true);
    let processor = MaxDamageProcessor::new(&weapon);
    assert_eq!(processor.max_mortal_wounds(RollCharacteristic::Hit, 4), (24, 24));
}

#[test]
fn max_mortal_wounds_single_ability_found_not_in_addition() {
    let weapon = single_mortal_wounds(false);
    let processor = MaxDamageProcessor::new(&weapon);
    assert_eq!(processor.max_mortal_wounds(RollCharacteristic::Hit, 4), (24, 0));
}

#[test]
fn max_mortal_wounds_multiple_abilities_found() {
    let weapon = basic_weapon(vec![
        Ability::from(MortalWounds {
            characteristic: RollCharacteristic::Hit,
            on: 6,
            unmodified: true,
            mortals: DiceNotation::try_from("d6").unwrap(),
            in_addition: false,
        }),
        Ability::from(MortalWounds {
            characteristic: RollCharacteristic::Hit,
            on: 6,
            unmodified: true,
            mortals: DiceNotation::from(2),
            in_addition: false,
        }),
        Ability::from(MortalWounds {
            characteristic: RollCharacteristic::Hit,
            on: 6,
            unmodified: false,
            mortals: DiceNotation::from(2),
            in_addition: true,
        }),
    ]);
    let processor = MaxDamageProcessor::new(&weapon);
    assert_eq!(processor.max_mortal_wounds(RollCharacteristic::Hit, 4), (40, 8));
}

#[test]
fn max_damage_basic_weapon() {
    let weapon = basic_weapon(vec![]);
    assert_eq!(MaxDamageProcessor::new(&weapon).max_damage(), 40);
    assert_eq!(MaxDamageProcessor::new(&weapon).checked_max_damage(), Some(40));
}

#[test]
fn max_damage_mortal_wounds_in_place_of_hits() {
    // Twenty hit rolls: forty damage from wounds, or sixty mortal wounds in their place.
    let weapon = basic_weapon(vec![Ability::from(MortalWounds {
        characteristic: RollCharacteristic::Hit,
        on: 6,
        unmodified: true,
        mortals: DiceNotation::from(3),
        in_addition: false,
    })]);
    assert_eq!(MaxDamageProcessor::new(&weapon).max_damage(), 60);
}

#[test]
fn max_damage_with_every_kind_of_ability() {
    let weapon = basic_weapon(vec![
        Ability::from(Bonus {
            characteristic: ValueCharacteristic::Attacks.into(),
            value: DiceNotation::from(1),
        }),
        Ability::from(LeaderExtraAttacks { value: DiceNotation::from(Dice::d(3)), models: 2 }),
        Ability::from(Exploding {
            characteristic: RollCharacteristic::Hit,
            on: 6,
            unmodified: true,
            extra: DiceNotation::from(1),
        }),
        Ability::from(Exploding {
            characteristic: RollCharacteristic::Wound,
            on: 6,
            unmodified: true,
            extra: DiceNotation::from(2),
        }),
        Ability::from(MortalWounds {
            characteristic: RollCharacteristic::Wound,
            on: 6,
            unmodified: true,
            mortals: DiceNotation::from(1),
            in_addition: true,
        }),
        Ability::from(Bonus {
            characteristic: ValueCharacteristic::Damage.into(),
            value: DiceNotation::from(Dice::d(3)),
        }),
    ]);
    // 10 * (2 + 1) + 2 * 3 = 36 attacks, 72 hit rolls, 216 wound rolls,
    // each with 2 + 3 damage and one mortal wound.
    assert_eq!(MaxDamageProcessor::new(&weapon).max_damage(), 216 * 5 + 216);
}

#[test]
fn max_damage_beyond_32_bits() {
    let weapon = Weapon {
        models: 0xFFFF_FFFF,
        attacks: DiceNotation::from(i32::MAX),
        to_hit: 3,
        to_wound: 4,
        rend: 1,
        damage: DiceNotation::from(2),
        abilities: vec![],
    };
    assert_eq!(MaxDamageProcessor::new(&weapon).checked_max_damage(), None);
    let harmless = Weapon { damage: DiceNotation::from(0), ..weapon };
    assert_eq!(MaxDamageProcessor::new(&harmless).checked_max_damage(), Some(0));
    assert_eq!(MaxDamageProcessor::new(&harmless).max_damage(), 0);
}

#[test]
fn max_damage_gotrek() {
    assert_eq!(MaxDamageProcessor::new(&weapons::gotrek::zangrom_thaz()).max_damage(), 54);
}

#[test]
fn max_hearthguard_berserkers() {
    assert_eq!(
        MaxDamageProcessor::new(&weapons::hearthguard_berserkers::broadaxes()).max_damage(),
        82
    );
}

#[test]
fn max_chainrasp_horde() {
    assert_eq!(
        MaxDamageProcessor::new(&weapons::chainrasp_horde::malignant_weapon()).max_damage(),
        21
    );
}

#[test]
fn max_mortek_guard() {
    assert_eq!(MaxDamageProcessor::new(&weapons::mortek_guard::nadirite_blade()).max_damage(), 38);
    assert_eq!(
        MaxDamageProcessor::new(&weapons::mortek_guard::soulcleaver_greatblade()).max_damage(),
        2
    );
}

#[test]
fn capped_totals_follow_the_numbers_as_far_as_32_bits() {
    let weapon = weapons::mortek_guard::nadirite_blade();
    assert_eq!(weapon.capped_attacks(), 19);
    assert_eq!(weapon.capped_results(RollCharacteristic::Hit), 2);
    assert_eq!(weapon.capped_results(RollCharacteristic::Wound), 1);
    assert_eq!(weapon.capped_attack_wounds(), 2);
    assert_eq!(weapon.capped_wound_damage(), 1);
    assert_eq!(weapon.capped_attack_damage(), 2);
    assert_eq!(weapon.capped_simulated(), 38);
    assert_eq!(weapon.capped_max_damage(), 38);
    assert_eq!(weapon.capped_leader_extra_attacks(), 1);
    assert_eq!(weapon.capped_exploding(RollCharacteristic::Hit), 1);
    assert_eq!(weapon.capped_mortal_wounds(RollCharacteristic::Hit), (0, 0));
    assert_eq!(weapon.capped_bonus(ValueCharacteristic::Attacks.into()), 0);
    let heavy = Weapon {
        models: 0xFFFF_FFFF,
        attacks: DiceNotation::from(2),
        ..basic_weapon(vec![])
    };
    assert_eq!(heavy.capped_attacks(), 0x1_0000_0000);
    assert_eq!(heavy.capped_max_damage(), 0x1_0000_0000);
    let at_the_limit = Weapon { attacks: DiceNotation::from(1), ..heavy };
    assert_eq!(at_the_limit.capped_attacks(), 0xFFFF_FFFF);
}

#[test]
fn dice_wide_values() {
    let dice = Dice::new(0xFFFF_FFFF, 0xFFFF_FFFF);
    assert_eq!(dice.max_wide(), 0xFFFF_FFFF * 0xFFFF_FFFF);
    assert_eq!(Dice::new(6, 2).max_wide(), 12);
}
