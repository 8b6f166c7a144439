use aos_statshammer::abilities::opponent::Ward;
use aos_statshammer::abilities::weapon::{Ability, Exploding, MortalWounds};
use aos_statshammer::processors::{MaxDamageProcessor, RollTarget, SimulatedDamageProcessor};
use aos_statshammer::rollable::{Recorded, Script, Source};
use aos_statshammer::testutils::weapons;
use aos_statshammer::{
    Dice, DiceNotation, DiceRoller, Opponent, RollCharacteristic, Rollable, Unit, Weapon,
};

fn plain_weapon(abilities: Vec<Ability>) -> Weapon {
    Weapon {
        models: 1,
        attacks: 1.into(),
        to_hit: 3,
        to_wound: 3,
        rend: 0,
        damage: 1.into(),
        abilities,
    }
}

#[test]
fn script_hands_out_the_written_rolls() {
    let rolls = vec![4, 9, 0, 2];
    let mut script = Script::new(&rolls);
    assert_eq!(script.read(), Some(0));
    assert_eq!(script.draw(6), 4);
    // A roll that the die cannot show is read as a one.
    assert_eq!(script.draw(6), 1);
    assert_eq!(script.draw(6), 1);
    assert_eq!(script.draw(3), 2);
    assert_eq!(script.read(), Some(4));
    // So is every roll behind the end.
    assert_eq!(script.draw(6), 1);
    assert_eq!(script.read(), None);
}

#[test]
fn recorded_source_draws_from_its_roller() {
    let roller = DiceRoller::new();
    let mut source = Recorded::new(&roller);
    for _ in 0..100 {
        let roll = source.draw(6);
        assert!((1..=6).contains(&roll));
    }
    assert_eq!(source.draw(1), 1);
}

#[test]
fn dice_roll_is_the_sum_of_the_draws() {
    let rolls = vec![4, 4, 4, 6];
    let mut script = Script::new(&rolls);
    assert_eq!(Dice::new(6, 3).roll_from(&mut script), 12);
    assert_eq!(script.read(), Some(3));
    assert_eq!(Dice::new(6, 1).roll_wide_from(&mut script), 6);
    assert_eq!(script.read(), Some(4));
    let mut script = Script::new(&rolls);
    assert_eq!(Dice::new(6, 0).roll_from(&mut script), 0);
    assert_eq!(script.read(), Some(0));
    assert_eq!(Dice::new(6, 3).resolve(&vec![4, 4, 4]), Some(12));
    assert_eq!(Dice::new(6, 3).resolve(&vec![6, 7, 2, 5]), Some(9));
    assert_eq!(Dice::new(6, 3).resolve(&vec![4, 4]), None);
}

#[test]
fn notation_rolls_additions_before_subtractions() {
    let notation = DiceNotation::try_from("2d6 - d3 + 1").unwrap();
    let rolls = vec![5, 6, 2];
    let mut script = Script::new(&rolls);
    assert_eq!(notation.roll_from(&mut script), 5 + 6 - 2 + 1);
    assert_eq!(script.read(), Some(3));
    let rolls = vec![1, 1, 3];
    let mut script = Script::new(&rolls);
    assert_eq!(notation.roll_wide_from(&mut script), 0);
}

#[test]
fn resolve_ward_rolls_once_for_each_point() {
    let weapon = plain_weapon(vec![]);
    let opponent = Opponent::new(vec![Ward { on: 5 }.into()]);
    let mut processor = SimulatedDamageProcessor::new(&weapon, 4);
    processor.opponent(&opponent);
    assert_eq!(processor.resolve_ward(3, &vec![4, 5, 6]), Some((1, 3)));
    assert_eq!(processor.resolve_ward(3, &vec![4, 5, 6, 6]), Some((1, 3)));
    assert_eq!(processor.resolve_ward(3, &vec![1, 2, 3]), Some((3, 3)));
    assert_eq!(processor.resolve_ward(3, &vec![4, 5]), None);
    assert_eq!(processor.resolve_ward(0, &vec![]), Some((0, 0)));
    let processor = SimulatedDamageProcessor::new(&weapon, 4);
    assert_eq!(processor.resolve_ward(3, &vec![]), Some((3, 0)));
}

#[test]
fn resolve_attack_reads_hit_wound_and_save() {
    let weapon = plain_weapon(vec![]);
    let processor = SimulatedDamageProcessor::new(&weapon, 4);
    assert!(processor.is_ready());
    // A miss reads one roll.
    assert_eq!(processor.resolve_attack(&vec![2, 6, 6]), Some((0, 1)));
    // A hit that does not wound reads two.
    assert_eq!(processor.resolve_attack(&vec![3, 2, 6]), Some((0, 2)));
    // A wound that is saved, and one that is not.
    assert_eq!(processor.resolve_attack(&vec![3, 3, 4]), Some((0, 3)));
    assert_eq!(processor.resolve_attack(&vec![3, 3, 3]), Some((1, 3)));
    // Too few rolls.
    assert_eq!(processor.resolve_attack(&vec![3, 3]), None);
    assert_eq!(processor.resolve_attack(&vec![]), None);
}

#[test]
fn resolve_damage_with_every_roll_a_four() {
    let weapon = weapons::gotrek::zangrom_thaz();
    let processor = SimulatedDamageProcessor::new(&weapon, 3);
    assert!(processor.is_ready());
    assert_eq!(processor.resolve_damage(&vec![4; 18]), Some((18, 18)));
    assert_eq!(processor.resolve_damage(&vec![4; 20]), Some((18, 18)));
    assert_eq!(processor.resolve_damage(&vec![4; 17]), None);
    let unit = Unit::new("Gotrek", vec![weapons::gotrek::zangrom_thaz()]);
    assert_eq!(unit.resolve_damage(3, None, &vec![4; 18]), Some((18, 18)));
    assert_eq!(unit.resolve_damage(3, None, &vec![4; 3]), None);
}

#[test]
fn unit_trial_reads_one_weapon_after_the_other() {
    let unit = Unit::new("Pair", vec![plain_weapon(vec![]), plain_weapon(vec![])]);
    assert!(unit.is_ready(4, None));
    assert_eq!(unit.resolve_damage(4, None, &vec![3, 3, 3, 2]), Some((1, 4)));
    assert_eq!(unit.resolve_damage(4, None, &vec![2, 3, 3, 3]), Some((1, 4)));
    assert_eq!(unit.resolve_damage(4, None, &vec![3, 3, 3, 3, 3, 1]), Some((2, 6)));
    let misses = vec![2, 2];
    let mut script = Script::new(&misses);
    assert_eq!(unit.roll_damage_from(4, None, &mut script), 0);
    assert_eq!(script.read(), Some(2));
}

#[test]
fn no_trial_deals_more_than_the_largest_damage() {
    // Mortal wounds in addition to the hit, and mortal wounds in place of the wound.
    let weapon = plain_weapon(vec![
        Ability::from(MortalWounds {
            characteristic: RollCharacteristic::Hit,
            on: 6,
            unmodified: true,
            mortals: 2.into(),
            in_addition: true,
        }),
        Ability::from(MortalWounds {
            characteristic: RollCharacteristic::Wound,
            on: 6,
            unmodified: true,
            mortals: 3.into(),
            in_addition: false,
        }),
    ]);
    let processor = SimulatedDamageProcessor::new(&weapon, 4);
    assert_eq!(processor.resolve_damage(&vec![6, 6]), Some((5, 2)));
    assert_eq!(processor.resolve_damage(&vec![6, 5, 1]), Some((3, 3)));
    assert_eq!(MaxDamageProcessor::new(&weapon).max_damage(), 5);
    let roller = DiceRoller::new();
    for _ in 0..200 {
        assert!(processor.simulate_damage(&roller) <= 5);
    }
}

#[test]
fn roll_target_from_a_whole_number() {
    let target: RollTarget<u32, i32> = 4u32.into();
    assert_eq!(target, RollTarget { initial: 4, modifier: 0, min_value: None });
    let halves: RollTarget<i64, i64> = 8i64.into();
    assert_eq!(halves, RollTarget { initial: 8, modifier: 0, min_value: None });
}

#[test]
fn roll_outcome_joins_the_roll_and_what_it_gives() {
    let weapon = plain_weapon(vec![
        Ability::from(Exploding {
            characteristic: RollCharacteristic::Hit,
            on: 6,
            unmodified: true,
            extra: Dice::d(3).into(),
        }),
        Ability::from(MortalWounds {
            characteristic: RollCharacteristic::Hit,
            on: 5,
            unmodified: false,
            mortals: Dice::d(3).into(),
            in_addition: false,
        }),
    ]);
    let processor = SimulatedDamageProcessor::new(&weapon, 4);
    let target = RollTarget::new(3, 0, Some(2));
    let rolls = vec![2, 3];
    // A roll that fails gives nothing and rolls nothing.
    let mut script = Script::new(&rolls);
    assert_eq!(processor.roll_outcome_from(RollCharacteristic::Hit, 2, target, &mut script), (0, 0));
    assert_eq!(script.read(), Some(0));
    // A plain hit.
    let mut script = Script::new(&rolls);
    assert_eq!(processor.roll_outcome_from(RollCharacteristic::Hit, 4, target, &mut script), (1, 0));
    assert_eq!(script.read(), Some(0));
    // Mortal wounds in place of the hit.
    let mut script = Script::new(&rolls);
    assert_eq!(processor.roll_outcome_from(RollCharacteristic::Hit, 5, target, &mut script), (0, 2));
    assert_eq!(script.read(), Some(1));
    // Extra hits are rolled before the mortal wounds.
    let mut script = Script::new(&rolls);
    assert_eq!(processor.roll_outcome_from(RollCharacteristic::Hit, 6, target, &mut script), (2, 3));
    assert_eq!(script.read(), Some(2));
    // Nothing of it for the rolls to wound.
    let mut script = Script::new(&rolls);
    assert_eq!(processor.roll_outcome_from(RollCharacteristic::Wound, 6, target, &mut script), (1, 0));
    assert_eq!(script.read(), Some(0));
}
