use aos_statshammer::abilities::opponent::{Ethereal, SaveBonus, SaveReroll, Ward};
use aos_statshammer::abilities::weapon::{
    Ability, Bonus, Exploding, LeaderExtraAttacks, MortalWounds, Reroll,
};
use aos_statshammer::abilities::RerollType;
use aos_statshammer::processors::{
    can_reroll, phase_outcome, RerollPhase, RollTarget, SimulatedDamageProcessor,
};
use aos_statshammer::rollable::{DiceRoller, Roller};
use aos_statshammer::testutils::weapons;
use aos_statshammer::{
    Characteristic, Dice, DiceNotation, Opponent, RollCharacteristic, ValueCharacteristic, Weapon,
};
use std::cell::RefCell;

/// Hands out the given rolls in order, each for the sides that go with it, and fails
/// when asked for more or for a die with other sides.
struct ScriptedRoller {
    rolls: RefCell<Vec<(u32, u32)>>,
}

impl ScriptedRoller {
    /// Rolls of six-sided dice.
    fn new(rolls: &[u32]) -> Self {
        let with_sides: Vec<(u32, u32)> = rolls.iter().map(|roll| (6, *roll)).collect();
        Self::with_sides(&with_sides)
    }

    /// Rolls of dice with the given sides: the sides first, then the roll.
    fn with_sides(rolls: &[(u32, u32)]) -> Self {
        let mut rolls = rolls.to_vec();
        rolls.reverse();
        Self { rolls: RefCell::new(rolls) }
    }

    fn none() -> Self {
        Self::new(&[])
    }

    fn is_used_up(&self) -> bool {
        self.rolls.borrow().is_empty()
    }
}

impl Roller for ScriptedRoller {
    fn roll(&self, sides: u32) -> u32 {
        let (expected_sides, roll) = self.rolls.borrow_mut().pop().unwrap();
        assert_eq!(sides, expected_sides);
        roll
    }
}

/// Rolls the same number every time.
struct ConstRoller(u32);

impl Roller for ConstRoller {
    fn roll(&self, _sides: u32) -> u32 {
        self.0
    }
}

fn basic_weapon(abilities: Vec<Ability>) -> Weapon {
    Weapon {
        models: 10,
        attacks: 2.into(),
        to_hit: 3,
        to_wound: 4,
        rend: 1,
        damage: 2.into(),
        abilities,
    }
}

#[test]
fn roll_bonus_no_abilities() {
    let weapon = basic_weapon(vec![]);
    let processor = SimulatedDamageProcessor::new(&weapon, 4);
    let roller = ScriptedRoller::none();
    assert_eq!(processor.roll_bonus(ValueCharacteristic::Attacks.into(), &roller), 0);
}

#[test]
fn roll_bonus_with_abilities() {
    let weapon = basic_weapon(vec![
        Ability::from(Bonus {
            characteristic: ValueCharacteristic::Attacks.into(),
            value: 2.into(),
        }),
        Ability::from(Bonus {
            characteristic: ValueCharacteristic::Damage.into(),
            value: 2.into(),
        }),
        Ability::from(Bonus {
            characteristic: ValueCharacteristic::Attacks.into(),
            value: Dice::d(6).into(),
        }),
    ]);
    let processor = SimulatedDamageProcessor::new(&weapon, 4);
    let roller = ScriptedRoller::new(&[5]);
    assert_eq!(processor.roll_bonus(ValueCharacteristic::Attacks.into(), &roller), 7);
    assert!(roller.is_used_up());
}

#[test]
fn roll_exploding_no_abilities() {
    let weapon = basic_weapon(vec![]);
    let processor = SimulatedDamageProcessor::new(&weapon, 4);
    let target = RollTarget::new(3, 0, Some(2));
    let roller = ScriptedRoller::none();
    assert_eq!(processor.roll_exploding(RollCharacteristic::Hit, 6, target, &roller), 0);
}

fn exploding_with_ability(roll: u32, unmodified: bool) -> u32 {
    let weapon = basic_weapon(vec![Ability::from(Exploding {
        characteristic: RollCharacteristic::Hit,
        on: 6,
        unmodified,
        extra: DiceNotation::from(Dice::d(6)),
    })]);
    let processor = SimulatedDamageProcessor::new(&weapon, 4);
    let target = RollTarget::new(3, 1, Some(2));
    processor.roll_exploding(RollCharacteristic::Hit, roll, target, &ConstRoller(5))
}

#[test]
fn roll_exploding_with_ability_unmodified() {
    assert_eq!(exploding_with_ability(3, true), 0);
    assert_eq!(exploding_with_ability(5, true), 0);
    assert_eq!(exploding_with_ability(6, true), 5);
}

#[test]
fn roll_exploding_with_ability_modified() {
    assert_eq!(exploding_with_ability(3, false), 0);
    assert_eq!(exploding_with_ability(5, false), 5);
    assert_eq!(exploding_with_ability(6, false), 5);
}

#[test]
fn roll_exploding_multiple_abilities() {
    let weapon = basic_weapon(vec![
        Ability::from(Exploding {
            characteristic: RollCharacteristic::Hit,
            on: 5,
            unmodified: true,
            extra: DiceNotation::from(1),
        }),
        Ability::from(Exploding {
            characteristic: RollCharacteristic::Hit,
            on: 6,
            unmodified: true,
            extra: DiceNotation::from(Dice::d(6)),
        }),
        Ability::from(Exploding {
            characteristic: RollCharacteristic::Hit,
            on: 6,
            unmodified: false,
            extra: DiceNotation::from(2),
        }),
    ]);
    let processor = SimulatedDamageProcessor::new(&weapon, 4);
    let target = RollTarget::new(3, 1, Some(2));
    let output =
        processor.roll_exploding(RollCharacteristic::Hit, 5, target, &ScriptedRoller::none());
    assert_eq!(output, 3);
}

#[test]
fn roll_mortal_wounds_no_abilities() {
    let weapon = basic_weapon(vec![]);
    let processor = SimulatedDamageProcessor::new(&weapon, 4);
    let target = RollTarget::new(3, 0, Some(2));
    let roller = ScriptedRoller::none();
    assert_eq!(
        processor.roll_mortal_wounds(RollCharacteristic::Hit, 6, target, &roller),
        (0, true)
    );
}

fn mortal_wounds_output_damage(roll: u32, unmodified: bool) -> u32 {
    let weapon = basic_weapon(vec![Ability::from(MortalWounds {
        characteristic: RollCharacteristic::Hit,
        on: 6,
        unmodified,
        mortals: DiceNotation::from(Dice::d(6)),
        in_addition: false,
    })]);
    let processor = SimulatedDamageProcessor::new(&weapon, 4);
    let target = RollTarget::new(3, 1, Some(2));
    let (output, _) =
        processor.roll_mortal_wounds(RollCharacteristic::Hit, roll, target, &ConstRoller(5));
    output
}

#[test]
fn roll_mortal_wounds_output_damage_unmodified() {
    assert_eq!(mortal_wounds_output_damage(3, true), 0);
    assert_eq!(mortal_wounds_output_damage(5, true), 0);
    assert_eq!(mortal_wounds_output_damage(6, true), 5);
}

#[test]
fn roll_mortal_wounds_output_damage_modified() {
    assert_eq!(mortal_wounds_output_damage(3, false), 0);
    assert_eq!(mortal_wounds_output_damage(5, false), 5);
    assert_eq!(mortal_wounds_output_damage(6, false), 5);
}

fn mortal_wounds_in_addition(roll: u32, in_addition: bool) -> bool {
    let weapon = basic_weapon(vec![Ability::from(MortalWounds {
        characteristic: RollCharacteristic::Hit,
        on: 6,
        unmodified: true,
        mortals: DiceNotation::from(Dice::d(6)),
        in_addition,
    })]);
    let processor = SimulatedDamageProcessor::new(&weapon, 4);
    let target = RollTarget::new(3, 0, Some(2));
    let (_, output) =
        processor.roll_mortal_wounds(RollCharacteristic::Hit, roll, target, &ConstRoller(6));
    output
}

#[test]
fn roll_mortal_wounds_in_addition() {
    assert_eq!(mortal_wounds_in_addition(3, true), true);
    assert_eq!(mortal_wounds_in_addition(6, false), false);
    assert_eq!(mortal_wounds_in_addition(6, true), true);
}

#[test]
fn roll_mortal_wounds_multiple_abilities() {
    let weapon = basic_weapon(vec![
        Ability::from(MortalWounds {
            characteristic: RollCharacteristic::Hit,
            on: 5,
            unmodified: true,
            mortals: DiceNotation::from(1),
            in_addition: false,
        }),
        Ability::from(MortalWounds {
            characteristic: RollCharacteristic::Hit,
            on: 6,
            unmodified: true,
            mortals: DiceNotation::from(Dice::d(6)),
            in_addition: true,
        }),
        Ability::from(MortalWounds {
            characteristic: RollCharacteristic::Hit,
            on: 6,
            unmodified: false,
            mortals: DiceNotation::from(2),
            in_addition: false,
        }),
    ]);
    let processor = SimulatedDamageProcessor::new(&weapon, 4);
    let target = RollTarget::new(3, 1, Some(2));
    let output =
        processor.roll_mortal_wounds(RollCharacteristic::Hit, 5, target, &ScriptedRoller::none());
    assert_eq!(output, (3, false));
}

#[test]
fn damage_with_ward_no_abilities() {
    let weapon = basic_weapon(vec![]);
    let processor = SimulatedDamageProcessor::new(&weapon, 4);
    let roller = ScriptedRoller::none();
    assert_eq!(processor.damage_with_ward(3, &roller), 3);
}

#[test]
fn damage_with_ward_with_ability_found() {
    let weapon = basic_weapon(vec![]);
    let mut processor = SimulatedDamageProcessor::new(&weapon, 4);
    let opponent = Opponent::new(vec![Ward { on: 5 }.into()]);
    processor.opponent(&opponent);

    let roller = ScriptedRoller::new(&[4, 5, 6]);

    assert_eq!(processor.damage_with_ward(3, &roller), 1);
    assert!(roller.is_used_up());
}

#[test]
fn damage_with_ward_out_of_reach_or_certain() {
    let weapon = basic_weapon(vec![]);
    let out_of_reach = Opponent::new(vec![Ward { on: 7 }.into()]);
    let mut processor = SimulatedDamageProcessor::new(&weapon, 4);
    processor.opponent(&out_of_reach);
    assert_eq!(processor.damage_with_ward(3, &ConstRoller(6)), 3);
    let certain = Opponent::new(vec![Ward { on: 1 }.into()]);
    let mut processor = SimulatedDamageProcessor::new(&weapon, 4);
    processor.opponent(&certain);
    assert_eq!(processor.damage_with_ward(3, &ConstRoller(1)), 0);
}

#[test]
fn can_reroll_by_type() {
    let target: RollTarget<u32, i32> = RollTarget::new(4, 1, Some(2));
    // The modified target is 3, the unmodified one 4.
    assert!(!can_reroll(None, 1, &target));
    assert!(can_reroll(Some(RerollType::Any), 1, &target));
    assert!(can_reroll(Some(RerollType::Any), 2, &target));
    assert!(!can_reroll(Some(RerollType::Any), 3, &target));
    assert!(can_reroll(Some(RerollType::Failed), 2, &target));
    assert!(!can_reroll(Some(RerollType::Failed), 3, &target));
    assert!(can_reroll(Some(RerollType::Ones), 1, &target));
    assert!(!can_reroll(Some(RerollType::Ones), 2, &target));
    // With a penalty the modified target is 5: a four fails it, but not the unmodified one.
    let harder: RollTarget<u32, i32> = RollTarget::new(4, -1, Some(2));
    assert!(can_reroll(Some(RerollType::Any), 4, &harder));
    assert!(!can_reroll(Some(RerollType::Failed), 4, &harder));
    assert!(can_reroll(Some(RerollType::Failed), 3, &harder));
}

#[test]
fn phase_outcome_counts_the_roll_unless_it_is_taken() {
    assert_eq!(phase_outcome(0, 0, true), (1, 0));
    assert_eq!(phase_outcome(2, 3, true), (3, 3));
    assert_eq!(phase_outcome(2, 3, false), (2, 3));
    assert_eq!(phase_outcome(0, 4, false), (0, 4));
}

#[test]
fn reroll_type_is_the_most_permissive() {
    let weapon = basic_weapon(vec![
        Ability::from(Reroll {
            characteristic: RollCharacteristic::Hit,
            reroll_type: RerollType::Ones,
        }),
        Ability::from(Reroll {
            characteristic: RollCharacteristic::Hit,
            reroll_type: RerollType::Failed,
        }),
        Ability::from(Reroll {
            characteristic: RollCharacteristic::Wound,
            reroll_type: RerollType::Ones,
        }),
    ]);
    let opponent = Opponent::new(vec![
        SaveReroll { reroll_type: RerollType::Ones }.into(),
        SaveReroll { reroll_type: RerollType::Any }.into(),
    ]);
    let mut processor = SimulatedDamageProcessor::new(&weapon, 4);
    assert_eq!(processor.reroll_type(RerollPhase::Opponent), None);
    processor.opponent(&opponent);
    assert_eq!(
        processor.reroll_type(RerollPhase::Weapon(RollCharacteristic::Hit)),
        Some(RerollType::Failed)
    );
    assert_eq!(
        processor.reroll_type(RerollPhase::Weapon(RollCharacteristic::Wound)),
        Some(RerollType::Ones)
    );
    assert_eq!(processor.reroll_type(RerollPhase::Opponent), Some(RerollType::Any));
}

#[test]
fn roll_with_rerolls_rolls_again_once() {
    let weapon = basic_weapon(vec![Ability::from(Reroll {
        characteristic: RollCharacteristic::Hit,
        reroll_type: RerollType::Any,
    })]);
    let processor = SimulatedDamageProcessor::new(&weapon, 4);
    let target = RollTarget::new(3, 0, Some(2));
    let hit = RerollPhase::Weapon(RollCharacteristic::Hit);
    let roller = ScriptedRoller::new(&[2, 1]);
    assert_eq!(processor.roll_with_rerolls(hit, target, &roller), 1);
    assert!(roller.is_used_up());
    let hit = RerollPhase::Weapon(RollCharacteristic::Hit);
    let roller = ScriptedRoller::new(&[3]);
    assert_eq!(processor.roll_with_rerolls(hit, target, &roller), 3);
    let wound = RerollPhase::Weapon(RollCharacteristic::Wound);
    let roller = ScriptedRoller::new(&[1]);
    assert_eq!(processor.roll_with_rerolls(wound, target, &roller), 1);
}

#[test]
fn roll_phase_fails_succeeds_and_explodes() {
    let weapon = basic_weapon(vec![
        Ability::from(Bonus { characteristic: RollCharacteristic::Hit.into(), value: 1.into() }),
        Ability::from(Exploding {
            characteristic: RollCharacteristic::Hit,
            on: 6,
            unmodified: true,
            extra: 2.into(),
        }),
        Ability::from(MortalWounds {
            characteristic: RollCharacteristic::Hit,
            on: 6,
            unmodified: false,
            mortals: Dice::d(3).into(),
            in_addition: false,
        }),
    ]);
    let processor = SimulatedDamageProcessor::new(&weapon, 4);
    // To hit on three with a bonus of one: a two hits, a one does not.
    assert_eq!(processor.roll_phase(RollCharacteristic::Hit, &ScriptedRoller::new(&[1])), (0, 0));
    assert_eq!(processor.roll_phase(RollCharacteristic::Hit, &ScriptedRoller::new(&[2])), (1, 0));
    // A five meets the modified six of the mortal wounds, which take the place of the hit.
    assert_eq!(
        processor.roll_phase(
            RollCharacteristic::Hit,
            &ScriptedRoller::with_sides(&[(6, 5), (3, 3)])
        ),
        (0, 3)
    );
    // A six also explodes.
    assert_eq!(
        processor.roll_phase(
            RollCharacteristic::Hit,
            &ScriptedRoller::with_sides(&[(6, 6), (3, 2)])
        ),
        (2, 2)
    );
    // To wound on four without abilities.
    assert_eq!(processor.roll_phase(RollCharacteristic::Wound, &ScriptedRoller::new(&[3])), (0, 0));
    assert_eq!(processor.roll_phase(RollCharacteristic::Wound, &ScriptedRoller::new(&[4])), (1, 0));
}

#[test]
fn roll_target_for_a_phase_never_needs_less_than_two() {
    let weapon = basic_weapon(vec![Ability::from(Bonus {
        characteristic: RollCharacteristic::Hit.into(),
        value: 10.into(),
    })]);
    let processor = SimulatedDamageProcessor::new(&weapon, 4);
    assert_eq!(processor.roll_phase(RollCharacteristic::Hit, &ScriptedRoller::new(&[1])), (0, 0));
    assert_eq!(processor.roll_phase(RollCharacteristic::Hit, &ScriptedRoller::new(&[2])), (1, 0));
}

#[test]
fn save_phase_counts_rend() {
    let weapon = basic_weapon(vec![]);
    // A save of four against rend one needs a five.
    let processor = SimulatedDamageProcessor::new(&weapon, 4);
    assert!(!processor.save_phase(&ScriptedRoller::new(&[4])));
    assert!(processor.save_phase(&ScriptedRoller::new(&[5])));
}

#[test]
fn save_phase_with_opponent_abilities() {
    let weapon = basic_weapon(vec![Ability::from(Bonus {
        characteristic: ValueCharacteristic::Rend.into(),
        value: 1.into(),
    })]);
    // Rend two against a save of three with a bonus of one: a four is needed.
    let opponent = Opponent::new(vec![SaveBonus { value: 1.into() }.into()]);
    let mut processor = SimulatedDamageProcessor::new(&weapon, 3);
    processor.opponent(&opponent);
    assert!(!processor.save_phase(&ScriptedRoller::new(&[3])));
    assert!(processor.save_phase(&ScriptedRoller::new(&[4])));
    // An ethereal opponent ignores both.
    let ethereal = Opponent::new(vec![SaveBonus { value: 1.into() }.into(), Ethereal {}.into()]);
    let mut processor = SimulatedDamageProcessor::new(&weapon, 3);
    processor.opponent(&ethereal);
    assert!(!processor.save_phase(&ScriptedRoller::new(&[2])));
    assert!(processor.save_phase(&ScriptedRoller::new(&[3])));
}

#[test]
fn save_phase_bonus_does_not_pass_the_floor() {
    let weapon = Weapon { rend: 0, ..basic_weapon(vec![]) };
    // With a bonus of three a save of four needs no less than a three.
    let opponent = Opponent::new(vec![SaveBonus { value: 3.into() }.into()]);
    let mut processor = SimulatedDamageProcessor::new(&weapon, 4);
    processor.opponent(&opponent);
    assert!(!processor.save_phase(&ScriptedRoller::new(&[2])));
    assert!(processor.save_phase(&ScriptedRoller::new(&[3])));
    // A save of one or two needs no less than a two.
    let processor = SimulatedDamageProcessor::new(&weapon, 1);
    assert!(!processor.save_phase(&ScriptedRoller::new(&[1])));
    assert!(processor.save_phase(&ScriptedRoller::new(&[2])));
    // A save of seven is out of reach without a bonus, one of eight always.
    let processor = SimulatedDamageProcessor::new(&weapon, 7);
    assert!(!processor.save_phase(&ScriptedRoller::new(&[6])));
    let mut processor = SimulatedDamageProcessor::new(&weapon, 7);
    processor.opponent(&opponent);
    assert!(processor.save_phase(&ScriptedRoller::new(&[6])));
    let mut processor = SimulatedDamageProcessor::new(&weapon, 8);
    processor.opponent(&opponent);
    assert!(!processor.save_phase(&ScriptedRoller::new(&[6])));
}

#[test]
fn save_phase_rolls_again_with_a_save_reroll() {
    let weapon = basic_weapon(vec![]);
    let opponent = Opponent::new(vec![SaveReroll { reroll_type: RerollType::Ones }.into()]);
    let mut processor = SimulatedDamageProcessor::new(&weapon, 4);
    processor.opponent(&opponent);
    let roller = ScriptedRoller::new(&[1, 5]);
    assert!(processor.save_phase(&roller));
    assert!(roller.is_used_up());
    let roller = ScriptedRoller::new(&[2]);
    assert!(!processor.save_phase(&roller));
}

#[test]
fn simulate_attack_step_by_step() {
    let weapon = basic_weapon(vec![]);
    let processor = SimulatedDamageProcessor::new(&weapon, 4);
    // Misses.
    assert_eq!(processor.simulate_attack(&ScriptedRoller::new(&[2])), 0);
    // Hits, does not wound.
    assert_eq!(processor.simulate_attack(&ScriptedRoller::new(&[3, 3])), 0);
    // Hits, wounds, is saved.
    assert_eq!(processor.simulate_attack(&ScriptedRoller::new(&[3, 4, 5])), 0);
    // Hits, wounds, is not saved: damage two.
    let roller = ScriptedRoller::new(&[3, 4, 4]);
    assert_eq!(processor.simulate_attack(&roller), 2);
    assert!(roller.is_used_up());
}

#[test]
fn simulate_attack_with_abilities() {
    let weapon = basic_weapon(vec![
        Ability::from(Exploding {
            characteristic: RollCharacteristic::Hit,
            on: 6,
            unmodified: true,
            extra: 1.into(),
        }),
        Ability::from(MortalWounds {
            characteristic: RollCharacteristic::Wound,
            on: 6,
            unmodified: true,
            mortals: 3.into(),
            in_addition: true,
        }),
        Ability::from(Bonus {
            characteristic: ValueCharacteristic::Damage.into(),
            value: Dice::d(3).into(),
        }),
    ]);
    let opponent = Opponent::new(vec![Ward { on: 6 }.into()]);
    let mut processor = SimulatedDamageProcessor::new(&weapon, 4);
    processor.opponent(&opponent);
    // A six to hit gives two hits. The first wounds on a six with three mortal wounds,
    // the second on a four. Neither is saved. The damage of each is two and a roll of
    // one: nine in all, of which the ward takes the last.
    let roller = ScriptedRoller::with_sides(&[
        (6, 6),
        (6, 6),
        (6, 4),
        (6, 1),
        (6, 2),
        (3, 1),
        (6, 1),
        (6, 2),
        (6, 3),
        (6, 4),
        (6, 5),
        (6, 1),
        (6, 2),
        (6, 3),
        (6, 6),
    ]);
    assert_eq!(processor.simulate_attack(&roller), 8);
    assert!(roller.is_used_up());
}

#[test]
fn simulate_attack_rolls_the_ward_for_mortal_wounds_alone() {
    let weapon = basic_weapon(vec![Ability::from(MortalWounds {
        characteristic: RollCharacteristic::Hit,
        on: 6,
        unmodified: true,
        mortals: 2.into(),
        in_addition: false,
    })]);
    let opponent = Opponent::new(vec![Ward { on: 5 }.into()]);
    let mut processor = SimulatedDamageProcessor::new(&weapon, 4);
    processor.opponent(&opponent);
    let roller = ScriptedRoller::new(&[6, 5, 4]);
    assert_eq!(processor.simulate_attack(&roller), 1);
    assert!(roller.is_used_up());
}

#[test]
fn simulate_damage_counts_every_attack() {
    let weapon = Weapon {
        models: 2,
        attacks: Dice::d(3).into(),
        ..basic_weapon(vec![Ability::from(LeaderExtraAttacks { value: 1.into(), models: 1 })])
    };
    let processor = SimulatedDamageProcessor::new(&weapon, 4);
    // Two models with two attacks each and one of the leader; each hits, wounds and is
    // not saved.
    let mut rolls = vec![(3, 2)];
    for _ in 0..5 {
        rolls.extend([(6, 3), (6, 4), (6, 1)]);
    }
    let roller = ScriptedRoller::with_sides(&rolls);
    assert_eq!(processor.simulate_damage(&roller), 10);
    assert!(roller.is_used_up());
}

#[test]
fn simulate_damage_stays_within_its_bound() {
    let weapon = weapons::gotrek::zangrom_thaz();
    let processor = SimulatedDamageProcessor::new(&weapon, 7);
    assert!(processor.is_ready());
    // Six attacks; each deals at most six mortal wounds and three damage.
    assert_eq!(processor.simulate_damage(&ConstRoller(6)), 54);
    assert_eq!(processor.simulate_damage(&ConstRoller(1)), 0);
    // Against a save of three a six saves, and the mortal wounds are left.
    let processor = SimulatedDamageProcessor::new(&weapon, 3);
    assert_eq!(processor.simulate_damage(&ConstRoller(6)), 36);
}

#[test]
fn is_ready_tells_what_cannot_be_simulated() {
    let weapon = basic_weapon(vec![]);
    assert!(SimulatedDamageProcessor::new(&weapon, 4).is_ready());
    assert!(SimulatedDamageProcessor::new(&weapon, 1).is_ready());
    assert!(!SimulatedDamageProcessor::new(&weapon, 0).is_ready());
    let no_models = Weapon { models: 0, ..basic_weapon(vec![]) };
    assert!(!SimulatedDamageProcessor::new(&no_models, 4).is_ready());
    let no_sides = Weapon { damage: Dice::d(0).into(), ..basic_weapon(vec![]) };
    assert!(!SimulatedDamageProcessor::new(&no_sides, 4).is_ready());
    let too_many = Weapon { models: 0xFFFF_FFFF, ..basic_weapon(vec![]) };
    assert!(!SimulatedDamageProcessor::new(&too_many, 4).is_ready());
    let opponent = Opponent::new(vec![SaveBonus { value: Dice::d(0).into() }.into()]);
    let mut processor = SimulatedDamageProcessor::new(&weapon, 4);
    processor.opponent(&opponent);
    assert!(!processor.is_ready());
}

#[test]
fn simulated_mean_is_close_to_the_average() {
    let weapon = weapons::gotrek::zangrom_thaz();
    let processor = SimulatedDamageProcessor::new(&weapon, 3);
    let roller = DiceRoller::default();
    let trials: u32 = 100_000;
    let mut total: u64 = 0;
    for _ in 0..trials {
        total += processor.simulate_damage(&roller) as u64;
    }
    let mean = total as f64 / trials as f64;
    assert!((mean - 14.148).abs() <= 0.5, "mean {}", mean);
}

#[test]
fn dice_roller_rolls_within_the_sides() {
    let roller = DiceRoller::new();
    let mut seen = [false; 6];
    for _ in 0..10_000 {
        let roll = roller.roll(6);
        assert!((1..=6).contains(&roll));
        seen[(roll - 1) as usize] = true;
    }
    assert!(seen.iter().all(|s| *s));
    assert_eq!(roller.roll(1), 1);
}

#[test]
fn roll_bonus_to_a_roll_characteristic() {
    let weapon = basic_weapon(vec![
        Ability::from(Bonus { characteristic: RollCharacteristic::Hit.into(), value: 1.into() }),
        Ability::from(Bonus { characteristic: RollCharacteristic::Wound.into(), value: 2.into() }),
    ]);
    let processor = SimulatedDamageProcessor::new(&weapon, 4);
    let roller = ScriptedRoller::none();
    assert_eq!(processor.roll_bonus(Characteristic::Roll(RollCharacteristic::Hit), &roller), 1);
    assert_eq!(processor.roll_bonus(Characteristic::Roll(RollCharacteristic::Wound), &roller), 2);
}
