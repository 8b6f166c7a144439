//! The average damage of a weapon against every save, as exact fractions.
//!
//! Averages are not whole numbers: a die of six sides gives three and a half, and a roll
//! that needs a four succeeds half of the time. Every number here is therefore a whole
//! number of parts. Twice an average counts halves, a probability counts twelfths (the
//! roll needed may be half a number), and each step of the computation multiplies the
//! parts of its input by a fixed number. The parts of the results are those of
//! `AVERAGE_DENOMINATOR`.
use super::exact::{checked, fits, minus, plus, scaled, times};
use super::results::{ProcessorResults, SaveResult};
use super::roll_target::RollTarget;
use crate::abilities::opponent::OpponentAbility;
use crate::abilities::weapon::Ability;
use crate::abilities::{Characteristic, RerollType, RollCharacteristic, ValueCharacteristic};
use crate::opponent::{highest_save_reroll, highest_ward, Opponent};
use crate::rollable::{at_least_zero, Rollable};
use crate::weapon::{
    highest_reroll, lemma_total_of_floor, lemma_total_of_next, lemma_total_of_part, total_of,
    Weapon,
};
use vstd::prelude::*;

verus! {

/// The chance, in twelfths, that a die of six sides shows at least the roll needed, for a
/// roll needed that is given in halves: that of seven less the roll needed out of six,
/// but neither less than none nor more than all.
pub open spec fn success_twelfths(target: int) -> int {
    if target >= 14 {
        0
    } else if target <= 2 {
        12
    } else {
        14 - target
    }
}

/// The chance, in sixths, that a die of six sides shows at least the whole roll needed.
pub open spec fn success_sixths(target: int) -> int {
    if target >= 7 {
        0
    } else if target <= 1 {
        6
    } else {
        7 - target
    }
}

/// The value of a roll target for averages: the initial value, less the modifier unless
/// the unmodified value is asked for, but not below the floor.
pub open spec fn half_target(
    initial: int,
    modifier: int,
    floor: Option<int>,
    unmodified: bool,
) -> int {
    let raw = if unmodified {
        initial
    } else {
        initial - modifier
    };
    match floor {
        Some(floor) if floor > raw => floor,
        _ => raw,
    }
}

/// How many rolls out of twelve are rolled again, by the rank of the rerolls: with `Any`
/// those that fail against the modified target, with `Failed` those that fail against
/// the unmodified target, with `Ones` one in six, and none without rerolls.
pub open spec fn reroll_twelfths(rank: int, modified: int, unmodified: int) -> int {
    if rank == 2 {
        12 - success_twelfths(modified)
    } else if rank == 1 {
        12 - success_twelfths(unmodified)
    } else if rank == 0 {
        2
    } else {
        0
    }
}

impl RollTarget<i64, i64> {
    /// The value of a target in halves, as a mathematical integer.
    pub open spec fn wide_value(&self, unmodified: bool) -> int {
        half_target(
            self.initial as int,
            self.modifier as int,
            match self.min_value {
                Some(floor) => Some(floor as int),
                None => None,
            },
            unmodified,
        )
    }

    /// The value of a target in halves, in an integer wide enough for any target.
    pub fn value_wide(&self, unmodified: bool) -> (r: i128)
        ensures
            r == self.wide_value(unmodified),
            self.min_value matches Some(floor) ==> r >= floor,
    {
        let raw: i128 = if unmodified {
            self.initial as i128
        } else {
            self.initial as i128 - self.modifier as i128
        };
        match self.min_value {
            Some(floor) => if floor as i128 > raw {
                floor as i128
            } else {
                raw
            },
            None => raw,
        }
    }
}

/// The chance to succeed against a target in halves, in twelfths.
pub fn probability(target: i128) -> (r: i128)
    ensures
        r == success_twelfths(target as int),
        0 <= r <= 12,
{
    if target >= 14 {
        0
    } else if target <= 2 {
        12
    } else {
        14 - target
    }
}

/// The chance to fail against a target in halves, in twelfths.
pub fn inverse_probability(target: i128) -> (r: i128)
    ensures
        r == 12 - success_twelfths(target as int),
        0 <= r <= 12,
{
    12 - probability(target)
}

/// The rolls that are rolled again, in twelfths of the parts of `base`: with `Any` the
/// rolls that fail against the modified target, with `Failed` those that fail against the
/// unmodified target, with `Ones` every sixth roll whatever the target.
pub fn reroll_probability(reroll_type: RerollType, base: i128, target: RollTarget<i64, i64>) -> (r:
    Option<i128>)
    ensures
        r == checked(
            base * reroll_twelfths(
                reroll_type.rank(),
                target.wide_value(false),
                target.wide_value(true),
            ),
        ),
        reroll_type == RerollType::Any ==> r == checked(
            base * (12 - success_twelfths(target.wide_value(false))),
        ),
        reroll_type == RerollType::Failed ==> r == checked(
            base * (12 - success_twelfths(target.wide_value(true))),
        ),
        reroll_type == RerollType::Ones ==> r == checked(base * 2),
{
    match reroll_type {
        RerollType::Any => times(base, inverse_probability(target.value_wide(false))),
        RerollType::Failed => times(base, inverse_probability(target.value_wide(true))),
        RerollType::Ones => times(base, 2),
    }
}

/// The rolls that are rolled again are a sixth of the rolls with `Ones`, whatever the
/// target; with `Any` the rolls that do not succeed against the modified target; with
/// `Failed` the rolls that do not succeed against the unmodified target.
pub proof fn lemma_reroll_shares(modified: int, unmodified: int)
    ensures
        6 * reroll_twelfths(RerollType::Ones.rank(), modified, unmodified) == 12,
        reroll_twelfths(RerollType::Any.rank(), modified, unmodified) == 12 - success_twelfths(
            modified,
        ),
        reroll_twelfths(RerollType::Failed.rank(), modified, unmodified) == 12
            - success_twelfths(unmodified),
{
}

/// The chance, in twelfths, that an ability takes effect: that of a roll of `on` or more,
/// with the modifier of the roll counted unless unmodified rolls are asked for, and never
/// that of less than a two.
pub open spec fn ability_twelfths(on: u32, unmodified: bool, modifier: int) -> int {
    success_twelfths(half_target(2 * on, modifier, Some(4int), unmodified))
}

/// What is added up over the abilities of a weapon.
pub enum Tally {
    /// Twice the averages of the bonuses to a characteristic.
    Bonus(Characteristic),
    /// Twice the average extra attacks of leaders.
    Leader,
    /// The extra hits or wounds of one roll in a phase with the given modifier (in
    /// halves), in parts of 24.
    Exploding(RollCharacteristic, i64),
    /// The mortal wounds of one roll in a phase with the given modifier (in halves), in
    /// parts of 24.
    Mortals(RollCharacteristic, i64),
}

impl Tally {
    /// What the tally counts for one ability.
    pub open spec fn counts(self) -> spec_fn(Ability) -> int {
        |ability: Ability|
            match (self, ability) {
                (Tally::Bonus(c), Ability::Bonus(a)) if a.characteristic == c =>
                    a.value.twice_average(),
                (Tally::Leader, Ability::LeaderExtraAttacks(a)) => a.models
                    * a.value.twice_average(),
                (Tally::Exploding(phase, modifier), Ability::Exploding(a)) if a.characteristic
                    == phase => ability_twelfths(a.on, a.unmodified, modifier as int)
                    * a.extra.twice_average(),
                (Tally::Mortals(phase, modifier), Ability::MortalWounds(a)) if a.characteristic
                    == phase => ability_twelfths(a.on, a.unmodified, modifier as int)
                    * a.mortals.twice_average(),
                _ => 0,
            }
    }

    /// No tally counts less than nothing.
    pub proof fn lemma_counts_floor(self)
        ensures
            forall|ability: Ability| #[trigger] self.counts()(ability) >= 0,
    {
        assert forall|ability: Ability| #[trigger] self.counts()(ability) >= 0 by {
            match (self, ability) {
                (Tally::Leader, Ability::LeaderExtraAttacks(a)) => {
                    assert(a.models * a.value.twice_average() >= 0) by (nonlinear_arith)
                        requires
                            a.models >= 0,
                            a.value.twice_average() >= 0,
                    ;
                },
                (Tally::Exploding(phase, modifier), Ability::Exploding(a)) => {
                    let chance = ability_twelfths(a.on, a.unmodified, modifier as int);
                    assert(chance * a.extra.twice_average() >= 0) by (nonlinear_arith)
                        requires
                            chance >= 0,
                            a.extra.twice_average() >= 0,
                    ;
                },
                (Tally::Mortals(phase, modifier), Ability::MortalWounds(a)) => {
                    let chance = ability_twelfths(a.on, a.unmodified, modifier as int);
                    assert(chance * a.mortals.twice_average() >= 0) by (nonlinear_arith)
                        requires
                            chance >= 0,
                            a.mortals.twice_average() >= 0,
                    ;
                },
                _ => {},
            }
        }
    }
}

/// The chance, in twelfths, that an ability takes effect.
fn ability_probability(on: u32, unmodified: bool, modifier: i64) -> (r: i128)
    ensures
        r == ability_twelfths(on, unmodified, modifier as int),
        0 <= r <= 12,
{
    let target = RollTarget::new(2 * (on as i64), modifier, Some(4i64));
    probability(target.value_wide(unmodified))
}

/// What a tally counts for one ability.
fn count(ability: &Ability, tally: &Tally) -> (r: Option<i128>)
    ensures
        r == checked(tally.counts()(*ability)),
        tally.counts()(*ability) >= 0,
{
    proof {
        tally.lemma_counts_floor();
    }
    match (tally, ability) {
        (Tally::Bonus(c), Ability::Bonus(a)) => {
            if a.characteristic == *c {
                scaled(1, a.value.average_doubled_wide())
            } else {
                Some(0)
            }
        },
        (Tally::Leader, Ability::LeaderExtraAttacks(a)) => scaled(
            a.models as u128,
            a.value.average_doubled_wide(),
        ),
        (Tally::Exploding(phase, modifier), Ability::Exploding(a)) => {
            if a.characteristic == *phase {
                scaled(
                    ability_probability(a.on, a.unmodified, *modifier) as u128,
                    a.extra.average_doubled_wide(),
                )
            } else {
                Some(0)
            }
        },
        (Tally::Mortals(phase, modifier), Ability::MortalWounds(a)) => {
            if a.characteristic == *phase {
                scaled(
                    ability_probability(a.on, a.unmodified, *modifier) as u128,
                    a.mortals.average_doubled_wide(),
                )
            } else {
                Some(0)
            }
        },
        _ => Some(0),
    }
}

/// The sum of what a tally counts for the abilities.
fn total(abilities: &Vec<Ability>, tally: Tally) -> (r: Option<i128>)
    ensures
        r == checked(total_of(abilities@, tally.counts())),
        total_of(abilities@, tally.counts()) >= 0,
{
    let ghost counts = tally.counts();
    proof {
        tally.lemma_counts_floor();
        lemma_total_of_floor(abilities@, counts);
    }
    let mut sum: i128 = 0;
    let mut i: usize = 0;
    while i < abilities.len()
        invariant
            i <= abilities.len(),
            counts == tally.counts(),
            forall|ability: Ability| #[trigger] counts(ability) >= 0,
            sum == total_of(abilities@.take(i as int), counts),
        decreases abilities.len() - i,
    {
        proof {
            lemma_total_of_next(abilities@, i as int, counts);
            lemma_total_of_part(abilities@, i as int, counts);
            lemma_total_of_part(abilities@, i + 1, counts);
        }
        let more = match count(&abilities[i], &tally) {
            Some(more) => more,
            None => {
                return None;
            },
        };
        sum = match plus(sum, more) {
            Some(sum) => sum,
            None => {
                return None;
            },
        };
        i = i + 1;
    }
    assert(abilities@.take(i as int) =~= abilities@);
    Some(sum)
}

/// The highest chance, in twelfths, among the mortal wounds of a phase that take the
/// place of the hit or wound; none where there are no such mortal wounds.
pub open spec fn taken_twelfths(
    abilities: Seq<Ability>,
    phase: RollCharacteristic,
    modifier: int,
) -> int
    decreases abilities.len(),
{
    if abilities.len() == 0 {
        0
    } else {
        let before = taken_twelfths(abilities.drop_last(), phase, modifier);
        match abilities.last() {
            Ability::MortalWounds(a) if a.characteristic == phase && !a.in_addition
                && ability_twelfths(a.on, a.unmodified, modifier) > before => ability_twelfths(
                a.on,
                a.unmodified,
                modifier,
            ),
            _ => before,
        }
    }
}

/// The sum of twice the average save bonuses of the given abilities.
pub open spec fn twice_save_bonus(abilities: Seq<OpponentAbility>) -> int
    decreases abilities.len(),
{
    if abilities.len() == 0 {
        0
    } else {
        twice_save_bonus(abilities.drop_last()) + match abilities.last() {
            OpponentAbility::SaveBonus(a) => a.value.twice_average(),
            _ => 0,
        }
    }
}

/// The save bonuses of a part of the abilities are at most those of all, and not below
/// zero.
pub proof fn lemma_twice_save_bonus_part(abilities: Seq<OpponentAbility>, i: int)
    requires
        0 <= i <= abilities.len(),
    ensures
        0 <= twice_save_bonus(abilities.take(i)) <= twice_save_bonus(abilities),
    decreases abilities.len() - i,
{
    if i < abilities.len() {
        assert(abilities.take(i + 1).drop_last() =~= abilities.take(i));
        lemma_twice_save_bonus_part(abilities, i + 1);
        lemma_twice_save_bonus_floor(abilities.take(i));
    } else {
        assert(abilities.take(i) =~= abilities);
        lemma_twice_save_bonus_floor(abilities);
    }
}

/// No sum of save bonuses is below zero.
pub proof fn lemma_twice_save_bonus_floor(abilities: Seq<OpponentAbility>)
    ensures
        0 <= twice_save_bonus(abilities),
    decreases abilities.len(),
{
    if abilities.len() > 0 {
        lemma_twice_save_bonus_floor(abilities.drop_last());
    }
}

/// Computes the average damage of a weapon.
#[derive(Debug)]
pub struct AverageDamageProcessor<'a> {
    pub weapon: &'a Weapon,
    pub opponent: Option<&'a Opponent>,
}

impl<'a> AverageDamageProcessor<'a> {
    pub fn new(weapon: &'a Weapon) -> (r: Self)
        ensures
            r == (AverageDamageProcessor { weapon, opponent: None }),
    {
        Self { weapon, opponent: None }
    }

    /// Sets the opponent that is attacked.
    pub fn opponent(&mut self, opponent: &'a Opponent) -> (r: &mut Self)
        ensures
            *r == (AverageDamageProcessor { opponent: Some(opponent), ..*old(self) }),
            *final(self) == *final(r),
    {
        self.opponent = Some(opponent);
        self
    }

    /// Twice the average bonus to a characteristic.
    pub open spec fn twice_bonus(&self, characteristic: Characteristic) -> int {
        total_of(self.weapon.abilities@, Tally::Bonus(characteristic).counts())
    }

    /// Twice the average bonus to a characteristic.
    pub fn average_bonus(&self, characteristic: Characteristic) -> (r: Option<i128>)
        ensures
            r == checked(self.twice_bonus(characteristic)),
            self.twice_bonus(characteristic) >= 0,
    {
        total(&self.weapon.abilities, Tally::Bonus(characteristic))
    }

    /// Twice the average attacks of one model.
    pub open spec fn model_attacks_value(&self) -> int {
        self.weapon.attacks.twice_average() + self.twice_bonus(
            Characteristic::Value(ValueCharacteristic::Attacks),
        )
    }

    /// Twice the average extra attacks of leaders.
    pub open spec fn leader_attacks_value(&self) -> int {
        total_of(self.weapon.abilities@, Tally::Leader.counts())
    }

    /// Twice the average attacks: those of every model, with the bonuses, and those of
    /// leaders.
    pub open spec fn attacks_value(&self) -> int {
        self.weapon.models * self.model_attacks_value() + self.leader_attacks_value()
    }

    /// Whether the numbers of the average attacks stay within 128 bits.
    pub open spec fn attacks_fit(&self) -> bool {
        &&& fits(self.weapon.attacks.twice_average())
        &&& fits(self.twice_bonus(Characteristic::Value(ValueCharacteristic::Attacks)))
        &&& fits(self.model_attacks_value())
        &&& fits(self.weapon.models * self.model_attacks_value())
        &&& fits(self.leader_attacks_value())
        &&& fits(self.attacks_value())
    }

    /// Twice the average attacks.
    pub fn average_attacks(&self) -> (r: Option<i128>)
        ensures
            r == if self.attacks_fit() {
                Some(self.attacks_value() as i128)
            } else {
                None::<i128>
            },
    {
        let attacks = scaled(1, self.weapon.attacks.average_doubled_wide())?;
        let bonus = self.average_bonus(Characteristic::Value(ValueCharacteristic::Attacks))?;
        let per_model = plus(attacks, bonus)?;
        let of_models = times(self.weapon.models as i128, per_model)?;
        let of_leaders = total(&self.weapon.abilities, Tally::Leader)?;
        plus(of_models, of_leaders)
    }

    /// The chance, in sixths, that the ward of the opponent takes a point of damage; none
    /// without a ward.
    pub open spec fn ward_sixths(&self) -> int {
        match self.opponent {
            Some(opponent) => if highest_ward(opponent.abilities@) >= 0 {
                success_sixths(highest_ward(opponent.abilities@))
            } else {
                0
            },
            None => 0,
        }
    }

    /// The damage that the ward takes on average, in sixths of the parts of `damage`.
    pub fn average_ward_saves(&self, damage: i128) -> (r: Option<i128>)
        ensures
            r == checked(damage * self.ward_sixths()),
            0 <= self.ward_sixths() <= 6,
    {
        let ward = match self.opponent {
            Some(opponent) => opponent.ward(),
            None => None,
        };
        match ward {
            Some(ward) => {
                let chance: i128 = if ward.on >= 7 {
                    0
                } else if ward.on <= 1 {
                    6
                } else {
                    7 - ward.on as i128
                };
                times(damage, chance)
            },
            None => {
                assert(damage * 0 == 0);
                Some(0)
            },
        }
    }

    /// The extra hits or wounds of the given rolls, in 24 parts of theirs.
    pub open spec fn exploding_value(
        &self,
        phase: RollCharacteristic,
        base: int,
        modifier: i64,
    ) -> int {
        base * total_of(self.weapon.abilities@, Tally::Exploding(phase, modifier).counts())
    }

    /// Whether the numbers of the extra hits or wounds stay within 128 bits.
    pub open spec fn exploding_fits(
        &self,
        phase: RollCharacteristic,
        base: int,
        modifier: i64,
    ) -> bool {
        &&& fits(total_of(self.weapon.abilities@, Tally::Exploding(phase, modifier).counts()))
        &&& fits(self.exploding_value(phase, base, modifier))
    }

    /// The average extra hits or wounds that the exploding abilities of a phase give to
    /// the given rolls, in 24 parts of theirs: for each ability the rolls, by the chance
    /// that it takes effect, by its extra hits or wounds.
    pub fn average_exploding(
        &self,
        phase: RollCharacteristic,
        base: i128,
        target: RollTarget<i64, i64>,
    ) -> (r: Option<i128>)
        ensures
            r == if self.exploding_fits(phase, base as int, target.modifier) {
                Some(self.exploding_value(phase, base as int, target.modifier) as i128)
            } else {
                None::<i128>
            },
    {
        let each = total(&self.weapon.abilities, Tally::Exploding(phase, target.modifier))?;
        times(base, each)
    }

    /// The average mortal wounds of the given rolls before the ward, in 24 parts of theirs.
    pub open spec fn mortals_value(
        &self,
        phase: RollCharacteristic,
        base: int,
        modifier: i64,
    ) -> int {
        base * total_of(self.weapon.abilities@, Tally::Mortals(phase, modifier).counts())
    }

    /// The average damage of the mortal wounds of the given rolls, in 144 parts of theirs:
    /// what the ward leaves of them.
    pub open spec fn mortal_damage_value(
        &self,
        phase: RollCharacteristic,
        base: int,
        modifier: i64,
    ) -> int {
        self.mortals_value(phase, base, modifier) * 6 - self.mortals_value(phase, base, modifier)
            * self.ward_sixths()
    }

    /// The rolls that mortal wounds take the place of, in twelve parts of the given rolls:
    /// as many as the likeliest of those mortal wounds takes.
    pub open spec fn reduction_value(
        &self,
        phase: RollCharacteristic,
        base: int,
        modifier: i64,
    ) -> int {
        let taken = base * taken_twelfths(self.weapon.abilities@, phase, modifier as int);
        if taken > 0 {
            taken
        } else {
            0
        }
    }

    /// Whether the numbers of the mortal wounds stay within 128 bits.
    pub open spec fn mortal_wounds_fit(
        &self,
        phase: RollCharacteristic,
        base: int,
        modifier: i64,
    ) -> bool {
        &&& fits(total_of(self.weapon.abilities@, Tally::Mortals(phase, modifier).counts()))
        &&& fits(self.mortals_value(phase, base, modifier))
        &&& fits(self.mortals_value(phase, base, modifier) * 6)
        &&& fits(self.mortals_value(phase, base, modifier) * self.ward_sixths())
        &&& fits(self.mortal_damage_value(phase, base, modifier))
        &&& fits(base * taken_twelfths(self.weapon.abilities@, phase, modifier as int))
    }

    /// The highest chance among the mortal wounds that take the place of a hit or wound.
    fn taken_probability(&self, phase: RollCharacteristic, modifier: i64) -> (r: i128)
        ensures
            r == taken_twelfths(self.weapon.abilities@, phase, modifier as int),
            0 <= r <= 12,
    {
        let abilities = &self.weapon.abilities;
        let mut highest: i128 = 0;
        let mut i: usize = 0;
        while i < abilities.len()
            invariant
                i <= abilities.len(),
                highest == taken_twelfths(abilities@.take(i as int), phase, modifier as int),
                0 <= highest <= 12,
            decreases abilities.len() - i,
        {
            assert(abilities@.take(i + 1).drop_last() =~= abilities@.take(i as int));
            match &abilities[i] {
                Ability::MortalWounds(a) => {
                    if a.characteristic == phase && !a.in_addition {
                        let chance = ability_probability(a.on, a.unmodified, modifier);
                        if chance > highest {
                            highest = chance;
                        }
                    }
                },
                _ => {},
            }
            i = i + 1;
        }
        assert(abilities@.take(i as int) =~= abilities@);
        highest
    }

    /// The average damage of the mortal wounds that the given rolls deal in a phase, in
    /// 144 parts of theirs, and the rolls that mortal wounds take the place of, in twelve
    /// parts of theirs.
    pub fn mortal_wounds(
        &self,
        phase: RollCharacteristic,
        base: i128,
        target: RollTarget<i64, i64>,
    ) -> (r: Option<(i128, i128)>)
        ensures
            r == if self.mortal_wounds_fit(phase, base as int, target.modifier) {
                Some(
                    (
                        self.mortal_damage_value(phase, base as int, target.modifier) as i128,
                        self.reduction_value(phase, base as int, target.modifier) as i128,
                    ),
                )
            } else {
                None::<(i128, i128)>
            },
    {
        let each = total(&self.weapon.abilities, Tally::Mortals(phase, target.modifier))?;
        let mortals = times(base, each)?;
        let all = times(mortals, 6)?;
        let warded = self.average_ward_saves(mortals)?;
        let damage = minus(all, warded)?;
        let taken = times(base, self.taken_probability(phase, target.modifier))?;
        let reduction = if taken > 0 {
            taken
        } else {
            0
        };
        Some((damage, reduction))
    }

    /// The roll needed in a phase, in halves.
    pub open spec fn needed_value(&self, phase: RollCharacteristic, unmodified: bool) -> int {
        half_target(
            2 * self.weapon.needed(phase),
            self.twice_bonus(Characteristic::Roll(phase)),
            Some(4int),
            unmodified,
        )
    }

    /// The rolls of a phase, in twelve parts of the given ones: the given rolls and
    /// those that are rolled again.
    pub open spec fn rolls_value(&self, phase: RollCharacteristic, base: int) -> int {
        base * 12 + base * reroll_twelfths(
            highest_reroll(self.weapon.abilities@, phase),
            self.needed_value(phase, false),
            self.needed_value(phase, true),
        )
    }

    /// The hits or wounds of a phase, in 288 parts of the given rolls: the rolls that
    /// succeed, the extra ones of exploding abilities, less those that mortal wounds take
    /// the place of; none where mortal wounds take the place of more than there are.
    pub open spec fn successes_value(&self, phase: RollCharacteristic, base: int) -> int {
        at_least_zero(self.net_successes_value(phase, base))
    }

    /// The rolls of a phase that succeed and the extra ones of exploding abilities, less
    /// those that mortal wounds take the place of, in 288 parts of the given rolls. This
    /// falls below zero where mortal wounds take the place of more than there are.
    pub open spec fn net_successes_value(&self, phase: RollCharacteristic, base: int) -> int {
        let modifier = self.twice_bonus(Characteristic::Roll(phase)) as i64;
        let rolls = self.rolls_value(phase, base);
        rolls * success_twelfths(self.needed_value(phase, false)) * 2 + self.exploding_value(
            phase,
            rolls,
            modifier,
        ) - self.reduction_value(phase, rolls, modifier) * 2
    }

    /// The damage of the mortal wounds of a phase, in 1728 parts of the given rolls.
    pub open spec fn phase_mortals_value(&self, phase: RollCharacteristic, base: int) -> int {
        self.mortal_damage_value(
            phase,
            self.rolls_value(phase, base),
            self.twice_bonus(Characteristic::Roll(phase)) as i64,
        )
    }

    /// Whether the numbers of a phase stay within 128 bits, the bonus to the roll within
    /// 64 bits.
    pub open spec fn phase_fits(&self, phase: RollCharacteristic, base: int) -> bool {
        let bonus = self.twice_bonus(Characteristic::Roll(phase));
        let modifier = bonus as i64;
        let again = base * reroll_twelfths(
            highest_reroll(self.weapon.abilities@, phase),
            self.needed_value(phase, false),
            self.needed_value(phase, true),
        );
        let rolls = self.rolls_value(phase, base);
        let hits = rolls * success_twelfths(self.needed_value(phase, false));
        &&& bonus <= i64::MAX
        &&& fits(again)
        &&& fits(base * 12)
        &&& fits(rolls)
        &&& fits(hits)
        &&& fits(hits * 2)
        &&& self.exploding_fits(phase, rolls, modifier)
        &&& self.mortal_wounds_fit(phase, rolls, modifier)
        &&& fits(hits * 2 + self.exploding_value(phase, rolls, modifier))
        &&& fits(self.reduction_value(phase, rolls, modifier) * 2)
        &&& fits(self.net_successes_value(phase, base))
    }

    /// One phase of rolls, to hit or to wound: the average hits or wounds that the given
    /// rolls give, in 288 parts of theirs, and the average damage of the mortal wounds
    /// that they deal, in 1728 parts of theirs.
    pub fn roll_phase(&self, base: i128, phase: RollCharacteristic) -> (r: Option<(i128, i128)>)
        ensures
            r == if self.phase_fits(phase, base as int) {
                Some(
                    (
                        self.successes_value(phase, base as int) as i128,
                        self.phase_mortals_value(phase, base as int) as i128,
                    ),
                )
            } else {
                None::<(i128, i128)>
            },
    {
        let needed = match phase {
            RollCharacteristic::Hit => self.weapon.to_hit,
            RollCharacteristic::Wound => self.weapon.to_wound,
        };
        let bonus = self.average_bonus(Characteristic::Roll(phase))?;
        if bonus > i64::MAX as i128 {
            return None;
        }
        let target = RollTarget::new(2 * (needed as i64), bonus as i64, Some(4i64));
        let again = match self.weapon.reroll_ability(phase) {
            Some(ability) => reroll_probability(ability.reroll_type, base, target)?,
            None => {
                assert(base * 0 == 0);
                0
            },
        };
        let rolls = plus(times(base, 12)?, again)?;
        let hits = times(times(rolls, probability(target.value_wide(false)))?, 2)?;
        let extra = self.average_exploding(phase, rolls, target)?;
        let (mortal_damage, reduction) = self.mortal_wounds(phase, rolls, target)?;
        let net = minus(plus(hits, extra)?, times(reduction, 2)?)?;
        let result = if net < 0 {
            0
        } else {
            net
        };
        Some((result, mortal_damage))
    }

    /// Whether the opponent ignores the modifiers to its save.
    pub open spec fn ignores_modifiers(&self) -> bool {
        match self.opponent {
            Some(opponent) => exists|i: int|
                0 <= i < opponent.abilities@.len() && #[trigger] opponent.abilities@[i] is Ethereal,
            None => false,
        }
    }

    /// Twice the rend of the weapon with its average bonus.
    pub open spec fn rend_value(&self) -> int {
        2 * self.weapon.rend + self.twice_bonus(Characteristic::Value(ValueCharacteristic::Rend))
    }

    /// Twice the average save bonus of the opponent.
    pub open spec fn save_bonus_value(&self) -> int {
        match self.opponent {
            Some(opponent) => twice_save_bonus(opponent.abilities@),
            None => 0,
        }
    }

    /// What makes the save easier, in halves: the save bonus less the rend, or nothing
    /// for an opponent that ignores modifiers.
    pub open spec fn save_modifier_value(&self) -> int {
        if self.ignores_modifiers() {
            0
        } else {
            self.save_bonus_value() - self.rend_value()
        }
    }

    /// The floor of the roll needed to save, in halves: one less than the save, but not
    /// less than two.
    pub open spec fn save_floor(save: int) -> int {
        if save - 1 > 2 {
            2 * (save - 1)
        } else {
            4
        }
    }

    /// The roll needed to save, in halves.
    pub open spec fn save_needed_value(&self, save: int, unmodified: bool) -> int {
        half_target(
            2 * save,
            self.save_modifier_value(),
            Some(Self::save_floor(save)),
            unmodified,
        )
    }

    /// The rank of the save rerolls of the opponent, or -1 without any.
    pub open spec fn save_reroll_rank(&self) -> int {
        match self.opponent {
            Some(opponent) => highest_save_reroll(opponent.abilities@),
            None => -1,
        }
    }

    /// The save rolls, in twelve parts of the given wounds: one for each wound, and
    /// those that are rolled again.
    pub open spec fn save_rolls_value(&self, wounds: int, save: int) -> int {
        wounds * 12 + wounds * reroll_twelfths(
            self.save_reroll_rank(),
            self.save_needed_value(save, false),
            self.save_needed_value(save, true),
        )
    }

    /// The wounds that are not saved, in 144 parts of the given wounds: the wounds less
    /// the save rolls that succeed; none where more save rolls succeed than there are
    /// wounds.
    pub open spec fn unsaved_value(&self, wounds: int, save: int) -> int {
        at_least_zero(self.net_unsaved_value(wounds, save))
    }

    /// The wounds less the save rolls that succeed, in 144 parts of the given wounds.
    /// This falls below zero where so many saves are rolled again that more succeed than
    /// there are wounds.
    pub open spec fn net_unsaved_value(&self, wounds: int, save: int) -> int {
        wounds * 144 - self.save_rolls_value(wounds, save) * success_twelfths(
            self.save_needed_value(save, false),
        )
    }

    /// Whether the numbers of the save stay within 128 bits, and its modifier within 64
    /// bits.
    pub open spec fn save_fits(&self, wounds: int, save: int) -> bool {
        let again = wounds * reroll_twelfths(
            self.save_reroll_rank(),
            self.save_needed_value(save, false),
            self.save_needed_value(save, true),
        );
        &&& !self.ignores_modifiers() ==> {
            &&& fits(self.twice_bonus(Characteristic::Value(ValueCharacteristic::Rend)))
            &&& fits(self.rend_value())
            &&& fits(self.save_bonus_value())
            &&& i64::MIN <= self.save_modifier_value() <= i64::MAX
        }
        &&& fits(again)
        &&& fits(wounds * 12)
        &&& fits(self.save_rolls_value(wounds, save))
        &&& fits(
            self.save_rolls_value(wounds, save) * success_twelfths(
                self.save_needed_value(save, false),
            ),
        )
        &&& fits(wounds * 144)
        &&& fits(self.net_unsaved_value(wounds, save))
    }

    /// Twice the average save bonus of the opponent.
    fn average_save_bonus(&self) -> (r: Option<i128>)
        ensures
            r == checked(self.save_bonus_value()),
            self.save_bonus_value() >= 0,
    {
        match self.opponent {
            None => Some(0),
            Some(opponent) => {
                let abilities = &opponent.abilities;
                proof {
                    lemma_twice_save_bonus_part(abilities@, 0);
                }
                let mut sum: i128 = 0;
                let mut i: usize = 0;
                while i < abilities.len()
                    invariant
                        i <= abilities.len(),
                        self.opponent == Some(opponent),
                        abilities == &opponent.abilities,
                        sum == twice_save_bonus(abilities@.take(i as int)),
                        0 <= twice_save_bonus(abilities@),
                    decreases abilities.len() - i,
                {
                    proof {
                        assert(abilities@.take(i + 1).drop_last() =~= abilities@.take(i as int));
                        lemma_twice_save_bonus_part(abilities@, i as int);
                        lemma_twice_save_bonus_part(abilities@, i + 1);
                    }
                    match &abilities[i] {
                        OpponentAbility::SaveBonus(a) => {
                            let more = match scaled(1, a.value.average_doubled_wide()) {
                                Some(more) => more,
                                None => {
                                    return None;
                                },
                            };
                            sum = match plus(sum, more) {
                                Some(sum) => sum,
                                None => {
                                    return None;
                                },
                            };
                        },
                        _ => {},
                    }
                    i = i + 1;
                }
                assert(abilities@.take(i as int) =~= abilities@);
                Some(sum)
            },
        }
    }

    /// The save rolls: the average wounds that are not saved, in 144 parts of the given
    /// wounds. Rend makes the save harder and a save bonus makes it easier, unless the
    /// opponent ignores modifiers. Failed saves are rolled again as the save rerolls of
    /// the opponent allow.
    pub fn save_phase(&self, wounds: i128, save: u32) -> (r: Option<i128>)
        requires
            save >= 1,
        ensures
            r == if self.save_fits(wounds as int, save as int) {
                Some(self.unsaved_value(wounds as int, save as int) as i128)
            } else {
                None::<i128>
            },
    {
        let floor: i64 = if save - 1 > 2 {
            2 * (save as i64 - 1)
        } else {
            4
        };
        let ethereal = match self.opponent {
            Some(opponent) => opponent.is_ethereal(),
            None => false,
        };
        let mut modifier: i64 = 0;
        if !ethereal {
            let bonus = self.average_bonus(Characteristic::Value(ValueCharacteristic::Rend))?;
            let rend = plus(2 * (self.weapon.rend as i128), bonus)?;
            let easier = self.average_save_bonus()?;
            let change = easier - rend;
            if change < i64::MIN as i128 || change > i64::MAX as i128 {
                return None;
            }
            modifier = change as i64;
        }
        let target = RollTarget::new(2 * (save as i64), modifier, Some(floor));
        let reroll = match self.opponent {
            Some(opponent) => opponent.reroll_ability(),
            None => None,
        };
        let again = match reroll {
            Some(ability) => reroll_probability(ability.reroll_type, wounds, target)?,
            None => {
                assert(wounds * 0 == 0);
                0
            },
        };
        let rolls = plus(times(wounds, 12)?, again)?;
        let saved = times(rolls, probability(target.value_wide(false)))?;
        let left = minus(times(wounds, 144)?, saved)?;
        Some(
            if left < 0 {
                0
            } else {
                left
            },
        )
    }

    /// Twice the average damage of one wound.
    pub open spec fn wound_damage_value(&self) -> int {
        self.weapon.damage.twice_average() + self.twice_bonus(
            Characteristic::Value(ValueCharacteristic::Damage),
        )
    }

    /// The damage of the given wounds, in twelve parts of theirs: what the ward leaves of
    /// the damage of each.
    pub open spec fn damage_value(&self, wounds: int) -> int {
        wounds * self.wound_damage_value() * 6 - wounds * self.wound_damage_value()
            * self.ward_sixths()
    }

    /// Whether the numbers of the damage stay within 128 bits.
    pub open spec fn damage_fits(&self, wounds: int) -> bool {
        &&& fits(self.weapon.damage.twice_average())
        &&& fits(self.twice_bonus(Characteristic::Value(ValueCharacteristic::Damage)))
        &&& fits(self.wound_damage_value())
        &&& fits(wounds * self.wound_damage_value())
        &&& fits(wounds * self.wound_damage_value() * 6)
        &&& fits(wounds * self.wound_damage_value() * self.ward_sixths())
        &&& fits(self.damage_value(wounds))
    }

    /// The average damage of the given wounds, in twelve parts of theirs.
    pub fn damage_phase(&self, wounds: i128) -> (r: Option<i128>)
        ensures
            r == if self.damage_fits(wounds as int) {
                Some(self.damage_value(wounds as int) as i128)
            } else {
                None::<i128>
            },
    {
        let of_weapon = scaled(1, self.weapon.damage.average_doubled_wide())?;
        let bonus = self.average_bonus(Characteristic::Value(ValueCharacteristic::Damage))?;
        let per_wound = plus(of_weapon, bonus)?;
        let damage = times(wounds, per_wound)?;
        let all = times(damage, 6)?;
        let warded = self.average_ward_saves(damage)?;
        minus(all, warded)
    }

    /// The average hits, in parts of 576.
    pub open spec fn hits_value(&self) -> int {
        self.successes_value(RollCharacteristic::Hit, self.attacks_value())
    }

    /// The average wounds, in parts of 165888.
    pub open spec fn wounds_value(&self) -> int {
        self.successes_value(RollCharacteristic::Wound, self.hits_value())
    }

    /// The average damage of all mortal wounds, in parts of `AVERAGE_DENOMINATOR`.
    pub open spec fn mortals_total_value(&self) -> int {
        self.phase_mortals_value(RollCharacteristic::Hit, self.attacks_value()) * 82944
            + self.phase_mortals_value(RollCharacteristic::Wound, self.hits_value()) * 288
    }

    /// The average damage against a save, in parts of `AVERAGE_DENOMINATOR`: the damage
    /// of the wounds that are not saved, and that of the mortal wounds, which no save
    /// is rolled for.
    pub open spec fn average_value(&self, save: int) -> int {
        self.damage_value(self.unsaved_value(self.wounds_value(), save))
            + self.mortals_total_value()
    }

    /// Whether the numbers of the average damage against a save stay within 128 bits.
    pub open spec fn average_fits_for(&self, save: int) -> bool {
        &&& self.save_fits(self.wounds_value(), save)
        &&& self.damage_fits(self.unsaved_value(self.wounds_value(), save))
        &&& fits(self.average_value(save))
    }

    /// Whether the numbers of the computation stay within 128 bits up to the save rolls.
    pub open spec fn wounds_fit(&self) -> bool {
        &&& self.attacks_fit()
        &&& self.phase_fits(RollCharacteristic::Hit, self.attacks_value())
        &&& self.phase_fits(RollCharacteristic::Wound, self.hits_value())
        &&& fits(self.phase_mortals_value(RollCharacteristic::Hit, self.attacks_value()) * 82944)
        &&& fits(self.phase_mortals_value(RollCharacteristic::Wound, self.hits_value()) * 288)
        &&& fits(self.mortals_total_value())
    }

    /// Whether the average damage can be computed: whether the numbers of the
    /// computation stay within 128 bits.
    pub open spec fn can_average(&self) -> bool {
        &&& self.wounds_fit()
        &&& forall|save: int| 1 <= save <= 7 ==> #[trigger] self.average_fits_for(save)
    }

    /// The average damage of the weapon against each save, or nothing where the numbers
    /// of the computation leave 128 bits.
    pub fn checked_average_damage(&self) -> (r: Option<ProcessorResults>)
        ensures
            r is Some <==> self.can_average(),
            r matches Some(results) ==> results.has_saves() && forall|save: int|
                1 <= save <= 7 ==> #[trigger] results.value_for(save) == self.average_value(save),
    {
        let attacks = self.average_attacks()?;
        let (hits, hit_mortals) = self.roll_phase(attacks, RollCharacteristic::Hit)?;
        let (wounds, wound_mortals) = self.roll_phase(hits, RollCharacteristic::Wound)?;
        let mortals = plus(times(hit_mortals, 82944)?, times(wound_mortals, 288)?)?;
        let mut results = ProcessorResults::new();
        let mut i: usize = 0;
        while i < 7
            invariant
                i <= 7,
                self.wounds_fit(),
                wounds == self.wounds_value(),
                mortals == self.mortals_total_value(),
                results.has_saves(),
                forall|save: int| 1 <= save <= i ==> #[trigger] self.average_fits_for(save),
                forall|save: int|
                    1 <= save <= i ==> #[trigger] results.value_for(save) == self.average_value(
                        save,
                    ),
            decreases 7 - i,
        {
            let save = results.save_results[i].save;
            let unsaved = match self.save_phase(wounds, save) {
                Some(unsaved) => unsaved,
                None => {
                    assert(!self.average_fits_for(i + 1));
                    return None;
                },
            };
            let damage = match self.damage_phase(unsaved) {
                Some(damage) => damage,
                None => {
                    assert(!self.average_fits_for(i + 1));
                    return None;
                },
            };
            let value = match plus(damage, mortals) {
                Some(value) => value,
                None => {
                    assert(!self.average_fits_for(i + 1));
                    return None;
                },
            };
            let ghost before = results;
            results.save_results[i] = SaveResult::new(save, value);
            proof {
                assert(self.average_fits_for(i + 1));
                assert forall|s: int| 1 <= s <= i + 1 implies #[trigger] results.value_for(s)
                    == self.average_value(s) by {
                    if s <= i {
                        assert(results.save_results@[s - 1] == before.save_results@[s - 1]);
                        assert(before.value_for(s) == self.average_value(s));
                    }
                }
                assert forall|j: int| 0 <= j < 7 implies (#[trigger] results.save_results@[j]).save
                    == j + 1 by {
                    if j != i {
                        assert(results.save_results@[j] == before.save_results@[j]);
                    }
                }
            }
            i = i + 1;
        }
        Some(results)
    }

    /// The average damage of the weapon against each save.
    pub fn average_damage(&self) -> (r: ProcessorResults)
        requires
            self.can_average(),
        ensures
            r.has_saves(),
            forall|save: int|
                1 <= save <= 7 ==> #[trigger] r.value_for(save) == self.average_value(save),
    {
        self.checked_average_damage().unwrap()
    }
}

/// The wounds that are left do not get fewer as a save succeeds less often.
proof fn lemma_fewer_saved(wounds: int, often: int, seldom: int)
    requires
        wounds >= 0,
        0 <= seldom <= often,
    ensures
        wounds * 144 - (wounds * 12 + wounds * 0) * often <= wounds * 144 - (wounds * 12 + wounds
            * 0) * seldom,
{
    assert((wounds * 12 + wounds * 0) * seldom <= (wounds * 12 + wounds * 0) * often)
        by (nonlinear_arith)
        requires
            wounds >= 0,
            0 <= seldom <= often,
    ;
}

/// More wounds deal no less damage where no ward is rolled.
proof fn lemma_more_damage(fewer: int, more: int, each: int)
    requires
        fewer <= more,
        each >= 0,
    ensures
        fewer * each * 6 - fewer * each * 0 <= more * each * 6 - more * each * 0,
{
    assert(fewer * each * 6 <= more * each * 6) by (nonlinear_arith)
        requires
            fewer <= more,
            each >= 0,
    ;
    assert(fewer * each * 0 == 0) by (nonlinear_arith);
    assert(more * each * 0 == 0) by (nonlinear_arith);
}

/// What is left of a number of which some sixths are taken is not below zero.
proof fn lemma_left_of(amount: int, sixths: int)
    requires
        amount >= 0,
        0 <= sixths <= 6,
    ensures
        amount * 6 - amount * sixths >= 0,
{
    assert(amount * 6 - amount * sixths >= 0) by (nonlinear_arith)
        requires
            amount >= 0,
            0 <= sixths <= 6,
    ;
}

/// A product of two numbers that are not below zero is not below zero.
proof fn lemma_product_floor(a: int, b: int)
    requires
        a >= 0,
        b >= 0,
    ensures
        a * b >= 0,
{
    assert(a * b >= 0) by (nonlinear_arith)
        requires
            a >= 0,
            b >= 0,
    ;
}

impl<'a> AverageDamageProcessor<'a> {
    /// The damage of the mortal wounds of a phase is not below zero for rolls that are
    /// not.
    pub proof fn lemma_phase_mortals_floor(&self, phase: RollCharacteristic, base: int)
        requires
            base >= 0,
        ensures
            self.phase_mortals_value(phase, base) >= 0,
    {
        let modifier = self.twice_bonus(Characteristic::Roll(phase)) as i64;
        let again = reroll_twelfths(
            highest_reroll(self.weapon.abilities@, phase),
            self.needed_value(phase, false),
            self.needed_value(phase, true),
        );
        lemma_product_floor(base, again);
        let rolls = self.rolls_value(phase, base);
        Tally::Mortals(phase, modifier).lemma_counts_floor();
        lemma_total_of_floor(self.weapon.abilities@, Tally::Mortals(phase, modifier).counts());
        lemma_product_floor(
            rolls,
            total_of(self.weapon.abilities@, Tally::Mortals(phase, modifier).counts()),
        );
        lemma_left_of(self.mortals_value(phase, rolls, modifier), self.ward_sixths());
    }

    /// No average is below zero: neither the attacks, the hits and the wounds, nor the
    /// wounds that are not saved and the damage against any save.
    pub proof fn lemma_average_floor(&self, save: int)
        ensures
            self.attacks_value() >= 0,
            self.hits_value() >= 0,
            self.wounds_value() >= 0,
            self.unsaved_value(self.wounds_value(), save) >= 0,
            self.mortals_total_value() >= 0,
            self.average_value(save) >= 0,
    {
        Tally::Bonus(Characteristic::Value(ValueCharacteristic::Attacks)).lemma_counts_floor();
        lemma_total_of_floor(
            self.weapon.abilities@,
            Tally::Bonus(Characteristic::Value(ValueCharacteristic::Attacks)).counts(),
        );
        Tally::Bonus(Characteristic::Value(ValueCharacteristic::Damage)).lemma_counts_floor();
        lemma_total_of_floor(
            self.weapon.abilities@,
            Tally::Bonus(Characteristic::Value(ValueCharacteristic::Damage)).counts(),
        );
        Tally::Leader.lemma_counts_floor();
        lemma_total_of_floor(self.weapon.abilities@, Tally::Leader.counts());
        lemma_product_floor(self.weapon.models as int, self.model_attacks_value());
        self.lemma_phase_mortals_floor(RollCharacteristic::Hit, self.attacks_value());
        self.lemma_phase_mortals_floor(RollCharacteristic::Wound, self.hits_value());
        let unsaved = self.unsaved_value(self.wounds_value(), save);
        lemma_product_floor(unsaved, self.wound_damage_value());
        lemma_left_of(unsaved * self.wound_damage_value(), self.ward_sixths());
    }

    /// Of wounds that are not below zero, those that are not saved are neither below
    /// zero nor more than those whose first save roll fails, whatever is rolled again.
    pub proof fn lemma_unsaved_bounds(&self, wounds: int, save: int)
        requires
            wounds >= 0,
        ensures
            0 <= self.unsaved_value(wounds, save) <= wounds * 12 * (12 - success_twelfths(
                self.save_needed_value(save, false),
            )),
    {
        let chance = success_twelfths(self.save_needed_value(save, false));
        let again = reroll_twelfths(
            self.save_reroll_rank(),
            self.save_needed_value(save, false),
            self.save_needed_value(save, true),
        );
        assert(wounds * 144 - (wounds * 12 + wounds * again) * chance <= wounds * 12 * (12
            - chance)) by (nonlinear_arith)
            requires
                wounds >= 0,
                again >= 0,
                0 <= chance <= 12,
        ;
        assert(wounds * 12 * (12 - chance) >= 0) by (nonlinear_arith)
            requires
                wounds >= 0,
                0 <= chance <= 12,
        ;
    }

    /// Without an opponent, the average damage against a save is no more than that
    /// against the next worse save. The two are equal where neither save ever succeeds,
    /// and for the saves of one and of two without rend: no save needs less than a two.
    pub proof fn lemma_average_grows_with_save(&self, save: int)
        requires
            self.opponent is None,
            1 <= save < 7,
        ensures
            self.average_value(save) <= self.average_value(save + 1),
            self.save_needed_value(save, false) >= 14 ==> self.average_value(save)
                == self.average_value(save + 1),
            save == 1 && self.rend_value() == 0 ==> self.average_value(save)
                == self.average_value(save + 1),
    {
        let wounds = self.wounds_value();
        Tally::Bonus(Characteristic::Value(ValueCharacteristic::Rend)).lemma_counts_floor();
        lemma_total_of_floor(
            self.weapon.abilities@,
            Tally::Bonus(Characteristic::Value(ValueCharacteristic::Rend)).counts(),
        );
        Tally::Bonus(Characteristic::Value(ValueCharacteristic::Damage)).lemma_counts_floor();
        lemma_total_of_floor(
            self.weapon.abilities@,
            Tally::Bonus(Characteristic::Value(ValueCharacteristic::Damage)).counts(),
        );
        let often = success_twelfths(self.save_needed_value(save, false));
        let seldom = success_twelfths(self.save_needed_value(save + 1, false));
        assert(self.save_needed_value(save, false) <= self.save_needed_value(save + 1, false));
        assert(self.save_reroll_rank() == -1);
        lemma_fewer_saved(wounds, often, seldom);
        lemma_more_damage(
            self.unsaved_value(wounds, save),
            self.unsaved_value(wounds, save + 1),
            self.wound_damage_value(),
        );
    }
}

} // verus!
