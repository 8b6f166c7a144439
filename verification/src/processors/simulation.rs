//! One simulated attack sequence of a weapon, die by die.
use super::capped::{cap_wide, capped, LIMIT};
use super::totals::add_capped;
use super::roll_target::RollTarget;
use crate::abilities::opponent::OpponentAbility;
use crate::abilities::weapon::Ability;
use crate::abilities::{Characteristic, RerollType, RollCharacteristic, ValueCharacteristic};
use crate::opponent::{
    highest_save_reroll, highest_ward, opponent_ability_has_sides, Opponent,
};
use super::replay::{
    bonus_share, exploding_share, leader_share, mortals_share, rerolled, reroll_of_rank,
    save_bonus_count, save_bonus_rolled, save_bonus_sides, shares_count, shares_rolled,
    shares_sides, ward_saves, PhaseValue, Share,
};
use crate::rollable::{
    agrees, extends, follows, lemma_agrees_before, lemma_sides_join, lemma_sides_none,
    lemma_values_agree, same_sides, shown_by, sides_from, stream_of, values_of,
    Recorded, Rollable, Roller, Script, Source,
};
use super::max::lemma_either_way;
use crate::weapon::{
    ability_has_sides, added_mortals_max, bonus_max, exploding_max, highest_reroll, leader_max,
    lemma_total_of_next, lemma_total_of_order, lemma_total_of_part, mortals_max, total_of,
    Weapon,
};
use vstd::prelude::*;

verus! {

/// Whose roll may be rolled again: the weapon's, for a characteristic, or the
/// opponent's save.
pub enum RerollPhase {
    Weapon(RollCharacteristic),
    Opponent,
}

/// Whether an ability that takes effect on `on` or more does so for a roll. With
/// `unmodified` the roll is held against `on` itself, else against `on` less the
/// modifier of the target; in both cases not against less than the floor of the target.
pub open spec fn takes_effect(
    on: u32,
    unmodified: bool,
    roll: u32,
    target: RollTarget<u32, i32>,
) -> bool {
    roll >= (RollTarget { initial: on, ..target }).exact_value(unmodified)
}

/// Whether a roll may be rolled again. Only a roll that fails against the modified
/// target may: any such roll with `Any`, one that also fails against the unmodified
/// target with `Failed`, and a one with `Ones`.
pub open spec fn may_reroll(
    reroll: Option<RerollType>,
    roll: u32,
    target: RollTarget<u32, i32>,
) -> bool {
    roll < target.exact_value(false) && match reroll {
        Some(RerollType::Any) => true,
        Some(RerollType::Failed) => roll < target.exact_value(true),
        Some(RerollType::Ones) => roll == 1,
        None => false,
    }
}

/// The least that a bonus to the given characteristic rolls.
pub open spec fn bonus_min(characteristic: Characteristic) -> spec_fn(Ability) -> int {
    |ability: Ability|
        match ability {
            Ability::Bonus(a) if a.characteristic == characteristic => a.value.min_value(),
            _ => 0,
        }
}

/// The least extra hits or wounds of an exploding ability for a roll in the given phase:
/// nothing unless the ability takes effect.
pub open spec fn exploding_min_on(
    phase: RollCharacteristic,
    roll: u32,
    target: RollTarget<u32, i32>,
) -> spec_fn(Ability) -> int {
    |ability: Ability|
        match ability {
            Ability::Exploding(a) if a.characteristic == phase && takes_effect(
                a.on,
                a.unmodified,
                roll,
                target,
            ) => a.extra.min_value(),
            _ => 0,
        }
}

/// The most extra hits or wounds of an exploding ability for a roll in the given phase:
/// nothing unless the ability takes effect.
pub open spec fn exploding_max_on(
    phase: RollCharacteristic,
    roll: u32,
    target: RollTarget<u32, i32>,
) -> spec_fn(Ability) -> int {
    |ability: Ability|
        match ability {
            Ability::Exploding(a) if a.characteristic == phase && takes_effect(
                a.on,
                a.unmodified,
                roll,
                target,
            ) => a.extra.max_value(),
            _ => 0,
        }
}

/// The least mortal wounds of an ability for a roll in the given phase: nothing unless
/// the ability takes effect.
pub open spec fn mortals_min_on(
    phase: RollCharacteristic,
    roll: u32,
    target: RollTarget<u32, i32>,
) -> spec_fn(Ability) -> int {
    |ability: Ability|
        match ability {
            Ability::MortalWounds(a) if a.characteristic == phase && takes_effect(
                a.on,
                a.unmodified,
                roll,
                target,
            ) => a.mortals.min_value(),
            _ => 0,
        }
}

/// The most mortal wounds of an ability for a roll in the given phase: nothing unless
/// the ability takes effect.
pub open spec fn mortals_max_on(
    phase: RollCharacteristic,
    roll: u32,
    target: RollTarget<u32, i32>,
) -> spec_fn(Ability) -> int {
    |ability: Ability|
        match ability {
            Ability::MortalWounds(a) if a.characteristic == phase && takes_effect(
                a.on,
                a.unmodified,
                roll,
                target,
            ) => a.mortals.max_value(),
            _ => 0,
        }
}

/// Whether an ability deals its mortal wounds in place of the hit or wound of the roll.
pub open spec fn takes_roll(
    ability: Ability,
    phase: RollCharacteristic,
    roll: u32,
    target: RollTarget<u32, i32>,
) -> bool {
    ability matches Ability::MortalWounds(a) && a.characteristic == phase && !a.in_addition
        && takes_effect(a.on, a.unmodified, roll, target)
}

/// The most that the save bonus of an opponent ability rolls.
pub open spec fn save_bonus_max(ability: OpponentAbility) -> int {
    match ability {
        OpponentAbility::SaveBonus(a) => a.value.max_value(),
        _ => 0,
    }
}

/// The largest sum of the save bonuses among the given abilities.
pub open spec fn total_save_bonus(abilities: Seq<OpponentAbility>) -> int
    decreases abilities.len(),
{
    if abilities.len() == 0 {
        0
    } else {
        total_save_bonus(abilities.drop_last()) + save_bonus_max(abilities.last())
    }
}

/// The source has thrown the dice of the shares of the abilities since `before`, in
/// their order, and their rolls have given the value.
pub open spec fn reads_shares<S: Source>(
    before: S,
    after: S,
    abilities: Seq<Ability>,
    share: spec_fn(Ability) -> Option<Share>,
    value: int,
) -> bool {
    &&& follows(before, after)
    &&& after.drawn().len() == before.drawn().len() + shares_count(abilities, share)
    &&& sides_from(after.drawn(), before.drawn().len() as int) == shares_sides(abilities, share)
    &&& forall|stream: spec_fn(int) -> u32| #[trigger]
        agrees(stream, after.drawn()) ==> value == shares_rolled(
            abilities,
            share,
            stream,
            before.drawn().len() as int,
        )
}

/// Simulates the attacks of a weapon against a save, with dice from a roller.
pub struct SimulatedDamageProcessor<'a> {
    /// The weapon that attacks.
    pub weapon: &'a Weapon,
    /// The opponent that is attacked, where one was given.
    pub opponent: Option<&'a Opponent>,
    /// The save of the target.
    pub save: u32,
}

impl<'a> SimulatedDamageProcessor<'a> {
    pub fn new(weapon: &'a Weapon, save: u32) -> (r: Self)
        ensures
            r == (SimulatedDamageProcessor { weapon, opponent: None, save }),
    {
        Self { weapon, opponent: None, save }
    }

    /// Sets the opponent that is attacked.
    pub fn opponent(&mut self, opponent: &'a Opponent) -> (r: &mut Self)
        ensures
            *r == (SimulatedDamageProcessor { opponent: Some(opponent), ..*old(self) }),
            *final(self) == *final(r),
    {
        self.opponent = Some(opponent);
        self
    }

    /// The rank of the rerolls that apply in a phase, or -1 where none do.
    pub open spec fn reroll_rank(&self, phase: RerollPhase) -> int {
        match phase {
            RerollPhase::Weapon(p) => highest_reroll(self.weapon.abilities@, p),
            RerollPhase::Opponent => match self.opponent {
                Some(opponent) => highest_save_reroll(opponent.abilities@),
                None => -1,
            },
        }
    }

    /// The rerolls that apply in a phase: the most permissive of the weapon for a
    /// characteristic, or of the opponent for its save.
    pub fn reroll_type(&self, phase: RerollPhase) -> (r: Option<RerollType>)
        ensures
            self.reroll_rank(phase) == (match r {
                Some(reroll) => reroll.rank(),
                None => -1,
            }),
            r == reroll_of_rank(self.reroll_rank(phase)),
    {
        match phase {
            RerollPhase::Weapon(p) => match self.weapon.reroll_ability(p) {
                Some(a) => Some(a.reroll_type),
                None => None,
            },
            RerollPhase::Opponent => match self.opponent {
                Some(opponent) => match opponent.reroll_ability() {
                    Some(a) => Some(a.reroll_type),
                    None => None,
                },
                None => None,
            },
        }
    }

    /// The largest sum of the save bonuses of the opponent.
    pub open spec fn max_save_bonus_value(&self) -> int {
        match self.opponent {
            Some(opponent) => total_save_bonus(opponent.abilities@),
            None => 0,
        }
    }

    /// What a roll phase needs: dice with sides, and numbers that the machine holds.
    pub open spec fn can_roll_phase(&self, phase: RollCharacteristic) -> bool {
        &&& self.weapon.has_sides()
        &&& self.weapon.max_bonus_value(Characteristic::Roll(phase)) <= i32::MAX
        &&& self.weapon.max_results_value(phase) <= u32::MAX
        &&& self.weapon.max_mortals_value(phase) <= u32::MAX
    }

    /// What a save roll needs: a save of one or more, dice with sides, and numbers that
    /// the machine holds.
    pub open spec fn can_save(&self) -> bool {
        &&& self.save >= 1
        &&& self.weapon.has_sides()
        &&& self.opponent matches Some(opponent) ==> opponent.has_sides()
        &&& self.weapon.rend + self.weapon.max_bonus_value(
            Characteristic::Value(ValueCharacteristic::Rend),
        ) <= i32::MAX
        &&& self.max_save_bonus_value() <= i32::MAX
    }

    /// What one attack needs: what its phases and the save need, and a largest damage
    /// that the machine holds.
    pub open spec fn can_attack(&self) -> bool {
        &&& self.can_roll_phase(RollCharacteristic::Hit)
        &&& self.can_roll_phase(RollCharacteristic::Wound)
        &&& self.can_save()
        &&& self.weapon.max_attack_wounds_value() <= u32::MAX
        &&& self.weapon.max_wound_damage_value() <= u32::MAX
        &&& self.weapon.max_attack_damage_value() <= u32::MAX
    }

    /// What a simulation needs: what an attack needs, and a largest number of attacks
    /// and a largest damage of them all that the machine holds.
    pub open spec fn can_simulate(&self) -> bool {
        &&& self.can_attack()
        &&& self.weapon.models >= 1
        &&& self.weapon.max_attacks_value() <= u32::MAX
        &&& self.weapon.max_simulated_value() <= u32::MAX
    }

    /// The largest sum of the save bonuses of the opponent, as far as it is followed.
    fn capped_save_bonus(&self) -> (r: u64)
        ensures
            r == capped(self.max_save_bonus_value()),
            self.max_save_bonus_value() >= 0,
    {
        match self.opponent {
            None => 0,
            Some(opponent) => {
                let abilities = &opponent.abilities;
                let mut total: u64 = 0;
                let mut i: usize = 0;
                while i < abilities.len()
                    invariant
                        i <= abilities.len(),
                        total == capped(total_save_bonus(abilities@.take(i as int))),
                        total_save_bonus(abilities@.take(i as int)) >= 0,
                    decreases abilities.len() - i,
                {
                    proof {
                        assert(abilities@.take(i + 1).drop_last() =~= abilities@.take(i as int));
                    }
                    match &abilities[i] {
                        OpponentAbility::SaveBonus(a) => {
                            total = add_capped(
                                total,
                                cap_wide(a.value.max_wide()),
                                Ghost(total_save_bonus(abilities@.take(i as int))),
                                Ghost(a.value.max_value()),
                            );
                        },
                        _ => {},
                    }
                    i = i + 1;
                }
                assert(abilities@.take(i as int) =~= abilities@);
                total
            },
        }
    }

    /// Whether the processor can simulate: whether every die has a side and the machine
    /// holds the numbers of the largest outcome.
    pub fn is_ready(&self) -> (r: bool)
        ensures
            r == self.can_simulate(),
    {
        let ghost w = self.weapon;
        let sides = self.weapon.can_be_rolled() && match self.opponent {
            Some(opponent) => opponent.can_be_rolled(),
            None => true,
        };
        if !sides || self.save < 1 || self.weapon.models < 1 {
            return false;
        }
        let hit = RollCharacteristic::Hit;
        let wound = RollCharacteristic::Wound;
        let hit_bonus = self.weapon.capped_bonus(Characteristic::Roll(hit));
        let wound_bonus = self.weapon.capped_bonus(Characteristic::Roll(wound));
        let rend = add_capped(
            self.weapon.rend as u64,
            self.weapon.capped_bonus(Characteristic::Value(ValueCharacteristic::Rend)),
            Ghost(w.rend as int),
            Ghost(w.max_bonus_value(Characteristic::Value(ValueCharacteristic::Rend))),
        );
        let (hit_mortals, _) = self.weapon.capped_mortal_wounds(hit);
        let (wound_mortals, _) = self.weapon.capped_mortal_wounds(wound);
        hit_bonus <= 0x7FFF_FFFF && wound_bonus <= 0x7FFF_FFFF && rend <= 0x7FFF_FFFF
            && self.capped_save_bonus() <= 0x7FFF_FFFF && self.weapon.capped_results(hit) < LIMIT
            && self.weapon.capped_results(wound) < LIMIT && hit_mortals < LIMIT && wound_mortals
            < LIMIT && self.weapon.capped_attack_wounds() < LIMIT
            && self.weapon.capped_wound_damage() < LIMIT && self.weapon.capped_attack_damage()
            < LIMIT && self.weapon.capped_attacks() < LIMIT && self.weapon.capped_simulated()
            < LIMIT
    }

    /// The least roll that a phase can need: the roll needed less the largest bonus to
    /// it, but never less than two.
    pub open spec fn least_roll_needed(&self, phase: RollCharacteristic) -> int {
        let modified = self.weapon.needed(phase) - self.weapon.max_bonus_value(
            Characteristic::Roll(phase),
        );
        if modified > 2 {
            modified
        } else {
            2
        }
    }

    /// Whether the opponent ignores the modifiers to its save.
    pub open spec fn ignores_modifiers(&self) -> bool {
        match self.opponent {
            Some(opponent) => exists|i: int|
                0 <= i < opponent.abilities@.len() && #[trigger] opponent.abilities@[i] is Ethereal,
            None => false,
        }
    }

    /// The least roll that a save can need: the save with the rend and the least bonus
    /// to it, less the largest save bonus; the save as it stands for an opponent that
    /// ignores modifiers; but never less than one less than the save, nor than two.
    pub open spec fn least_save_needed(&self) -> int {
        let modified = if self.ignores_modifiers() {
            self.save as int
        } else {
            self.save + self.weapon.rend + total_of(
                self.weapon.abilities@,
                bonus_min(Characteristic::Value(ValueCharacteristic::Rend)),
            ) - self.max_save_bonus_value()
        };
        let floor = if self.save - 1 > 2 {
            self.save - 1
        } else {
            2
        };
        if modified > floor {
            modified
        } else {
            floor
        }
    }

    /// The roll of the ward that applies, or -1 where there is none.
    pub open spec fn ward_roll(&self) -> int {
        match self.opponent {
            Some(opponent) => highest_ward(opponent.abilities@),
            None => -1,
        }
    }

    /// Rolls the bonuses to a characteristic with dice from the source, in the order of
    /// the abilities, and adds them up.
    pub fn roll_bonus_from<S: Source>(&self, phase: Characteristic, source: &mut S) -> (r: u32)
        requires
            self.weapon.has_sides(),
            self.weapon.max_bonus_value(phase) <= u32::MAX,
            old(source).valid(),
        ensures
            total_of(self.weapon.abilities@, bonus_min(phase)) <= r
                <= self.weapon.max_bonus_value(phase),
            reads_shares(
                *old(source),
                *final(source),
                self.weapon.abilities@,
                bonus_share(phase),
                r as int,
            ),
    {
        let abilities = &self.weapon.abilities;
        let ghost low = bonus_min(phase);
        let ghost high = bonus_max(phase);
        let ghost share = bonus_share(phase);
        let ghost start = source.drawn();
        let ghost given = source.given();
        proof {
            lemma_sides_none(start);
        }
        let mut total: u32 = 0;
        let mut i: usize = 0;
        while i < abilities.len()
            invariant
                i <= abilities.len(),
                abilities == &self.weapon.abilities,
                self.weapon.has_sides(),
                low == bonus_min(phase),
                high == bonus_max(phase),
                share == bonus_share(phase),
                total_of(abilities@, high) <= u32::MAX,
                total_of(abilities@.take(i as int), low) <= total <= total_of(
                    abilities@.take(i as int),
                    high,
                ),
                source.valid(),
                source.given() == given,
                extends(start, source.drawn()),
                source.drawn().len() == start.len() + shares_count(
                    abilities@.take(i as int),
                    share,
                ),
                sides_from(source.drawn(), start.len() as int) == shares_sides(
                    abilities@.take(i as int),
                    share,
                ),
                forall|stream: spec_fn(int) -> u32| #[trigger]
                    agrees(stream, source.drawn()) ==> total == shares_rolled(
                        abilities@.take(i as int),
                        share,
                        stream,
                        start.len() as int,
                    ),
            decreases abilities.len() - i,
        {
            proof {
                lemma_total_of_next(abilities@, i as int, low);
                lemma_total_of_next(abilities@, i as int, high);
                lemma_total_of_part(abilities@, i as int, high);
                lemma_total_of_part(abilities@, i + 1, high);
                assert(abilities@.take(i + 1).drop_last() =~= abilities@.take(i as int));
            }
            let ghost before = source.drawn();
            let mut gained: u32 = 0;
            match &abilities[i] {
                Ability::Bonus(a) => {
                    if a.characteristic == phase {
                        assert(ability_has_sides(abilities@[i as int]));
                        gained = a.value.roll_from(source);
                        assert(a.value.sides() == a.value@.sides());
                    }
                },
                _ => {},
            }
            proof {
                lemma_sides_join(start.len() as int, before, source.drawn());
                lemma_sides_none(before);
                assert forall|stream: spec_fn(int) -> u32| #[trigger]
                    agrees(stream, source.drawn()) implies total + gained == shares_rolled(
                    abilities@.take(i + 1),
                    share,
                    stream,
                    start.len() as int,
                ) by {
                    lemma_agrees_before(stream, before, source.drawn());
                }
            }
            total = total + gained;
            i = i + 1;
        }
        assert(abilities@.take(i as int) =~= abilities@);
        total
    }

    /// Rolls the bonuses to a characteristic and adds them up.
    pub fn roll_bonus<T: Roller>(&self, phase: Characteristic, roller: &T) -> (r: u32)
        requires
            self.weapon.has_sides(),
            self.weapon.max_bonus_value(phase) <= u32::MAX,
        ensures
            total_of(self.weapon.abilities@, bonus_min(phase)) <= r
                <= self.weapon.max_bonus_value(phase),
            exists|rolls: Seq<u32>|
                shown_by(rolls, shares_sides(self.weapon.abilities@, bonus_share(phase)))
                    && rolls.len() == shares_count(self.weapon.abilities@, bonus_share(phase)) && r
                    == shares_rolled(
                    self.weapon.abilities@,
                    bonus_share(phase),
                    stream_of(rolls),
                    0,
                ),
    {
        let mut source = Recorded::new(roller);
        let total = self.roll_bonus_from(phase, &mut source);
        proof {
            source.lemma_in_range();
            lemma_values_agree(source.drawn());
            let rolls = values_of(source.drawn());
            assert(shown_by(rolls, shares_sides(self.weapon.abilities@, bonus_share(phase)))
                    && rolls.len() == shares_count(self.weapon.abilities@, bonus_share(phase))
                && total == shares_rolled(
                self.weapon.abilities@,
                bonus_share(phase),
                stream_of(rolls),
                0,
            ));
        }
        total
    }

    /// Rolls the extra hits or wounds of the exploding abilities that take effect for a
    /// roll, with dice from the source and in the order of the abilities, and adds them
    /// up.
    pub fn roll_exploding_from<S: Source>(
        &self,
        phase: RollCharacteristic,
        roll: u32,
        target: RollTarget<u32, i32>,
        source: &mut S,
    ) -> (r: u32)
        requires
            self.weapon.has_sides(),
            total_of(self.weapon.abilities@, exploding_max_on(phase, roll, target))
                <= u32::MAX,
            old(source).valid(),
        ensures
            total_of(self.weapon.abilities@, exploding_min_on(phase, roll, target)) <= r
                <= total_of(self.weapon.abilities@, exploding_max_on(phase, roll, target)),
            reads_shares(
                *old(source),
                *final(source),
                self.weapon.abilities@,
                exploding_share(phase, roll, target),
                r as int,
            ),
    {
        let abilities = &self.weapon.abilities;
        let ghost low = exploding_min_on(phase, roll, target);
        let ghost high = exploding_max_on(phase, roll, target);
        let ghost share = exploding_share(phase, roll, target);
        let ghost start = source.drawn();
        let ghost given = source.given();
        proof {
            lemma_sides_none(start);
        }
        let mut total: u32 = 0;
        let mut i: usize = 0;
        while i < abilities.len()
            invariant
                i <= abilities.len(),
                abilities == &self.weapon.abilities,
                self.weapon.has_sides(),
                low == exploding_min_on(phase, roll, target),
                high == exploding_max_on(phase, roll, target),
                share == exploding_share(phase, roll, target),
                total_of(abilities@, high) <= u32::MAX,
                total_of(abilities@.take(i as int), low) <= total <= total_of(
                    abilities@.take(i as int),
                    high,
                ),
                source.valid(),
                source.given() == given,
                extends(start, source.drawn()),
                source.drawn().len() == start.len() + shares_count(
                    abilities@.take(i as int),
                    share,
                ),
                sides_from(source.drawn(), start.len() as int) == shares_sides(
                    abilities@.take(i as int),
                    share,
                ),
                forall|stream: spec_fn(int) -> u32| #[trigger]
                    agrees(stream, source.drawn()) ==> total == shares_rolled(
                        abilities@.take(i as int),
                        share,
                        stream,
                        start.len() as int,
                    ),
            decreases abilities.len() - i,
        {
            proof {
                lemma_total_of_next(abilities@, i as int, low);
                lemma_total_of_next(abilities@, i as int, high);
                lemma_total_of_part(abilities@, i as int, high);
                lemma_total_of_part(abilities@, i + 1, high);
                assert(abilities@.take(i + 1).drop_last() =~= abilities@.take(i as int));
            }
            let ghost before = source.drawn();
            let mut gained: u32 = 0;
            match &abilities[i] {
                Ability::Exploding(a) => {
                    if a.characteristic == phase && target.clone_with_initial(a.on).is_met_by(
                        roll,
                        a.unmodified,
                    ) {
                        assert(ability_has_sides(abilities@[i as int]));
                        gained = a.extra.roll_from(source);
                        assert(a.extra.sides() == a.extra@.sides());
                    }
                },
                _ => {},
            }
            proof {
                lemma_sides_join(start.len() as int, before, source.drawn());
                lemma_sides_none(before);
                assert forall|stream: spec_fn(int) -> u32| #[trigger]
                    agrees(stream, source.drawn()) implies total + gained == shares_rolled(
                    abilities@.take(i + 1),
                    share,
                    stream,
                    start.len() as int,
                ) by {
                    lemma_agrees_before(stream, before, source.drawn());
                }
            }
            total = total + gained;
            i = i + 1;
        }
        assert(abilities@.take(i as int) =~= abilities@);
        total
    }

    /// Rolls the extra hits or wounds of the exploding abilities that take effect for a
    /// roll, and adds them up.
    pub fn roll_exploding<T: Roller>(
        &self,
        phase: RollCharacteristic,
        roll: u32,
        target: RollTarget<u32, i32>,
        roller: &T,
    ) -> (r: u32)
        requires
            self.weapon.has_sides(),
            total_of(self.weapon.abilities@, exploding_max_on(phase, roll, target))
                <= u32::MAX,
        ensures
            total_of(self.weapon.abilities@, exploding_min_on(phase, roll, target)) <= r
                <= total_of(self.weapon.abilities@, exploding_max_on(phase, roll, target)),
            exists|rolls: Seq<u32>|
                shown_by(
                    rolls,
                    shares_sides(self.weapon.abilities@, exploding_share(phase, roll, target)),
                ) && rolls.len() == shares_count(
                    self.weapon.abilities@,
                    exploding_share(phase, roll, target),
                ) && r == shares_rolled(
                    self.weapon.abilities@,
                    exploding_share(phase, roll, target),
                    stream_of(rolls),
                    0,
                ),
    {
        let mut source = Recorded::new(roller);
        let total = self.roll_exploding_from(phase, roll, target, &mut source);
        proof {
            source.lemma_in_range();
            lemma_values_agree(source.drawn());
            let rolls = values_of(source.drawn());
            assert(shown_by(
                    rolls,
                    shares_sides(self.weapon.abilities@, exploding_share(phase, roll, target)),
                ) && rolls.len() == shares_count(
                self.weapon.abilities@,
                exploding_share(phase, roll, target),
            ) && total == shares_rolled(
                self.weapon.abilities@,
                exploding_share(phase, roll, target),
                stream_of(rolls),
                0,
            ));
        }
        total
    }

    /// What one roll of a phase gives is within what the phase can give: with mortal
    /// wounds in place of the hit or wound, at most the extra ones and all the mortal
    /// wounds; else one more, and at most the mortal wounds that come in addition.
    pub open spec fn within_phase(
        &self,
        phase: RollCharacteristic,
        results: int,
        mortals: int,
    ) -> bool {
        ||| results <= self.weapon.max_exploding_value(phase) && mortals
            <= self.weapon.max_mortals_value(phase)
        ||| results <= 1 + self.weapon.max_exploding_value(phase) && mortals
            <= self.weapon.max_added_mortals_value(phase)
    }

    /// Whether no mortal wounds take the place of the hit or wound of a roll.
    pub open spec fn keeps_roll(
        &self,
        phase: RollCharacteristic,
        roll: u32,
        target: RollTarget<u32, i32>,
    ) -> bool {
        !exists|i: int|
            0 <= i < self.weapon.abilities@.len() && takes_roll(
                #[trigger] self.weapon.abilities@[i],
                phase,
                roll,
                target,
            )
    }

    /// Rolls the mortal wounds of the abilities that take effect for a roll, with dice
    /// from the source and in the order of the abilities, and adds them up. The flag
    /// tells whether the roll still counts as a hit or wound: it does unless one of
    /// those abilities deals its mortal wounds in place of it.
    pub fn roll_mortal_wounds_from<S: Source>(
        &self,
        phase: RollCharacteristic,
        roll: u32,
        target: RollTarget<u32, i32>,
        source: &mut S,
    ) -> (r: (u32, bool))
        requires
            self.weapon.has_sides(),
            total_of(self.weapon.abilities@, mortals_max_on(phase, roll, target)) <= u32::MAX,
            old(source).valid(),
        ensures
            total_of(self.weapon.abilities@, mortals_min_on(phase, roll, target)) <= r.0
                <= total_of(self.weapon.abilities@, mortals_max_on(phase, roll, target)),
            r.1 == self.keeps_roll(phase, roll, target),
            reads_shares(
                *old(source),
                *final(source),
                self.weapon.abilities@,
                mortals_share(phase, roll, target),
                r.0 as int,
            ),
    {
        let abilities = &self.weapon.abilities;
        let ghost low = mortals_min_on(phase, roll, target);
        let ghost high = mortals_max_on(phase, roll, target);
        let ghost share = mortals_share(phase, roll, target);
        let ghost start = source.drawn();
        let ghost given = source.given();
        proof {
            lemma_sides_none(start);
        }
        let mut total: u32 = 0;
        let mut in_addition = true;
        let mut i: usize = 0;
        while i < abilities.len()
            invariant
                i <= abilities.len(),
                abilities == &self.weapon.abilities,
                self.weapon.has_sides(),
                low == mortals_min_on(phase, roll, target),
                high == mortals_max_on(phase, roll, target),
                share == mortals_share(phase, roll, target),
                total_of(abilities@, high) <= u32::MAX,
                total_of(abilities@.take(i as int), low) <= total <= total_of(
                    abilities@.take(i as int),
                    high,
                ),
                in_addition <==> !exists|j: int|
                    0 <= j < i && takes_roll(#[trigger] abilities@[j], phase, roll, target),
                source.valid(),
                source.given() == given,
                extends(start, source.drawn()),
                source.drawn().len() == start.len() + shares_count(
                    abilities@.take(i as int),
                    share,
                ),
                sides_from(source.drawn(), start.len() as int) == shares_sides(
                    abilities@.take(i as int),
                    share,
                ),
                forall|stream: spec_fn(int) -> u32| #[trigger]
                    agrees(stream, source.drawn()) ==> total == shares_rolled(
                        abilities@.take(i as int),
                        share,
                        stream,
                        start.len() as int,
                    ),
            decreases abilities.len() - i,
        {
            proof {
                lemma_total_of_next(abilities@, i as int, low);
                lemma_total_of_next(abilities@, i as int, high);
                lemma_total_of_part(abilities@, i as int, high);
                lemma_total_of_part(abilities@, i + 1, high);
                assert(abilities@.take(i + 1).drop_last() =~= abilities@.take(i as int));
            }
            let ghost before = source.drawn();
            let mut gained: u32 = 0;
            match &abilities[i] {
                Ability::MortalWounds(a) => {
                    if a.characteristic == phase && target.clone_with_initial(a.on).is_met_by(
                        roll,
                        a.unmodified,
                    ) {
                        assert(ability_has_sides(abilities@[i as int]));
                        gained = a.mortals.roll_from(source);
                        assert(a.mortals.sides() == a.mortals@.sides());
                        if !a.in_addition {
                            assert(takes_roll(abilities@[i as int], phase, roll, target));
                            in_addition = false;
                        }
                    }
                },
                _ => {},
            }
            proof {
                lemma_sides_join(start.len() as int, before, source.drawn());
                lemma_sides_none(before);
                assert forall|stream: spec_fn(int) -> u32| #[trigger]
                    agrees(stream, source.drawn()) implies total + gained == shares_rolled(
                    abilities@.take(i + 1),
                    share,
                    stream,
                    start.len() as int,
                ) by {
                    lemma_agrees_before(stream, before, source.drawn());
                }
            }
            total = total + gained;
            i = i + 1;
        }
        assert(abilities@.take(i as int) =~= abilities@);
        (total, in_addition)
    }

    /// Rolls the mortal wounds of the abilities that take effect for a roll, and adds
    /// them up. The flag tells whether the roll still counts as a hit or wound: it does
    /// unless one of those abilities deals its mortal wounds in place of it.
    pub fn roll_mortal_wounds<T: Roller>(
        &self,
        phase: RollCharacteristic,
        roll: u32,
        target: RollTarget<u32, i32>,
        roller: &T,
    ) -> (r: (u32, bool))
        requires
            self.weapon.has_sides(),
            total_of(self.weapon.abilities@, mortals_max_on(phase, roll, target)) <= u32::MAX,
        ensures
            total_of(self.weapon.abilities@, mortals_min_on(phase, roll, target)) <= r.0
                <= total_of(self.weapon.abilities@, mortals_max_on(phase, roll, target)),
            r.1 == self.keeps_roll(phase, roll, target),
            exists|rolls: Seq<u32>|
                shown_by(
                    rolls,
                    shares_sides(self.weapon.abilities@, mortals_share(phase, roll, target)),
                ) && rolls.len() == shares_count(
                    self.weapon.abilities@,
                    mortals_share(phase, roll, target),
                ) && r.0 == shares_rolled(
                    self.weapon.abilities@,
                    mortals_share(phase, roll, target),
                    stream_of(rolls),
                    0,
                ),
    {
        let mut source = Recorded::new(roller);
        let (total, in_addition) = self.roll_mortal_wounds_from(phase, roll, target, &mut source);
        proof {
            source.lemma_in_range();
            lemma_values_agree(source.drawn());
            let rolls = values_of(source.drawn());
            assert(shown_by(
                    rolls,
                    shares_sides(self.weapon.abilities@, mortals_share(phase, roll, target)),
                ) && rolls.len() == shares_count(
                self.weapon.abilities@,
                mortals_share(phase, roll, target),
            ) && total == shares_rolled(
                self.weapon.abilities@,
                mortals_share(phase, roll, target),
                stream_of(rolls),
                0,
            ));
        }
        (total, in_addition)
    }

    /// Rolls a six-sided die from the source against a target and, where the roll may
    /// be rolled again, does so once: the second roll then counts. One die is drawn or
    /// two, each with six sides, and the result is the last that was drawn.
    pub fn roll_with_rerolls_from<S: Source>(
        &self,
        phase: RerollPhase,
        target: RollTarget<u32, i32>,
        source: &mut S,
    ) -> (r: u32)
        requires
            old(source).valid(),
        ensures
            1 <= r <= 6,
            follows(*old(source), *final(source)),
            old(source).drawn().len() < final(source).drawn().len() <= old(source).drawn().len()
                + 2,
            forall|i: int|
                old(source).drawn().len() <= i < final(source).drawn().len() ==> (
                #[trigger] final(source).drawn()[i]).sides == 6,
            r == final(source).drawn().last().value,
            sides_from(final(source).drawn(), old(source).drawn().len() as int) == same_sides(
                final(source).drawn().len() - old(source).drawn().len(),
                6,
            ),
            forall|stream: spec_fn(int) -> u32| #[trigger]
                agrees(stream, final(source).drawn()) ==> rerolled(
                    reroll_of_rank(self.reroll_rank(phase)),
                    target,
                    stream,
                    old(source).drawn().len() as int,
                ) == (r as int, final(source).drawn().len() as int),
    {
        let ghost start = source.drawn();
        let roll = source.draw(6);
        let ghost once = source.drawn();
        let reroll = self.reroll_type(phase);
        if can_reroll(reroll, roll, &target) {
            let again = source.draw(6);
            proof {
                assert forall|stream: spec_fn(int) -> u32| #[trigger]
                    agrees(stream, source.drawn()) implies rerolled(
                    reroll,
                    target,
                    stream,
                    start.len() as int,
                ) == (again as int, source.drawn().len() as int) by {
                    assert(source.drawn()[start.len() as int].sides == 6);
                    assert(source.drawn()[start.len() as int + 1].sides == 6);
                }
                assert(sides_from(source.drawn(), start.len() as int) =~= same_sides(2, 6));
            }
            return again;
        }
        proof {
            assert forall|stream: spec_fn(int) -> u32| #[trigger]
                agrees(stream, source.drawn()) implies rerolled(
                reroll,
                target,
                stream,
                start.len() as int,
            ) == (roll as int, source.drawn().len() as int) by {
                assert(source.drawn()[start.len() as int].sides == 6);
            }
            assert(sides_from(source.drawn(), start.len() as int) =~= same_sides(1, 6));
        }
        roll
    }

    /// Rolls a six-sided die against a target and, where the roll may be rolled again,
    /// does so once.
    pub fn roll_with_rerolls<T: Roller>(
        &self,
        phase: RerollPhase,
        target: RollTarget<u32, i32>,
        roller: &T,
    ) -> (r: u32)
        ensures
            1 <= r <= 6,
            exists|rolls: Seq<u32>|
                shown_by(rolls, same_sides(rolls.len() as int, 6)) && rerolled(
                    reroll_of_rank(self.reroll_rank(phase)),
                    target,
                    stream_of(rolls),
                    0,
                ) == (r as int, rolls.len() as int),
    {
        let mut source = Recorded::new(roller);
        let roll = self.roll_with_rerolls_from(phase, target, &mut source);
        proof {
            source.lemma_in_range();
            lemma_values_agree(source.drawn());
            let rolls = values_of(source.drawn());
            assert(shown_by(rolls, same_sides(rolls.len() as int, 6)) && rerolled(
                reroll_of_rank(self.reroll_rank(phase)),
                target,
                stream_of(rolls),
                0,
            ) == (roll as int, rolls.len() as int));
        }
        roll
    }

    /// The abilities of the opponent, or none without an opponent.
    pub open spec fn opponent_abilities(&self) -> Seq<OpponentAbility> {
        match self.opponent {
            Some(opponent) => opponent.abilities@,
            None => Seq::empty(),
        }
    }

    /// Rolls the save bonuses of the opponent with dice from the source, and adds them
    /// up.
    fn roll_save_bonus<S: Source>(&self, source: &mut S) -> (r: u32)
        requires
            self.opponent matches Some(opponent) ==> opponent.has_sides(),
            self.max_save_bonus_value() <= u32::MAX,
            old(source).valid(),
        ensures
            r <= self.max_save_bonus_value(),
            follows(*old(source), *final(source)),
            final(source).drawn().len() == old(source).drawn().len() + save_bonus_count(
                self.opponent_abilities(),
            ),
            sides_from(final(source).drawn(), old(source).drawn().len() as int)
                == save_bonus_sides(self.opponent_abilities()),
            forall|stream: spec_fn(int) -> u32| #[trigger]
                agrees(stream, final(source).drawn()) ==> r == save_bonus_rolled(
                    self.opponent_abilities(),
                    stream,
                    old(source).drawn().len() as int,
                ),
    {
        match self.opponent {
            None => {
                proof {
                    lemma_sides_none(source.drawn());
                }
                0
            },
            Some(opponent) => {
                let abilities = &opponent.abilities;
                let ghost start = source.drawn();
                let ghost given = source.given();
                proof {
                    lemma_sides_none(start);
                }
                let mut total: u32 = 0;
                let mut i: usize = 0;
                while i < abilities.len()
                    invariant
                        i <= abilities.len(),
                        abilities == &opponent.abilities,
                        opponent.has_sides(),
                        total_save_bonus(abilities@) <= u32::MAX,
                        total <= total_save_bonus(abilities@.take(i as int)),
                        source.valid(),
                        source.given() == given,
                        extends(start, source.drawn()),
                        source.drawn().len() == start.len() + save_bonus_count(
                            abilities@.take(i as int),
                        ),
                        sides_from(source.drawn(), start.len() as int) == save_bonus_sides(
                            abilities@.take(i as int),
                        ),
                        forall|stream: spec_fn(int) -> u32| #[trigger]
                            agrees(stream, source.drawn()) ==> total == save_bonus_rolled(
                                abilities@.take(i as int),
                                stream,
                                start.len() as int,
                            ),
                    decreases abilities.len() - i,
                {
                    proof {
                        assert(abilities@.take(i + 1).drop_last() =~= abilities@.take(i as int));
                        lemma_save_bonus_part(abilities@, i + 1);
                        lemma_save_bonus_part(abilities@, i as int);
                    }
                    let ghost before = source.drawn();
                    let mut gained: u32 = 0;
                    match &abilities[i] {
                        OpponentAbility::SaveBonus(a) => {
                            assert(opponent_ability_has_sides(abilities@[i as int]));
                            gained = a.value.roll_from(source);
                            assert(a.value.sides() == a.value@.sides());
                        },
                        _ => {},
                    }
                    proof {
                        lemma_sides_join(start.len() as int, before, source.drawn());
                        lemma_sides_none(before);
                        assert forall|stream: spec_fn(int) -> u32| #[trigger]
                            agrees(stream, source.drawn()) implies total + gained
                            == save_bonus_rolled(
                            abilities@.take(i + 1),
                            stream,
                            start.len() as int,
                        ) by {
                            lemma_agrees_before(stream, before, source.drawn());
                        }
                    }
                    total = total + gained;
                    i = i + 1;
                }
                assert(abilities@.take(i as int) =~= abilities@);
                total
            },
        }
    }

    /// What a roll of a phase gives against its target, with dice from the source: the
    /// hits or wounds, and the mortal wounds. A roll that fails gives nothing and rolls
    /// nothing. One that succeeds gives one hit or wound, unless mortal wounds take its
    /// place, and the extra ones of the exploding abilities.
    pub fn roll_outcome_from<S: Source>(
        &self,
        phase: RollCharacteristic,
        roll: u32,
        target: RollTarget<u32, i32>,
        source: &mut S,
    ) -> (r: (u32, u32))
        requires
            self.weapon.has_sides(),
            self.weapon.max_results_value(phase) <= u32::MAX,
            self.weapon.max_mortals_value(phase) <= u32::MAX,
            old(source).valid(),
        ensures
            r.0 <= self.weapon.max_results_value(phase),
            r.1 <= self.weapon.max_mortals_value(phase),
            self.within_phase(phase, r.0 as int, r.1 as int),
            roll < target.exact_value(false) ==> r == (0u32, 0u32),
            follows(*old(source), *final(source)),
            sides_from(final(source).drawn(), old(source).drawn().len() as int)
                == self.outcome_sides(phase, roll, target),
            forall|stream: spec_fn(int) -> u32| #[trigger]
                agrees(stream, final(source).drawn()) ==> self.outcome_of(
                    phase,
                    roll,
                    target,
                    stream,
                    old(source).drawn().len() as int,
                ) == (PhaseValue {
                    results: r.0 as int,
                    mortal_wounds: r.1 as int,
                    next: final(source).drawn().len() as int,
                }),
    {
        proof {
            self.weapon.lemma_totals_floor();
        }
        let ghost start = source.drawn();
        if target.is_met_by(roll, false) {
            proof {
                lemma_total_of_order(
                    self.weapon.abilities@,
                    exploding_max_on(phase, roll, target),
                    exploding_max(phase),
                );
                lemma_total_of_order(
                    self.weapon.abilities@,
                    mortals_max_on(phase, roll, target),
                    mortals_max(phase),
                );
            }
            let extra = self.roll_exploding_from(phase, roll, target, source);
            let ghost exploded = source.drawn();
            let (mortal_wounds, in_addition) = self.roll_mortal_wounds_from(
                phase,
                roll,
                target,
                source,
            );
            let outcome = phase_outcome(extra, mortal_wounds, in_addition);
            proof {
                lemma_sides_join(start.len() as int, exploded, source.drawn());
                if in_addition {
                    lemma_kept_mortals(self.weapon.abilities@, phase, roll, target);
                }
                assert forall|stream: spec_fn(int) -> u32| #[trigger]
                    agrees(stream, source.drawn()) implies self.outcome_of(
                    phase,
                    roll,
                    target,
                    stream,
                    start.len() as int,
                ) == (PhaseValue {
                    results: outcome.0 as int,
                    mortal_wounds: outcome.1 as int,
                    next: source.drawn().len() as int,
                }) by {
                    lemma_agrees_before(stream, exploded, source.drawn());
                }
            }
            outcome
        } else {
            proof {
                lemma_sides_none(start);
            }
            (0, 0)
        }
    }

    /// One roll to hit or to wound, with dice from the source: the hits or wounds that
    /// it gives, and the mortal wounds that it deals. A roll that fails gives nothing.
    /// One that succeeds gives one hit or wound, unless mortal wounds take its place,
    /// and the extra ones of the exploding abilities.
    pub fn roll_phase_from<S: Source>(&self, phase: RollCharacteristic, source: &mut S) -> (r: (
        u32,
        u32,
    ))
        requires
            self.can_roll_phase(phase),
            old(source).valid(),
        ensures
            r.0 <= self.weapon.max_results_value(phase),
            r.1 <= self.weapon.max_mortals_value(phase),
            r.0 > 0 || r.1 > 0 ==> self.least_roll_needed(phase) <= 6,
            self.within_phase(phase, r.0 as int, r.1 as int),
            follows(*old(source), *final(source)),
            forall|stream: spec_fn(int) -> u32| #[trigger]
                agrees(stream, final(source).drawn()) ==> sides_from(
                    final(source).drawn(),
                    old(source).drawn().len() as int,
                ) == self.phase_sides(phase, stream, old(source).drawn().len() as int),
            forall|stream: spec_fn(int) -> u32| #[trigger]
                agrees(stream, final(source).drawn()) ==> self.phase_of(
                    phase,
                    stream,
                    old(source).drawn().len() as int,
                ) == (PhaseValue {
                    results: r.0 as int,
                    mortal_wounds: r.1 as int,
                    next: final(source).drawn().len() as int,
                }),
    {
        proof {
            self.weapon.lemma_totals_floor();
        }
        let ghost start = source.drawn();
        let needed = match phase {
            RollCharacteristic::Hit => self.weapon.to_hit,
            RollCharacteristic::Wound => self.weapon.to_wound,
        };
        let mut target = RollTarget::new(needed, 0, Some(2));
        let bonus = self.roll_bonus_from(Characteristic::Roll(phase), source);
        let ghost bonused = source.drawn();
        core::ops::AddAssign::add_assign(&mut target, bonus as i32);
        let roll = self.roll_with_rerolls_from(RerollPhase::Weapon(phase), target, source);
        let ghost rolled = source.drawn();
        let outcome = self.roll_outcome_from(phase, roll, target, source);
        proof {
            lemma_sides_join(start.len() as int, bonused, rolled);
            lemma_sides_join(start.len() as int, rolled, source.drawn());
            assert forall|stream: spec_fn(int) -> u32| #[trigger]
                agrees(stream, source.drawn()) implies sides_from(
                source.drawn(),
                start.len() as int,
            ) == self.phase_sides(phase, stream, start.len() as int) by {
                lemma_agrees_before(stream, rolled, source.drawn());
                lemma_agrees_before(stream, bonused, rolled);
            }
            assert forall|stream: spec_fn(int) -> u32| #[trigger]
                agrees(stream, source.drawn()) implies self.phase_of(
                phase,
                stream,
                start.len() as int,
            ) == (PhaseValue {
                results: outcome.0 as int,
                mortal_wounds: outcome.1 as int,
                next: source.drawn().len() as int,
            }) by {
                lemma_agrees_before(stream, rolled, source.drawn());
                lemma_agrees_before(stream, bonused, rolled);
            }
        }
        outcome
    }

    /// One roll to hit or to wound: the hits or wounds that it gives, and the mortal
    /// wounds that it deals, as the dice thrown give them. No roll succeeds where even
    /// the least roll that the phase can need is beyond the six sides of the die.
    pub fn roll_phase<T: Roller>(&self, phase: RollCharacteristic, roller: &T) -> (r: (u32, u32))
        requires
            self.can_roll_phase(phase),
        ensures
            r.0 <= self.weapon.max_results_value(phase),
            r.1 <= self.weapon.max_mortals_value(phase),
            r.0 > 0 || r.1 > 0 ==> self.least_roll_needed(phase) <= 6,
            self.within_phase(phase, r.0 as int, r.1 as int),
            exists|rolls: Seq<u32>|
                shown_by(rolls, self.phase_sides(phase, stream_of(rolls), 0))
                    && self.phase_of(phase, stream_of(rolls), 0) == (PhaseValue {
                    results: r.0 as int,
                    mortal_wounds: r.1 as int,
                    next: rolls.len() as int,
                }),
    {
        let mut source = Recorded::new(roller);
        let outcome = self.roll_phase_from(phase, &mut source);
        proof {
            source.lemma_in_range();
            lemma_values_agree(source.drawn());
            let rolls = values_of(source.drawn());
            assert(shown_by(rolls, self.phase_sides(phase, stream_of(rolls), 0))
                    && self.phase_of(phase, stream_of(rolls), 0) == (PhaseValue {
                results: outcome.0 as int,
                mortal_wounds: outcome.1 as int,
                next: rolls.len() as int,
            }));
        }
        outcome
    }

    /// One save roll with dice from the source: whether the wound is saved.
    pub fn save_phase_from<S: Source>(&self, source: &mut S) -> (r: bool)
        requires
            self.can_save(),
            old(source).valid(),
        ensures
            r ==> self.least_save_needed() <= 6,
            r ==> self.save <= 7,
            follows(*old(source), *final(source)),
            forall|stream: spec_fn(int) -> u32| #[trigger]
                agrees(stream, final(source).drawn()) ==> sides_from(
                    final(source).drawn(),
                    old(source).drawn().len() as int,
                ) == self.save_sides(stream, old(source).drawn().len() as int),
            forall|stream: spec_fn(int) -> u32| #[trigger]
                agrees(stream, final(source).drawn()) ==> self.save_of(
                    stream,
                    old(source).drawn().len() as int,
                ) == (r, final(source).drawn().len() as int),
    {
        let ghost start = source.drawn();
        let floor = if self.save - 1 > 2 {
            self.save - 1
        } else {
            2
        };
        let mut target = RollTarget::new(self.save, 0, Some(floor));
        let ethereal = match self.opponent {
            Some(opponent) => opponent.is_ethereal(),
            None => false,
        };
        let ghost mut rended = source.drawn();
        if !ethereal {
            let rend = self.weapon.rend + self.roll_bonus_from(
                Characteristic::Value(ValueCharacteristic::Rend),
                source,
            );
            proof {
                rended = source.drawn();
            }
            core::ops::SubAssign::sub_assign(&mut target, rend as i32);
            let bonus = self.roll_save_bonus(source);
            core::ops::AddAssign::add_assign(&mut target, bonus as i32);
        }
        let ghost targeted = source.drawn();
        let roll = self.roll_with_rerolls_from(RerollPhase::Opponent, target, source);
        let saved = target.is_met_by(roll, false);
        proof {
            lemma_sides_none(start);
            lemma_sides_join(start.len() as int, rended, targeted);
            lemma_sides_join(start.len() as int, targeted, source.drawn());
            assert forall|stream: spec_fn(int) -> u32| #[trigger]
                agrees(stream, source.drawn()) implies sides_from(
                source.drawn(),
                start.len() as int,
            ) == self.save_sides(stream, start.len() as int) by {
                lemma_agrees_before(stream, targeted, source.drawn());
                lemma_agrees_before(stream, rended, targeted);
                assert(self.save_target_of(stream, start.len() as int) == (
                    target,
                    targeted.len() as int,
                ));
            }
            assert forall|stream: spec_fn(int) -> u32| #[trigger]
                agrees(stream, source.drawn()) implies self.save_of(stream, start.len() as int)
                == (saved, source.drawn().len() as int) by {
                lemma_agrees_before(stream, targeted, source.drawn());
                lemma_agrees_before(stream, rended, targeted);
                assert(self.save_target_of(stream, start.len() as int) == (
                    target,
                    targeted.len() as int,
                ));
            }
        }
        saved
    }

    /// One save roll: whether the wound is saved, as the dice thrown decide. It never is
    /// where even the least roll that the save can need is beyond the six sides of the
    /// die: with a save beyond seven, or with so much rend.
    pub fn save_phase<T: Roller>(&self, roller: &T) -> (r: bool)
        requires
            self.can_save(),
        ensures
            r ==> self.least_save_needed() <= 6,
            r ==> self.save <= 7,
            exists|rolls: Seq<u32>|
                shown_by(rolls, self.save_sides(stream_of(rolls), 0))
                    && self.save_of(stream_of(rolls), 0) == (r, rolls.len() as int),
    {
        let mut source = Recorded::new(roller);
        let saved = self.save_phase_from(&mut source);
        proof {
            source.lemma_in_range();
            lemma_values_agree(source.drawn());
            let rolls = values_of(source.drawn());
            assert(shown_by(rolls, self.save_sides(stream_of(rolls), 0))
                    && self.save_of(stream_of(rolls), 0) == (saved, rolls.len() as int));
        }
        saved
    }

    /// Rolls the ward for each point of damage with dice from the source, and gives the
    /// damage that is left: one six-sided die for each point, which is taken off where
    /// the die shows the ward's number or more.
    pub fn damage_with_ward_from<S: Source>(&self, damage: u32, source: &mut S) -> (r: u32)
        requires
            old(source).valid(),
        ensures
            r <= damage,
            self.ward_roll() < 0 || self.ward_roll() > 6 ==> r == damage,
            0 <= self.ward_roll() <= 1 ==> r == 0,
            follows(*old(source), *final(source)),
            sides_from(final(source).drawn(), old(source).drawn().len() as int)
                == self.ward_sides(damage as int),
            forall|stream: spec_fn(int) -> u32| #[trigger]
                agrees(stream, final(source).drawn()) ==> self.ward_of(
                    damage as int,
                    stream,
                    old(source).drawn().len() as int,
                ) == (r as int, final(source).drawn().len() as int),
    {
        let ward = match self.opponent {
            Some(opponent) => opponent.ward(),
            None => None,
        };
        match ward {
            Some(ward) => {
                let ghost start = source.drawn();
                let ghost given = source.given();
                proof {
                    lemma_sides_none(start);
                }
                let mut saves: u32 = 0;
                let mut i: u32 = 0;
                while i < damage
                    invariant
                        i <= damage,
                        saves <= i,
                        ward.on > 6 ==> saves == 0,
                        ward.on <= 1 ==> saves == i,
                        source.valid(),
                        source.given() == given,
                        extends(start, source.drawn()),
                        source.drawn().len() == start.len() + i,
                        forall|j: int|
                            start.len() <= j < source.drawn().len() ==> (
                            #[trigger] source.drawn()[j]).sides == 6,
                        forall|stream: spec_fn(int) -> u32| #[trigger]
                            agrees(stream, source.drawn()) ==> saves == ward_saves(
                                ward.on,
                                i as int,
                                stream,
                                start.len() as int,
                            ),
                    decreases damage - i,
                {
                    let ghost before = source.drawn();
                    let roll = source.draw(6);
                    let saved = roll >= ward.on;
                    proof {
                        assert forall|stream: spec_fn(int) -> u32| #[trigger]
                            agrees(stream, source.drawn()) implies saves + if saved {
                            1int
                        } else {
                            0int
                        } == ward_saves(ward.on, i + 1, stream, start.len() as int) by {
                            lemma_agrees_before(stream, before, source.drawn());
                            assert(source.drawn()[before.len() as int].sides == 6);
                        }
                    }
                    if saved {
                        saves = saves + 1;
                    }
                    i = i + 1;
                }
                assert(sides_from(source.drawn(), start.len() as int) =~= same_sides(
                    damage as int,
                    6,
                ));
                damage - saves
            },
            None => {
                proof {
                    lemma_sides_none(source.drawn());
                }
                damage
            },
        }
    }

    /// Rolls the ward for each point of damage, and gives the damage that is left. All
    /// of it is left without a ward and with one beyond the sides of the die; none is
    /// left with a ward that every roll meets.
    pub fn damage_with_ward<T: Roller>(&self, damage: u32, roller: &T) -> (r: u32)
        ensures
            r <= damage,
            self.ward_roll() < 0 || self.ward_roll() > 6 ==> r == damage,
            0 <= self.ward_roll() <= 1 ==> r == 0,
            exists|rolls: Seq<u32>|
                shown_by(rolls, self.ward_sides(damage as int))
                    && self.ward_on(damage as int, rolls) == (r as int, rolls.len() as int),
    {
        let mut source = Recorded::new(roller);
        let left = self.damage_with_ward_from(damage, &mut source);
        proof {
            source.lemma_in_range();
            lemma_values_agree(source.drawn());
            let rolls = values_of(source.drawn());
            assert(shown_by(rolls, self.ward_sides(damage as int))
                    && self.ward_on(damage as int, rolls) == (left as int, rolls.len() as int));
        }
        left
    }

    /// What the ward leaves of the damage where the dice show the given rolls, and how
    /// many of the rolls were read; nothing where the rolls do not suffice.
    pub fn resolve_ward(&self, damage: u32, rolls: &Vec<u32>) -> (r: Option<(u32, usize)>)
        ensures
            r is Some <==> self.ward_on(damage as int, rolls@).1 <= rolls@.len(),
            r matches Some(left) ==> self.ward_on(damage as int, rolls@) == (
                left.0 as int,
                left.1 as int,
            ),
            r matches Some(left) ==> left.0 <= damage,
    {
        let mut script = Script::new(rolls);
        let left = self.damage_with_ward_from(damage, &mut script);
        proof {
            script.lemma_agrees();
        }
        match script.read() {
            Some(read) => Some((left, read)),
            None => None,
        }
    }

    /// One attack with dice from the source: the damage that it deals. The attack rolls
    /// to hit; each hit rolls to wound; each wound is rolled a save for; each unsaved
    /// wound deals the damage of the weapon; and the ward is rolled for each point of
    /// damage, mortal wounds included. An attack without a hit, or without a wound,
    /// deals only the mortal wounds that it has rolled so far.
    pub fn simulate_attack_from<S: Source>(&self, source: &mut S) -> (r: u32)
        requires
            self.can_attack(),
            old(source).valid(),
        ensures
            r <= self.weapon.max_attack_damage_value(),
            r <= self.weapon.max_attack_value(),
            follows(*old(source), *final(source)),
            forall|stream: spec_fn(int) -> u32| #[trigger]
                agrees(stream, final(source).drawn()) ==> sides_from(
                    final(source).drawn(),
                    old(source).drawn().len() as int,
                ) == self.attack_sides(stream, old(source).drawn().len() as int),
            forall|stream: spec_fn(int) -> u32| #[trigger]
                agrees(stream, final(source).drawn()) ==> self.attack_of(
                    stream,
                    old(source).drawn().len() as int,
                ) == (r as int, final(source).drawn().len() as int),
    {
        let ghost w = self.weapon;
        let ghost most_hits = w.max_results_value(RollCharacteristic::Hit);
        let ghost most_wounds_each = w.max_results_value(RollCharacteristic::Wound);
        let ghost most_mortals = w.max_mortals_value(RollCharacteristic::Wound);
        let ghost most_damage = w.max_wound_damage_value();
        proof {
            w.lemma_totals_floor();
            lemma_products(most_hits, most_wounds_each, most_mortals, most_damage);
        }
        let ghost start = source.drawn();
        let ghost given = source.given();
        proof {
            lemma_sides_none(start);
        }
        let ghost most_hit = w.max_hit_value();
        proof {
            w.lemma_attack_floor();
        }
        let (hits, mut damage) = self.roll_phase_from(RollCharacteristic::Hit, source);
        let ghost hit = source.drawn();
        let ghost hit_mortals = damage as int;
        proof {
            assert(hits * most_hit >= 0) by (nonlinear_arith)
                requires
                    hits >= 0,
                    most_hit >= 0,
            ;
            lemma_either_way(
                hits as int,
                hit_mortals,
                w.max_exploding_value(RollCharacteristic::Hit),
                most_hit,
                w.max_mortals_value(RollCharacteristic::Hit),
                w.max_added_mortals_value(RollCharacteristic::Hit),
            );
        }
        if hits == 0 {
            let left = self.damage_with_ward_from(damage, source);
            proof {
                lemma_sides_join(start.len() as int, hit, source.drawn());
                assert forall|stream: spec_fn(int) -> u32| #[trigger]
                    agrees(stream, source.drawn()) implies sides_from(
                    source.drawn(),
                    start.len() as int,
                ) == self.attack_sides(stream, start.len() as int) by {
                    lemma_agrees_before(stream, hit, source.drawn());
                }
                assert forall|stream: spec_fn(int) -> u32| #[trigger]
                    agrees(stream, source.drawn()) implies self.attack_of(
                    stream,
                    start.len() as int,
                ) == (left as int, source.drawn().len() as int) by {
                    lemma_agrees_before(stream, hit, source.drawn());
                }
            }
            return left;
        }
        let mut wounds: u32 = 0;
        let mut extra_damage: u32 = 0;
        let mut i: u32 = 0;
        proof {
            lemma_sides_none(hit);
        }
        while i < hits
            invariant
                i <= hits <= most_hits,
                self.can_attack(),
                w == self.weapon,
                most_wounds_each == w.max_results_value(RollCharacteristic::Wound),
                most_mortals == w.max_mortals_value(RollCharacteristic::Wound),
                0 <= most_wounds_each,
                0 <= most_mortals,
                most_hits * most_wounds_each <= u32::MAX,
                most_hits * most_mortals <= u32::MAX,
                wounds <= i * most_wounds_each,
                extra_damage <= i * most_mortals,
                most_damage == w.max_wound_damage_value(),
                most_hit == w.max_hit_value(),
                0 <= most_damage,
                extra_damage + wounds * most_damage <= i * most_hit,
                source.valid(),
                source.given() == given,
                extends(hit, source.drawn()),
                forall|stream: spec_fn(int) -> u32| #[trigger]
                    agrees(stream, source.drawn()) ==> sides_from(
                        source.drawn(),
                        hit.len() as int,
                    ) == self.wounds_sides(i as int, stream, hit.len() as int),
                forall|stream: spec_fn(int) -> u32| #[trigger]
                    agrees(stream, source.drawn()) ==> self.wounds_of(
                        i as int,
                        stream,
                        hit.len() as int,
                    ) == (PhaseValue {
                        results: wounds as int,
                        mortal_wounds: extra_damage as int,
                        next: source.drawn().len() as int,
                    }),
            decreases hits - i,
        {
            let ghost before = source.drawn();
            let (more_wounds, more_damage) = self.roll_phase_from(
                RollCharacteristic::Wound,
                source,
            );
            proof {
                lemma_next_product(i as int, most_hits, most_wounds_each);
                lemma_next_product(i as int, most_hits, most_mortals);
                lemma_either_way(
                    more_wounds as int,
                    more_damage as int,
                    w.max_exploding_value(RollCharacteristic::Wound),
                    most_damage,
                    w.max_mortals_value(RollCharacteristic::Wound),
                    w.max_added_mortals_value(RollCharacteristic::Wound),
                );
                assert((wounds + more_wounds) * most_damage == wounds * most_damage + more_wounds
                    * most_damage) by (nonlinear_arith);
                assert((i + 1) * most_hit == i * most_hit + most_hit) by (nonlinear_arith);
                lemma_sides_join(hit.len() as int, before, source.drawn());
                assert forall|stream: spec_fn(int) -> u32| #[trigger]
                    agrees(stream, source.drawn()) implies sides_from(
                    source.drawn(),
                    hit.len() as int,
                ) == self.wounds_sides(i + 1, stream, hit.len() as int) by {
                    lemma_agrees_before(stream, before, source.drawn());
                }
                assert forall|stream: spec_fn(int) -> u32| #[trigger]
                    agrees(stream, source.drawn()) implies self.wounds_of(
                    i + 1,
                    stream,
                    hit.len() as int,
                ) == (PhaseValue {
                    results: wounds + more_wounds,
                    mortal_wounds: extra_damage + more_damage,
                    next: source.drawn().len() as int,
                }) by {
                    lemma_agrees_before(stream, before, source.drawn());
                }
            }
            wounds = wounds + more_wounds;
            extra_damage = extra_damage + more_damage;
            i = i + 1;
        }
        proof {
            lemma_product_order(hits as int, most_hits, most_wounds_each);
            lemma_product_order(hits as int, most_hits, most_mortals);
        }
        let ghost wounded = source.drawn();
        damage = damage + extra_damage;
        if wounds == 0 {
            let left = self.damage_with_ward_from(damage, source);
            proof {
                lemma_sides_join(start.len() as int, hit, wounded);
                lemma_sides_join(start.len() as int, wounded, source.drawn());
                assert forall|stream: spec_fn(int) -> u32| #[trigger]
                    agrees(stream, source.drawn()) implies sides_from(
                    source.drawn(),
                    start.len() as int,
                ) == self.attack_sides(stream, start.len() as int) by {
                    lemma_agrees_before(stream, wounded, source.drawn());
                    lemma_agrees_before(stream, hit, wounded);
                }
                assert forall|stream: spec_fn(int) -> u32| #[trigger]
                    agrees(stream, source.drawn()) implies self.attack_of(
                    stream,
                    start.len() as int,
                ) == (left as int, source.drawn().len() as int) by {
                    lemma_agrees_before(stream, wounded, source.drawn());
                    lemma_agrees_before(stream, hit, wounded);
                }
            }
            return left;
        }
        let mut unsaved: u32 = 0;
        let mut j: u32 = 0;
        proof {
            lemma_sides_none(wounded);
        }
        while j < wounds
            invariant
                j <= wounds,
                unsaved <= j,
                self.can_attack(),
                source.valid(),
                source.given() == given,
                extends(wounded, source.drawn()),
                forall|stream: spec_fn(int) -> u32| #[trigger]
                    agrees(stream, source.drawn()) ==> sides_from(
                        source.drawn(),
                        wounded.len() as int,
                    ) == self.unsaved_sides(j as int, stream, wounded.len() as int),
                forall|stream: spec_fn(int) -> u32| #[trigger]
                    agrees(stream, source.drawn()) ==> self.unsaved_of(
                        j as int,
                        stream,
                        wounded.len() as int,
                    ) == (unsaved as int, source.drawn().len() as int),
            decreases wounds - j,
        {
            let ghost before = source.drawn();
            let saved = self.save_phase_from(source);
            proof {
                lemma_sides_join(wounded.len() as int, before, source.drawn());
                assert forall|stream: spec_fn(int) -> u32| #[trigger]
                    agrees(stream, source.drawn()) implies sides_from(
                    source.drawn(),
                    wounded.len() as int,
                ) == self.unsaved_sides(j + 1, stream, wounded.len() as int) by {
                    lemma_agrees_before(stream, before, source.drawn());
                }
                assert forall|stream: spec_fn(int) -> u32| #[trigger]
                    agrees(stream, source.drawn()) implies self.unsaved_of(
                    j + 1,
                    stream,
                    wounded.len() as int,
                ) == (
                    if saved {
                        unsaved as int
                    } else {
                        unsaved + 1
                    },
                    source.drawn().len() as int,
                ) by {
                    lemma_agrees_before(stream, before, source.drawn());
                }
            }
            if !saved {
                unsaved = unsaved + 1;
            }
            j = j + 1;
        }
        let ghost saved_to = source.drawn();
        let base = self.weapon.damage.roll_from(source);
        let ghost based = source.drawn();
        let damage_per_wound = base + self.roll_bonus_from(
            Characteristic::Value(ValueCharacteristic::Damage),
            source,
        );
        let ghost each = source.drawn();
        proof {
            lemma_product_pair(
                unsaved as int,
                most_hits * most_wounds_each,
                damage_per_wound as int,
                most_damage,
            );
            lemma_product_pair(
                unsaved as int,
                wounds as int,
                damage_per_wound as int,
                most_damage,
            );
        }
        let left = self.damage_with_ward_from(damage + unsaved * damage_per_wound, source);
        proof {
            assert(self.weapon.damage.sides() == self.weapon.damage@.sides());
            lemma_sides_join(start.len() as int, hit, wounded);
            lemma_sides_join(start.len() as int, wounded, saved_to);
            lemma_sides_join(start.len() as int, saved_to, based);
            lemma_sides_join(start.len() as int, based, each);
            lemma_sides_join(start.len() as int, each, source.drawn());
            assert forall|stream: spec_fn(int) -> u32| #[trigger]
                agrees(stream, source.drawn()) implies sides_from(
                source.drawn(),
                start.len() as int,
            ) == self.attack_sides(stream, start.len() as int) by {
                lemma_agrees_before(stream, each, source.drawn());
                lemma_agrees_before(stream, based, each);
                lemma_agrees_before(stream, saved_to, based);
                lemma_agrees_before(stream, wounded, saved_to);
                lemma_agrees_before(stream, hit, wounded);
            }
            assert forall|stream: spec_fn(int) -> u32| #[trigger]
                agrees(stream, source.drawn()) implies self.attack_of(stream, start.len() as int)
                == (left as int, source.drawn().len() as int) by {
                lemma_agrees_before(stream, each, source.drawn());
                lemma_agrees_before(stream, based, each);
                lemma_agrees_before(stream, saved_to, based);
                lemma_agrees_before(stream, wounded, saved_to);
                lemma_agrees_before(stream, hit, wounded);
            }
        }
        left
    }

    /// One attack: the damage that it deals, as the dice thrown give it.
    pub fn simulate_attack<T: Roller>(&self, roller: &T) -> (r: u32)
        requires
            self.can_attack(),
        ensures
            r <= self.weapon.max_attack_damage_value(),
            r <= self.weapon.max_attack_value(),
            exists|rolls: Seq<u32>|
                shown_by(rolls, self.attack_sides(stream_of(rolls), 0))
                    && self.attack_on(rolls) == (r as int, rolls.len() as int),
    {
        let mut source = Recorded::new(roller);
        let damage = self.simulate_attack_from(&mut source);
        proof {
            source.lemma_in_range();
            lemma_values_agree(source.drawn());
            let rolls = values_of(source.drawn());
            assert(shown_by(rolls, self.attack_sides(stream_of(rolls), 0))
                    && self.attack_on(rolls) == (damage as int, rolls.len() as int));
        }
        damage
    }

    /// The damage of one attack where the dice show the given rolls, and how many of
    /// the rolls were read; nothing where the rolls do not suffice.
    pub fn resolve_attack(&self, rolls: &Vec<u32>) -> (r: Option<(u32, usize)>)
        requires
            self.can_attack(),
        ensures
            r is Some <==> self.attack_on(rolls@).1 <= rolls@.len(),
            r matches Some(dealt) ==> self.attack_on(rolls@) == (dealt.0 as int, dealt.1 as int),
            r matches Some(dealt) ==> dealt.0 <= self.weapon.max_attack_value(),
    {
        let mut script = Script::new(rolls);
        let damage = self.simulate_attack_from(&mut script);
        proof {
            script.lemma_agrees();
        }
        match script.read() {
            Some(read) => Some((damage, read)),
            None => None,
        }
    }

    /// Rolls the extra attacks of the leaders with dice from the source, and adds them
    /// up.
    fn roll_leader_extra_attacks<S: Source>(&self, source: &mut S) -> (r: u32)
        requires
            self.weapon.has_sides(),
            self.weapon.max_leader_value() <= u32::MAX,
            old(source).valid(),
        ensures
            r <= self.weapon.max_leader_value(),
            reads_shares(
                *old(source),
                *final(source),
                self.weapon.abilities@,
                leader_share(),
                r as int,
            ),
    {
        let abilities = &self.weapon.abilities;
        let ghost high = leader_max();
        let ghost share = leader_share();
        let ghost start = source.drawn();
        let ghost given = source.given();
        proof {
            lemma_sides_none(start);
        }
        let mut total: u32 = 0;
        let mut i: usize = 0;
        while i < abilities.len()
            invariant
                i <= abilities.len(),
                abilities == &self.weapon.abilities,
                self.weapon.has_sides(),
                high == leader_max(),
                share == leader_share(),
                total_of(abilities@, high) <= u32::MAX,
                total <= total_of(abilities@.take(i as int), high),
                source.valid(),
                source.given() == given,
                extends(start, source.drawn()),
                source.drawn().len() == start.len() + shares_count(
                    abilities@.take(i as int),
                    share,
                ),
                sides_from(source.drawn(), start.len() as int) == shares_sides(
                    abilities@.take(i as int),
                    share,
                ),
                forall|stream: spec_fn(int) -> u32| #[trigger]
                    agrees(stream, source.drawn()) ==> total == shares_rolled(
                        abilities@.take(i as int),
                        share,
                        stream,
                        start.len() as int,
                    ),
            decreases abilities.len() - i,
        {
            proof {
                lemma_total_of_next(abilities@, i as int, high);
                lemma_total_of_part(abilities@, i as int, high);
                lemma_total_of_part(abilities@, i + 1, high);
                assert(abilities@.take(i + 1).drop_last() =~= abilities@.take(i as int));
            }
            let ghost before = source.drawn();
            let mut gained: u32 = 0;
            match &abilities[i] {
                Ability::LeaderExtraAttacks(a) => {
                    assert(ability_has_sides(abilities@[i as int]));
                    let rolled = a.value.roll_wide_from(source);
                    proof {
                        lemma_product_order(rolled as int, a.value.max_value(), a.models as int);
                        assert(a.models * rolled == rolled * a.models) by (nonlinear_arith);
                        assert(a.models * a.value.max_value() == a.value.max_value()
                            * a.models) by (nonlinear_arith);
                        if a.models > 0 {
                            lemma_factor_fits(a.models as int, rolled as int);
                        }
                    }
                    gained = if a.models == 0 {
                        0
                    } else {
                        a.models * (rolled as u32)
                    };
                    proof {
                        assert forall|stream: spec_fn(int) -> u32| #[trigger]
                            agrees(stream, source.drawn()) implies gained == a.models
                            * a.value@.rolled(stream, before.len() as int) by {
                            let read = a.value@.rolled(stream, before.len() as int);
                            assert(a.models == 0 ==> a.models * read == 0) by (nonlinear_arith);
                        }
                    }
                },
                _ => {},
            }
            proof {
                lemma_sides_join(start.len() as int, before, source.drawn());
                lemma_sides_none(before);
                assert forall|stream: spec_fn(int) -> u32| #[trigger]
                    agrees(stream, source.drawn()) implies total + gained == shares_rolled(
                    abilities@.take(i + 1),
                    share,
                    stream,
                    start.len() as int,
                ) by {
                    lemma_agrees_before(stream, before, source.drawn());
                }
            }
            total = total + gained;
            i = i + 1;
        }
        assert(abilities@.take(i as int) =~= abilities@);
        total
    }

    /// One trial with dice from the source: the damage of all attacks of the weapon.
    /// The attacks and the bonuses to them are rolled once and count for each model;
    /// the extra attacks of the leaders are added; then each attack is made in turn.
    pub fn simulate_damage_from<S: Source>(&self, source: &mut S) -> (r: u32)
        requires
            self.can_simulate(),
            old(source).valid(),
        ensures
            r <= self.weapon.max_simulated_value(),
            r <= self.weapon.max_trial_value(),
            r <= self.weapon.max_damage_value(),
            follows(*old(source), *final(source)),
            forall|stream: spec_fn(int) -> u32| #[trigger]
                agrees(stream, final(source).drawn()) ==> sides_from(
                    final(source).drawn(),
                    old(source).drawn().len() as int,
                ) == self.trial_sides(stream, old(source).drawn().len() as int),
            forall|stream: spec_fn(int) -> u32| #[trigger]
                agrees(stream, final(source).drawn()) ==> self.trial_of(
                    stream,
                    old(source).drawn().len() as int,
                ) == (r as int, final(source).drawn().len() as int),
    {
        let ghost w = self.weapon;
        let ghost most_each = w.max_attack_damage_value();
        let ghost most_attacks = w.max_attacks_value();
        let ghost attack_bonus = w.max_bonus_value(
            Characteristic::Value(ValueCharacteristic::Attacks),
        );
        proof {
            w.lemma_totals_floor();
            w.lemma_attack_floor();
            lemma_factor_fits(w.models as int, w.attacks.max_value() + attack_bonus);
        }
        let ghost start = source.drawn();
        let ghost given = source.given();
        proof {
            lemma_sides_none(start);
        }
        let base = self.weapon.attacks.roll_from(source);
        let ghost based = source.drawn();
        let per_model = base + self.roll_bonus_from(
            Characteristic::Value(ValueCharacteristic::Attacks),
            source,
        );
        let ghost bonused = source.drawn();
        proof {
            lemma_product_order(
                per_model as int,
                w.attacks.max_value() + attack_bonus,
                w.models as int,
            );
            assert(w.models * per_model == per_model * w.models) by (nonlinear_arith);
            assert(w.models * (w.attacks.max_value() + attack_bonus) == (w.attacks.max_value()
                + attack_bonus) * w.models) by (nonlinear_arith);
        }
        let mut total_attacks: u32 = self.weapon.models * per_model;
        total_attacks = total_attacks + self.roll_leader_extra_attacks(source);
        let ghost counted = source.drawn();
        proof {
            assert forall|stream: spec_fn(int) -> u32| #[trigger]
                agrees(stream, counted) implies self.attack_count_of(stream, start.len() as int)
                == (total_attacks as int, counted.len() as int) by {
                lemma_agrees_before(stream, bonused, counted);
                lemma_agrees_before(stream, based, bonused);
            }
        }
        let mut damage: u32 = 0;
        let mut i: u32 = 0;
        proof {
            assert(self.weapon.attacks.sides() == self.weapon.attacks@.sides());
            lemma_sides_join(start.len() as int, based, bonused);
            lemma_sides_join(start.len() as int, bonused, counted);
            lemma_sides_none(counted);
        }
        while i < total_attacks
            invariant
                i <= total_attacks <= most_attacks,
                self.can_simulate(),
                most_each == self.weapon.max_attack_damage_value(),
                0 <= most_each,
                most_attacks * most_each <= u32::MAX,
                damage <= i * most_each,
                0 <= self.weapon.max_attack_value(),
                damage <= i * self.weapon.max_attack_value(),
                source.valid(),
                source.given() == given,
                extends(counted, source.drawn()),
                forall|stream: spec_fn(int) -> u32| #[trigger]
                    agrees(stream, source.drawn()) ==> sides_from(
                        source.drawn(),
                        counted.len() as int,
                    ) == self.attacks_sides(i as int, stream, counted.len() as int),
                forall|stream: spec_fn(int) -> u32| #[trigger]
                    agrees(stream, source.drawn()) ==> self.attacks_of(
                        i as int,
                        stream,
                        counted.len() as int,
                    ) == (damage as int, source.drawn().len() as int),
            decreases total_attacks - i,
        {
            let ghost before = source.drawn();
            let more = self.simulate_attack_from(source);
            proof {
                lemma_next_product(i as int, most_attacks, most_each);
                lemma_next_product(i as int, most_attacks, self.weapon.max_attack_value());
                lemma_sides_join(counted.len() as int, before, source.drawn());
                assert forall|stream: spec_fn(int) -> u32| #[trigger]
                    agrees(stream, source.drawn()) implies sides_from(
                    source.drawn(),
                    counted.len() as int,
                ) == self.attacks_sides(i + 1, stream, counted.len() as int) by {
                    lemma_agrees_before(stream, before, source.drawn());
                }
                assert forall|stream: spec_fn(int) -> u32| #[trigger]
                    agrees(stream, source.drawn()) implies self.attacks_of(
                    i + 1,
                    stream,
                    counted.len() as int,
                ) == (damage + more, source.drawn().len() as int) by {
                    lemma_agrees_before(stream, before, source.drawn());
                }
            }
            damage = damage + more;
            i = i + 1;
        }
        proof {
            lemma_product_order(total_attacks as int, most_attacks, most_each);
            lemma_product_order(
                total_attacks as int,
                most_attacks,
                self.weapon.max_attack_value(),
            );
            lemma_sides_join(start.len() as int, counted, source.drawn());
            assert forall|stream: spec_fn(int) -> u32| #[trigger]
                agrees(stream, source.drawn()) implies sides_from(
                source.drawn(),
                start.len() as int,
            ) == self.trial_sides(stream, start.len() as int) by {
                lemma_agrees_before(stream, counted, source.drawn());
            }
            assert forall|stream: spec_fn(int) -> u32| #[trigger]
                agrees(stream, source.drawn()) implies self.trial_of(stream, start.len() as int)
                == (damage as int, source.drawn().len() as int) by {
                lemma_agrees_before(stream, counted, source.drawn());
            }
        }
        damage
    }

    /// One trial: the damage of all attacks of the weapon, as the dice thrown give it.
    pub fn simulate_damage<T: Roller>(&self, roller: &T) -> (r: u32)
        requires
            self.can_simulate(),
        ensures
            r <= self.weapon.max_simulated_value(),
            r <= self.weapon.max_damage_value(),
            exists|rolls: Seq<u32>|
                shown_by(rolls, self.trial_sides(stream_of(rolls), 0))
                    && self.trial_on(rolls) == (r as int, rolls.len() as int),
    {
        let mut source = Recorded::new(roller);
        let damage = self.simulate_damage_from(&mut source);
        proof {
            source.lemma_in_range();
            lemma_values_agree(source.drawn());
            let rolls = values_of(source.drawn());
            assert(shown_by(rolls, self.trial_sides(stream_of(rolls), 0))
                    && self.trial_on(rolls) == (damage as int, rolls.len() as int));
        }
        damage
    }

    /// The damage of one trial where the dice show the given rolls, and how many of the
    /// rolls were read; nothing where the rolls do not suffice.
    pub fn resolve_damage(&self, rolls: &Vec<u32>) -> (r: Option<(u32, usize)>)
        requires
            self.can_simulate(),
        ensures
            r is Some <==> self.trial_on(rolls@).1 <= rolls@.len(),
            r matches Some(dealt) ==> self.trial_on(rolls@) == (dealt.0 as int, dealt.1 as int),
            r matches Some(dealt) ==> dealt.0 <= self.weapon.max_damage_value(),
    {
        let mut script = Script::new(rolls);
        let damage = self.simulate_damage_from(&mut script);
        proof {
            script.lemma_agrees();
        }
        match script.read() {
            Some(read) => Some((damage, read)),
            None => None,
        }
    }
}

/// The hits or wounds and the mortal wounds of a roll that succeeds: one hit or wound,
/// unless mortal wounds take its place, and the extra ones.
pub fn phase_outcome(extra: u32, mortal_wounds: u32, in_addition: bool) -> (r: (u32, u32))
    requires
        1 + extra <= u32::MAX,
    ensures
        r.0 == if in_addition {
            1 + extra
        } else {
            extra as int
        },
        r.1 == mortal_wounds,
{
    if in_addition {
        (1 + extra, mortal_wounds)
    } else {
        (extra, mortal_wounds)
    }
}

/// Where no mortal wounds take the place of a roll, the mortal wounds that take effect
/// for it are at most those that come in addition.
pub proof fn lemma_kept_mortals(
    abilities: Seq<Ability>,
    phase: RollCharacteristic,
    roll: u32,
    target: RollTarget<u32, i32>,
)
    requires
        forall|i: int|
            0 <= i < abilities.len() ==> !takes_roll(#[trigger] abilities[i], phase, roll, target),
    ensures
        total_of(abilities, mortals_max_on(phase, roll, target)) <= total_of(
            abilities,
            added_mortals_max(phase),
        ),
    decreases abilities.len(),
{
    if abilities.len() > 0 {
        let rest = abilities.drop_last();
        assert forall|i: int| 0 <= i < rest.len() implies !takes_roll(
            #[trigger] rest[i],
            phase,
            roll,
            target,
        ) by {
            assert(rest[i] == abilities[i]);
        }
        lemma_kept_mortals(rest, phase, roll, target);
        assert(!takes_roll(abilities[abilities.len() - 1], phase, roll, target));
    }
}

/// The save bonuses of a part of the abilities are at most those of all, and not below
/// zero.
pub proof fn lemma_save_bonus_part(abilities: Seq<OpponentAbility>, i: int)
    requires
        0 <= i <= abilities.len(),
    ensures
        0 <= total_save_bonus(abilities.take(i)) <= total_save_bonus(abilities),
    decreases abilities.len() - i,
{
    if i < abilities.len() {
        assert(abilities.take(i + 1).drop_last() =~= abilities.take(i));
        lemma_save_bonus_part(abilities, i + 1);
        lemma_save_bonus_floor(abilities.take(i));
    } else {
        assert(abilities.take(i) =~= abilities);
        lemma_save_bonus_floor(abilities);
    }
}

/// No sum of save bonuses is below zero.
pub proof fn lemma_save_bonus_floor(abilities: Seq<OpponentAbility>)
    ensures
        0 <= total_save_bonus(abilities),
    decreases abilities.len(),
{
    if abilities.len() > 0 {
        lemma_save_bonus_floor(abilities.drop_last());
    }
}

/// A product of numbers that are not below zero is not below zero, and a factor of one
/// or more leaves the other within the product.
proof fn lemma_factor_fits(a: int, b: int)
    requires
        a >= 1,
        b >= 0,
    ensures
        b <= a * b,
{
    assert(b <= a * b) by (nonlinear_arith)
        requires
            a >= 1,
            b >= 0,
    ;
}

/// A smaller factor gives no larger product, where nothing is below zero.
proof fn lemma_product_order(a: int, most: int, b: int)
    requires
        0 <= a <= most,
        0 <= b,
    ensures
        0 <= a * b <= most * b,
{
    assert(0 <= a * b <= most * b) by (nonlinear_arith)
        requires
            0 <= a <= most,
            0 <= b,
    ;
}

/// One more of a number, and that no more of it than the most.
proof fn lemma_next_product(i: int, most: int, b: int)
    requires
        0 <= i < most,
        0 <= b,
    ensures
        i * b + b == (i + 1) * b,
        (i + 1) * b <= most * b,
{
    assert(i * b + b == (i + 1) * b) by (nonlinear_arith);
    assert((i + 1) * b <= most * b) by (nonlinear_arith)
        requires
            0 <= i < most,
            0 <= b,
    ;
}

/// Smaller factors give no larger product, where nothing is below zero.
proof fn lemma_product_pair(a: int, most_a: int, b: int, most_b: int)
    requires
        0 <= a <= most_a,
        0 <= b <= most_b,
    ensures
        0 <= a * b <= most_a * most_b,
{
    assert(0 <= a * b <= most_a * most_b) by (nonlinear_arith)
        requires
            0 <= a <= most_a,
            0 <= b <= most_b,
    ;
}

/// The products that the largest damage of an attack is made of are not below zero.
proof fn lemma_products(hits: int, wounds_each: int, mortals: int, damage: int)
    requires
        hits >= 1,
        wounds_each >= 1,
        mortals >= 0,
        damage >= 0,
    ensures
        hits * mortals >= 0,
        hits * wounds_each >= hits,
        hits * wounds_each * damage >= 0,
{
    assert(hits * mortals >= 0) by (nonlinear_arith)
        requires
            hits >= 1,
            mortals >= 0,
    ;
    assert(hits * wounds_each >= hits) by (nonlinear_arith)
        requires
            hits >= 1,
            wounds_each >= 1,
    ;
    assert(hits * wounds_each * damage >= 0) by (nonlinear_arith)
        requires
            hits * wounds_each >= 1,
            damage >= 0,
    ;
}

/// Whether a roll may be rolled again.
pub fn can_reroll(reroll: Option<RerollType>, roll: u32, target: &RollTarget<u32, i32>) -> (r:
    bool)
    ensures
        r == may_reroll(reroll, roll, *target),
{
    if target.is_met_by(roll, false) {
        return false;
    }
    match reroll {
        Some(RerollType::Any) => true,
        Some(RerollType::Failed) => !target.is_met_by(roll, true),
        Some(RerollType::Ones) => roll == 1,
        None => false,
    }
}

} // verus!
