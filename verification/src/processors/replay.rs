//! What a simulated attack sequence gives, as a function of the rolls that it reads.
//!
//! Every function here takes a stream of rolls and the place of the next roll in it, and
//! says what the step makes of the rolls from that place on and where the step ends.
//! Each roll is read as the die that is rolled at its place reads it. Beside each stands
//! a function that says which dice the step throws, by their sides and in their order.
use super::roll_target::RollTarget;
use super::simulation::{may_reroll, takes_effect, RerollPhase, SimulatedDamageProcessor};
use crate::abilities::opponent::OpponentAbility;
use crate::abilities::weapon::Ability;
use crate::abilities::{Characteristic, RerollType, RollCharacteristic, ValueCharacteristic};
use crate::rollable::{die, same_sides, stream_of, NotationValue};
use vstd::prelude::*;

verus! {

/// What an ability rolls towards a sum: the dice, and how many times their roll counts.
pub struct Share {
    pub times: int,
    pub dice: NotationValue,
}

/// The bonuses to a characteristic: each counts once.
pub open spec fn bonus_share(characteristic: Characteristic) -> spec_fn(Ability) -> Option<Share> {
    |ability: Ability|
        match ability {
            Ability::Bonus(a) if a.characteristic == characteristic => Some(
                Share { times: 1, dice: a.value@ },
            ),
            _ => None,
        }
}

/// The extra attacks of leaders: each counts once for each leader.
pub open spec fn leader_share() -> spec_fn(Ability) -> Option<Share> {
    |ability: Ability|
        match ability {
            Ability::LeaderExtraAttacks(a) => Some(
                Share { times: a.models as int, dice: a.value@ },
            ),
            _ => None,
        }
}

/// The extra hits or wounds of the exploding abilities that take effect for a roll.
pub open spec fn exploding_share(
    phase: RollCharacteristic,
    roll: u32,
    target: RollTarget<u32, i32>,
) -> spec_fn(Ability) -> Option<Share> {
    |ability: Ability|
        match ability {
            Ability::Exploding(a) if a.characteristic == phase && takes_effect(
                a.on,
                a.unmodified,
                roll,
                target,
            ) => Some(Share { times: 1, dice: a.extra@ }),
            _ => None,
        }
}

/// The mortal wounds of the abilities that take effect for a roll.
pub open spec fn mortals_share(
    phase: RollCharacteristic,
    roll: u32,
    target: RollTarget<u32, i32>,
) -> spec_fn(Ability) -> Option<Share> {
    |ability: Ability|
        match ability {
            Ability::MortalWounds(a) if a.characteristic == phase && takes_effect(
                a.on,
                a.unmodified,
                roll,
                target,
            ) => Some(Share { times: 1, dice: a.mortals@ }),
            _ => None,
        }
}

/// How many rolls the shares of the given abilities read.
pub open spec fn shares_count(abilities: Seq<Ability>, share: spec_fn(Ability) -> Option<Share>) -> int
    decreases abilities.len(),
{
    if abilities.len() == 0 {
        0
    } else {
        shares_count(abilities.drop_last(), share) + match share(abilities.last()) {
            Some(s) => s.dice.count(),
            None => 0,
        }
    }
}

/// The sum of the shares of the given abilities, rolled one after the other in the order
/// of the abilities, from the place `at` of the stream on.
pub open spec fn shares_rolled(
    abilities: Seq<Ability>,
    share: spec_fn(Ability) -> Option<Share>,
    stream: spec_fn(int) -> u32,
    at: int,
) -> int
    decreases abilities.len(),
{
    if abilities.len() == 0 {
        0
    } else {
        shares_rolled(abilities.drop_last(), share, stream, at) + match share(abilities.last()) {
            Some(s) => s.times * s.dice.rolled(
                stream,
                at + shares_count(abilities.drop_last(), share),
            ),
            None => 0,
        }
    }
}

/// The sides of the dice that the shares of the given abilities throw, in the order of
/// the abilities.
pub open spec fn shares_sides(abilities: Seq<Ability>, share: spec_fn(Ability) -> Option<Share>) -> Seq<
    u32,
>
    decreases abilities.len(),
{
    if abilities.len() == 0 {
        Seq::empty()
    } else {
        shares_sides(abilities.drop_last(), share) + match share(abilities.last()) {
            Some(s) => s.dice.sides(),
            None => Seq::empty(),
        }
    }
}

/// The sides of the dice that the save bonuses of the given abilities throw, in the
/// order of the abilities.
pub open spec fn save_bonus_sides(abilities: Seq<OpponentAbility>) -> Seq<u32>
    decreases abilities.len(),
{
    if abilities.len() == 0 {
        Seq::empty()
    } else {
        save_bonus_sides(abilities.drop_last()) + match abilities.last() {
            OpponentAbility::SaveBonus(a) => a.value@.sides(),
            _ => Seq::empty(),
        }
    }
}

/// How many rolls the save bonuses of the given abilities read.
pub open spec fn save_bonus_count(abilities: Seq<OpponentAbility>) -> int
    decreases abilities.len(),
{
    if abilities.len() == 0 {
        0
    } else {
        save_bonus_count(abilities.drop_last()) + match abilities.last() {
            OpponentAbility::SaveBonus(a) => a.value@.count(),
            _ => 0,
        }
    }
}

/// The sum of the save bonuses of the given abilities, rolled one after the other from
/// the place `at` of the stream on.
pub open spec fn save_bonus_rolled(
    abilities: Seq<OpponentAbility>,
    stream: spec_fn(int) -> u32,
    at: int,
) -> int
    decreases abilities.len(),
{
    if abilities.len() == 0 {
        0
    } else {
        save_bonus_rolled(abilities.drop_last(), stream, at) + match abilities.last() {
            OpponentAbility::SaveBonus(a) => a.value@.rolled(
                stream,
                at + save_bonus_count(abilities.drop_last()),
            ),
            _ => 0,
        }
    }
}

/// The rerolls of a rank, or none for a rank that no rerolls have.
pub open spec fn reroll_of_rank(rank: int) -> Option<RerollType> {
    if rank == RerollType::Any.rank() {
        Some(RerollType::Any)
    } else if rank == RerollType::Failed.rank() {
        Some(RerollType::Failed)
    } else if rank == RerollType::Ones.rank() {
        Some(RerollType::Ones)
    } else {
        None
    }
}

/// A six-sided die rolled against a target at the place `at`, and rolled again at the
/// next place where the first roll may be: the roll that counts, and the place behind
/// the rolls read.
pub open spec fn rerolled(
    reroll: Option<RerollType>,
    target: RollTarget<u32, i32>,
    stream: spec_fn(int) -> u32,
    at: int,
) -> (int, int) {
    let first = die(stream, at, 6);
    if may_reroll(reroll, first as u32, target) {
        (die(stream, at + 1, 6), at + 2)
    } else {
        (first, at + 1)
    }
}

/// How many of `count` six-sided dice, rolled from the place `at` on, show `on` or more.
pub open spec fn ward_saves(on: u32, count: int, stream: spec_fn(int) -> u32, at: int) -> int
    decreases count,
{
    if count <= 0 {
        0
    } else {
        ward_saves(on, count - 1, stream, at) + if die(stream, at + count - 1, 6) >= on {
            1int
        } else {
            0int
        }
    }
}

/// The hits or wounds and the mortal wounds that one roll of a phase gives.
pub struct PhaseValue {
    pub results: int,
    pub mortal_wounds: int,
    pub next: int,
}

impl<'a> SimulatedDamageProcessor<'a> {
    /// What a roll of a phase gives against its target, with the dice that follow it read
    /// from the place `at` on. A roll below the target gives nothing and reads nothing.
    /// Another gives one hit or wound, unless mortal wounds take its place, with the
    /// extra ones of the exploding abilities, which are rolled first, and the mortal
    /// wounds, which are rolled next.
    pub open spec fn outcome_of(
        &self,
        phase: RollCharacteristic,
        roll: u32,
        target: RollTarget<u32, i32>,
        stream: spec_fn(int) -> u32,
        at: int,
    ) -> PhaseValue {
        let abilities = self.weapon.abilities@;
        if roll >= target.exact_value(false) {
            let exploding = exploding_share(phase, roll, target);
            let mortals = mortals_share(phase, roll, target);
            let extra = shares_rolled(abilities, exploding, stream, at);
            let exploded = at + shares_count(abilities, exploding);
            PhaseValue {
                results: if self.keeps_roll(phase, roll, target) {
                    1 + extra
                } else {
                    extra
                },
                mortal_wounds: shares_rolled(abilities, mortals, stream, exploded),
                next: exploded + shares_count(abilities, mortals),
            }
        } else {
            PhaseValue { results: 0, mortal_wounds: 0, next: at }
        }
    }

    /// One roll to hit or to wound, read from the place `at` on. First the bonuses to
    /// the roll are rolled, which lower the roll needed, though not below two. Then the
    /// die is rolled, and rolled again where the rerolls of the weapon allow it. Then
    /// comes what the roll gives against the target.
    pub open spec fn phase_of(
        &self,
        phase: RollCharacteristic,
        stream: spec_fn(int) -> u32,
        at: int,
    ) -> PhaseValue {
        let abilities = self.weapon.abilities@;
        let bonus = bonus_share(Characteristic::Roll(phase));
        let target = RollTarget {
            initial: self.weapon.needed(phase),
            modifier: shares_rolled(abilities, bonus, stream, at) as i32,
            min_value: Some(2u32),
        };
        let (roll, rolled) = rerolled(
            reroll_of_rank(self.reroll_rank(RerollPhase::Weapon(phase))),
            target,
            stream,
            at + shares_count(abilities, bonus),
        );
        self.outcome_of(phase, roll as u32, target, stream, rolled)
    }

    /// The rolls to wound of the given number of hits, one after the other: the wounds
    /// and the mortal wounds of them all.
    pub open spec fn wounds_of(&self, hits: int, stream: spec_fn(int) -> u32, at: int) -> PhaseValue
        decreases hits,
    {
        if hits <= 0 {
            PhaseValue { results: 0, mortal_wounds: 0, next: at }
        } else {
            let before = self.wounds_of(hits - 1, stream, at);
            let last = self.phase_of(RollCharacteristic::Wound, stream, before.next);
            PhaseValue {
                results: before.results + last.results,
                mortal_wounds: before.mortal_wounds + last.mortal_wounds,
                next: last.next,
            }
        }
    }

    /// The target of a save roll, read from the place `at` on, and the place behind the
    /// rolls read. The save is never easier than one less than it stands, nor than two.
    /// Unless the opponent ignores modifiers, the rend and the bonuses to it, which are
    /// rolled first, make the save harder, and the save bonuses of the opponent, which
    /// are rolled next, make it easier.
    pub open spec fn save_target_of(&self, stream: spec_fn(int) -> u32, at: int) -> (
        RollTarget<u32, i32>,
        int,
    ) {
        let floor = if self.save - 1 > 2 {
            (self.save - 1) as u32
        } else {
            2u32
        };
        if self.ignores_modifiers() {
            (RollTarget { initial: self.save, modifier: 0i32, min_value: Some(floor) }, at)
        } else {
            let abilities = self.weapon.abilities@;
            let rend_bonus = bonus_share(Characteristic::Value(ValueCharacteristic::Rend));
            let rend = self.weapon.rend + shares_rolled(abilities, rend_bonus, stream, at);
            let rended = at + shares_count(abilities, rend_bonus);
            let of_opponent = match self.opponent {
                Some(opponent) => opponent.abilities@,
                None => Seq::empty(),
            };
            (
                RollTarget {
                    initial: self.save,
                    modifier: (save_bonus_rolled(of_opponent, stream, rended) - rend) as i32,
                    min_value: Some(floor),
                },
                rended + save_bonus_count(of_opponent),
            )
        }
    }

    /// One save roll, read from the place `at` on: whether the wound is saved, and the
    /// place behind the rolls read. The die is rolled against the target of the save,
    /// and rolled again where the rerolls of the opponent allow it.
    pub open spec fn save_of(&self, stream: spec_fn(int) -> u32, at: int) -> (bool, int) {
        let (target, targeted) = self.save_target_of(stream, at);
        let (roll, rolled) = rerolled(
            reroll_of_rank(self.reroll_rank(RerollPhase::Opponent)),
            target,
            stream,
            targeted,
        );
        (roll >= target.exact_value(false), rolled)
    }

    /// The save rolls of the given number of wounds, one after the other: how many are
    /// not saved, and the place behind the rolls read.
    pub open spec fn unsaved_of(&self, wounds: int, stream: spec_fn(int) -> u32, at: int) -> (
        int,
        int,
    )
        decreases wounds,
    {
        if wounds <= 0 {
            (0, at)
        } else {
            let (unsaved, saved_to) = self.unsaved_of(wounds - 1, stream, at);
            let (saved, next) = self.save_of(stream, saved_to);
            (
                if saved {
                    unsaved
                } else {
                    unsaved + 1
                },
                next,
            )
        }
    }

    /// The damage that the ward leaves, and the place behind the rolls read. With a
    /// ward, one six-sided die is rolled for each point of damage, and each roll of the
    /// ward's number or more takes one point off. Without one, nothing is rolled.
    pub open spec fn ward_of(&self, damage: int, stream: spec_fn(int) -> u32, at: int) -> (
        int,
        int,
    ) {
        if self.ward_roll() < 0 {
            (damage, at)
        } else {
            (damage - ward_saves(self.ward_roll() as u32, damage, stream, at), at + damage)
        }
    }

    /// One attack, read from the place `at` on: the damage that it deals, and the place
    /// behind the rolls read. The rolls come in this order: the roll to hit; for each
    /// hit, the roll to wound; for each wound, the save; the damage of the weapon and
    /// the bonuses to it, once for all unsaved wounds; and the ward, for each point of
    /// damage, mortal wounds included. Without a hit, or without a wound, the ward is
    /// rolled for the mortal wounds so far and nothing else is.
    pub open spec fn attack_of(&self, stream: spec_fn(int) -> u32, at: int) -> (int, int) {
        let hit = self.phase_of(RollCharacteristic::Hit, stream, at);
        if hit.results == 0 {
            self.ward_of(hit.mortal_wounds, stream, hit.next)
        } else {
            let wound = self.wounds_of(hit.results, stream, hit.next);
            let mortal_wounds = hit.mortal_wounds + wound.mortal_wounds;
            if wound.results == 0 {
                self.ward_of(mortal_wounds, stream, wound.next)
            } else {
                let (unsaved, saved_to) = self.unsaved_of(wound.results, stream, wound.next);
                let bonus = bonus_share(Characteristic::Value(ValueCharacteristic::Damage));
                let each = self.weapon.damage@.rolled(stream, saved_to) + shares_rolled(
                    self.weapon.abilities@,
                    bonus,
                    stream,
                    saved_to + self.weapon.damage@.count(),
                );
                self.ward_of(
                    mortal_wounds + unsaved * each,
                    stream,
                    saved_to + self.weapon.damage@.count() + shares_count(
                        self.weapon.abilities@,
                        bonus,
                    ),
                )
            }
        }
    }

    /// The given number of attacks, one after the other: the damage of them all, and the
    /// place behind the rolls read.
    pub open spec fn attacks_of(&self, attacks: int, stream: spec_fn(int) -> u32, at: int) -> (
        int,
        int,
    )
        decreases attacks,
    {
        if attacks <= 0 {
            (0, at)
        } else {
            let (damage, attacked_to) = self.attacks_of(attacks - 1, stream, at);
            let (more, next) = self.attack_of(stream, attacked_to);
            (damage + more, next)
        }
    }

    /// How many attacks a trial makes, read from the place `at` on, and the place behind
    /// the rolls read: the attacks of the weapon and the bonuses to them, rolled once
    /// and counted for each model, and the extra attacks of the leaders.
    pub open spec fn attack_count_of(&self, stream: spec_fn(int) -> u32, at: int) -> (int, int) {
        let abilities = self.weapon.abilities@;
        let bonus = bonus_share(Characteristic::Value(ValueCharacteristic::Attacks));
        let bonus_at = at + self.weapon.attacks@.count();
        let leader_at = bonus_at + shares_count(abilities, bonus);
        (
            self.weapon.models * (self.weapon.attacks@.rolled(stream, at) + shares_rolled(
                abilities,
                bonus,
                stream,
                bonus_at,
            )) + shares_rolled(abilities, leader_share(), stream, leader_at),
            leader_at + shares_count(abilities, leader_share()),
        )
    }

    /// One trial, read from the place `at` on: the damage of all attacks of the weapon,
    /// and the place behind the rolls read. The number of attacks is rolled first, then
    /// each attack in turn.
    pub open spec fn trial_of(&self, stream: spec_fn(int) -> u32, at: int) -> (int, int) {
        let (attacks, counted) = self.attack_count_of(stream, at);
        self.attacks_of(attacks, stream, counted)
    }

    /// The sides of the dice that follow a roll of a phase: those of the exploding
    /// abilities and then those of the mortal wounds that take effect for the roll, and
    /// none for a roll below the target.
    pub open spec fn outcome_sides(
        &self,
        phase: RollCharacteristic,
        roll: u32,
        target: RollTarget<u32, i32>,
    ) -> Seq<u32> {
        let abilities = self.weapon.abilities@;
        if roll >= target.exact_value(false) {
            shares_sides(abilities, exploding_share(phase, roll, target)) + shares_sides(
                abilities,
                mortals_share(phase, roll, target),
            )
        } else {
            Seq::empty()
        }
    }

    /// The sides of the dice that one roll to hit or to wound throws, read from the
    /// place `at` on: those of the bonuses to the roll, one six-sided die or two, and
    /// those that follow the roll.
    pub open spec fn phase_sides(
        &self,
        phase: RollCharacteristic,
        stream: spec_fn(int) -> u32,
        at: int,
    ) -> Seq<u32> {
        let abilities = self.weapon.abilities@;
        let bonus = bonus_share(Characteristic::Roll(phase));
        let target = RollTarget {
            initial: self.weapon.needed(phase),
            modifier: shares_rolled(abilities, bonus, stream, at) as i32,
            min_value: Some(2u32),
        };
        let first = at + shares_count(abilities, bonus);
        let (roll, rolled) = rerolled(
            reroll_of_rank(self.reroll_rank(RerollPhase::Weapon(phase))),
            target,
            stream,
            first,
        );
        shares_sides(abilities, bonus) + same_sides(rolled - first, 6) + self.outcome_sides(
            phase,
            roll as u32,
            target,
        )
    }

    /// The sides of the dice that the rolls to wound of the given number of hits throw.
    pub open spec fn wounds_sides(&self, hits: int, stream: spec_fn(int) -> u32, at: int) -> Seq<
        u32,
    >
        decreases hits,
    {
        if hits <= 0 {
            Seq::empty()
        } else {
            self.wounds_sides(hits - 1, stream, at) + self.phase_sides(
                RollCharacteristic::Wound,
                stream,
                self.wounds_of(hits - 1, stream, at).next,
            )
        }
    }

    /// The sides of the dice that one save roll throws, read from the place `at` on:
    /// unless the opponent ignores modifiers, those of the bonuses to the rend and those
    /// of the save bonuses; then one six-sided die or two.
    pub open spec fn save_sides(&self, stream: spec_fn(int) -> u32, at: int) -> Seq<u32> {
        let (target, targeted) = self.save_target_of(stream, at);
        let (roll, rolled) = rerolled(
            reroll_of_rank(self.reroll_rank(RerollPhase::Opponent)),
            target,
            stream,
            targeted,
        );
        let modifiers = if self.ignores_modifiers() {
            Seq::empty()
        } else {
            shares_sides(
                self.weapon.abilities@,
                bonus_share(Characteristic::Value(ValueCharacteristic::Rend)),
            ) + save_bonus_sides(self.opponent_abilities())
        };
        modifiers + same_sides(rolled - targeted, 6)
    }

    /// The sides of the dice that the save rolls of the given number of wounds throw.
    pub open spec fn unsaved_sides(&self, wounds: int, stream: spec_fn(int) -> u32, at: int) -> Seq<
        u32,
    >
        decreases wounds,
    {
        if wounds <= 0 {
            Seq::empty()
        } else {
            self.unsaved_sides(wounds - 1, stream, at) + self.save_sides(
                stream,
                self.unsaved_of(wounds - 1, stream, at).1,
            )
        }
    }

    /// The sides of the dice that the ward throws for the given damage: one six-sided
    /// die for each point with a ward, and none without.
    pub open spec fn ward_sides(&self, damage: int) -> Seq<u32> {
        if self.ward_roll() < 0 {
            Seq::empty()
        } else {
            same_sides(damage, 6)
        }
    }

    /// The sides of the dice that one attack throws, read from the place `at` on, in the
    /// order in which it throws them.
    pub open spec fn attack_sides(&self, stream: spec_fn(int) -> u32, at: int) -> Seq<u32> {
        let hit = self.phase_of(RollCharacteristic::Hit, stream, at);
        let hit_sides = self.phase_sides(RollCharacteristic::Hit, stream, at);
        if hit.results == 0 {
            hit_sides + self.ward_sides(hit.mortal_wounds)
        } else {
            let wound = self.wounds_of(hit.results, stream, hit.next);
            let wound_sides = self.wounds_sides(hit.results, stream, hit.next);
            let mortal_wounds = hit.mortal_wounds + wound.mortal_wounds;
            if wound.results == 0 {
                hit_sides + wound_sides + self.ward_sides(mortal_wounds)
            } else {
                let (unsaved, saved_to) = self.unsaved_of(wound.results, stream, wound.next);
                let bonus = bonus_share(Characteristic::Value(ValueCharacteristic::Damage));
                let each = self.weapon.damage@.rolled(stream, saved_to) + shares_rolled(
                    self.weapon.abilities@,
                    bonus,
                    stream,
                    saved_to + self.weapon.damage@.count(),
                );
                hit_sides + wound_sides + self.unsaved_sides(wound.results, stream, wound.next)
                    + self.weapon.damage@.sides() + shares_sides(self.weapon.abilities@, bonus)
                    + self.ward_sides(mortal_wounds + unsaved * each)
            }
        }
    }

    /// The sides of the dice that the given number of attacks throw.
    pub open spec fn attacks_sides(&self, attacks: int, stream: spec_fn(int) -> u32, at: int) -> Seq<
        u32,
    >
        decreases attacks,
    {
        if attacks <= 0 {
            Seq::empty()
        } else {
            self.attacks_sides(attacks - 1, stream, at) + self.attack_sides(
                stream,
                self.attacks_of(attacks - 1, stream, at).1,
            )
        }
    }

    /// The sides of the dice that one trial throws, read from the place `at` on: those
    /// of the attacks of the weapon, of the bonuses to them and of the extra attacks of
    /// the leaders, and then those of each attack in turn.
    pub open spec fn trial_sides(&self, stream: spec_fn(int) -> u32, at: int) -> Seq<u32> {
        let abilities = self.weapon.abilities@;
        let (attacks, counted) = self.attack_count_of(stream, at);
        self.weapon.attacks@.sides() + shares_sides(
            abilities,
            bonus_share(Characteristic::Value(ValueCharacteristic::Attacks)),
        ) + shares_sides(abilities, leader_share()) + self.attacks_sides(attacks, stream, counted)
    }

    /// What one attack makes of the given rolls, read from the first on: the damage,
    /// and how many rolls it reads. A roll that is missing is read as 1.
    pub open spec fn attack_on(&self, rolls: Seq<u32>) -> (int, int) {
        self.attack_of(stream_of(rolls), 0)
    }

    /// What one trial makes of the given rolls, read from the first on: the damage, and
    /// how many rolls it reads. A roll that is missing is read as 1.
    pub open spec fn trial_on(&self, rolls: Seq<u32>) -> (int, int) {
        self.trial_of(stream_of(rolls), 0)
    }

    /// What the ward makes of the given rolls, read from the first on: the damage that
    /// is left of the given damage, and how many rolls it reads.
    pub open spec fn ward_on(&self, damage: int, rolls: Seq<u32>) -> (int, int) {
        self.ward_of(damage, stream_of(rolls), 0)
    }
}

} // verus!
