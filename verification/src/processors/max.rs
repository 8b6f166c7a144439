//! The largest damage that a weapon can deal.
use super::capped::{larger, LIMIT};
use super::totals::mul_capped;
use crate::abilities::{Characteristic, RollCharacteristic, ValueCharacteristic};
use crate::rollable::Rollable;
use crate::weapon::Weapon;
use vstd::prelude::*;

verus! {

/// The most that one roll and what follows it can give. The roll gives a hit or wound
/// and up to `extra` more of them, each of which leads to at most `each`. Where mortal
/// wounds take the place of the roll, up to `all` of them are dealt and the roll itself
/// leads to nothing; else up to `added` of them are dealt and it does.
pub open spec fn either_way(extra: int, each: int, all: int, added: int) -> int {
    larger(extra * each + all, (1 + extra) * each + added)
}

/// What a roll gives, and what follows it, stays within [`either_way`].
pub proof fn lemma_either_way(
    results: int,
    mortals: int,
    extra: int,
    each: int,
    all: int,
    added: int,
)
    requires
        0 <= each,
        0 <= results,
        (results <= extra && mortals <= all) || (results <= 1 + extra && mortals <= added),
    ensures
        results * each + mortals <= either_way(extra, each, all, added),
{
    if results <= extra && mortals <= all {
        assert(results * each <= extra * each) by (nonlinear_arith)
            requires
                0 <= results <= extra,
                0 <= each,
        ;
    } else {
        assert(results * each <= (1 + extra) * each) by (nonlinear_arith)
            requires
                0 <= results <= 1 + extra,
                0 <= each,
        ;
    }
}

impl Weapon {
    /// The largest damage where every roll that counts deals all it can: every wound
    /// roll the damage of a wound, and every hit and wound roll the mortal wounds that
    /// come in addition to it. Where the mortal wounds of one phase alone are more than
    /// all of that, they are the largest.
    pub open spec fn max_pooled_value(&self) -> int {
        let hit_rolls = self.max_hit_rolls_value();
        let wound_rolls = self.max_wound_rolls_value();
        let damage = wound_rolls * self.max_wound_damage_value() + hit_rolls
            * self.max_added_mortals_value(RollCharacteristic::Hit) + wound_rolls
            * self.max_added_mortals_value(RollCharacteristic::Wound);
        larger(
            damage,
            larger(
                hit_rolls * self.max_mortals_value(RollCharacteristic::Hit),
                wound_rolls * self.max_mortals_value(RollCharacteristic::Wound),
            ),
        )
    }

    /// The most damage that follows from one hit: its roll to wound with the wounds and
    /// mortal wounds of it, and the damage of each wound.
    pub open spec fn max_hit_value(&self) -> int {
        either_way(
            self.max_exploding_value(RollCharacteristic::Wound),
            self.max_wound_damage_value(),
            self.max_mortals_value(RollCharacteristic::Wound),
            self.max_added_mortals_value(RollCharacteristic::Wound),
        )
    }

    /// The most damage of one attack: its roll to hit with the hits and mortal wounds
    /// of it, and what follows from each hit.
    pub open spec fn max_attack_value(&self) -> int {
        either_way(
            self.max_exploding_value(RollCharacteristic::Hit),
            self.max_hit_value(),
            self.max_mortals_value(RollCharacteristic::Hit),
            self.max_added_mortals_value(RollCharacteristic::Hit),
        )
    }

    /// The most damage of all attacks, made one by one.
    pub open spec fn max_trial_value(&self) -> int {
        self.max_attacks_value() * self.max_attack_value()
    }

    /// The largest damage of the weapon, with every die at its largest roll and every
    /// ability in effect: the larger of what the rolls deal where each deals all it can,
    /// and of what the attacks deal where they are made one by one. No attacks of the
    /// weapon deal more.
    pub open spec fn max_damage_value(&self) -> int {
        larger(self.max_pooled_value(), self.max_trial_value())
    }

    /// Neither the most of a hit nor that of an attack is below zero.
    pub proof fn lemma_attack_floor(&self)
        ensures
            0 <= self.max_hit_value(),
            0 <= self.max_attack_value(),
            0 <= self.max_trial_value() <= self.max_damage_value(),
    {
        self.lemma_totals_floor();
        let wound = RollCharacteristic::Wound;
        let hit = RollCharacteristic::Hit;
        lemma_either_way(
            0,
            0,
            self.max_exploding_value(wound),
            self.max_wound_damage_value(),
            self.max_mortals_value(wound),
            self.max_added_mortals_value(wound),
        );
        lemma_either_way(
            0,
            0,
            self.max_exploding_value(hit),
            self.max_hit_value(),
            self.max_mortals_value(hit),
            self.max_added_mortals_value(hit),
        );
        assert(self.max_attacks_value() >= 0) by (nonlinear_arith)
            requires
                self.models >= 0,
                self.attacks.max_value() + self.max_bonus_value(
                    Characteristic::Value(ValueCharacteristic::Attacks),
                ) >= 0,
                self.max_leader_value() >= 0,
                self.max_attacks_value() == self.models * (self.attacks.max_value()
                    + self.max_bonus_value(Characteristic::Value(ValueCharacteristic::Attacks)))
                    + self.max_leader_value(),
        ;
        assert(self.max_attacks_value() * self.max_attack_value() >= 0) by (nonlinear_arith)
            requires
                self.max_attacks_value() >= 0,
                self.max_attack_value() >= 0,
        ;
    }
}

/// Computes the largest damage of a weapon.
#[derive(Debug)]
pub struct MaxDamageProcessor<'a> {
    pub weapon: &'a Weapon,
}

impl<'a> MaxDamageProcessor<'a> {
    pub fn new(weapon: &'a Weapon) -> (r: Self)
        ensures
            r.weapon == weapon,
    {
        Self { weapon }
    }

    /// The largest damage of the weapon.
    pub fn max_damage(&self) -> (r: u32)
        requires
            self.weapon.max_damage_value() <= u32::MAX,
        ensures
            r == self.weapon.max_damage_value(),
    {
        self.weapon.capped_max_damage() as u32
    }

    /// The largest damage of the weapon, or nothing where it is beyond 32 bits.
    pub fn checked_max_damage(&self) -> (r: Option<u32>)
        ensures
            match r {
                Some(damage) => damage == self.weapon.max_damage_value(),
                None => self.weapon.max_damage_value() > u32::MAX,
            },
    {
        let damage = self.weapon.capped_max_damage();
        if damage < LIMIT {
            Some(damage as u32)
        } else {
            None
        }
    }

    /// The largest sum of the bonuses to a characteristic.
    pub fn max_bonus(&self, characteristic: ValueCharacteristic) -> (r: u32)
        requires
            self.weapon.max_bonus_value(Characteristic::Value(characteristic)) <= u32::MAX,
        ensures
            r == self.weapon.max_bonus_value(Characteristic::Value(characteristic)),
    {
        self.weapon.capped_bonus(Characteristic::Value(characteristic)) as u32
    }

    /// The most extra attacks that leaders make.
    pub fn max_leader_extra_attacks(&self) -> (r: u32)
        requires
            self.weapon.max_leader_value() <= u32::MAX,
        ensures
            r == self.weapon.max_leader_value(),
    {
        self.weapon.capped_leader_extra_attacks() as u32
    }

    /// The most extra hits or wounds of `current` rolls in the given phase.
    pub fn max_exploding(&self, phase: RollCharacteristic, current: u32) -> (r: u32)
        requires
            current * self.weapon.max_exploding_value(phase) <= u32::MAX,
        ensures
            r == current * self.weapon.max_exploding_value(phase),
    {
        let total = self.weapon.capped_exploding(phase);
        mul_capped(
            current as u64,
            total,
            Ghost(current as int),
            Ghost(self.weapon.max_exploding_value(phase)),
        ) as u32
    }

    /// The most mortal wounds of `current` rolls in the given phase: first all of them,
    /// then those that come in addition to the hit or wound.
    pub fn max_mortal_wounds(&self, phase: RollCharacteristic, current: u32) -> (r: (u32, u32))
        requires
            current * self.weapon.max_mortals_value(phase) <= u32::MAX,
            current * self.weapon.max_added_mortals_value(phase) <= u32::MAX,
        ensures
            r.0 == current * self.weapon.max_mortals_value(phase),
            r.1 == current * self.weapon.max_added_mortals_value(phase),
    {
        let (total, added) = self.weapon.capped_mortal_wounds(phase);
        let all = mul_capped(
            current as u64,
            total,
            Ghost(current as int),
            Ghost(self.weapon.max_mortals_value(phase)),
        );
        let in_addition = mul_capped(
            current as u64,
            added,
            Ghost(current as int),
            Ghost(self.weapon.max_added_mortals_value(phase)),
        );
        (all as u32, in_addition as u32)
    }

}

} // verus!
