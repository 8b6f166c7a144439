//! The abilities of a weapon.
use super::{Characteristic, RerollType, RollCharacteristic};
use crate::rollable::DiceNotation;
use vstd::prelude::*;
use vstd::std_specs::convert::FromSpecImpl;

verus! {

/// Failed rolls for a characteristic may be rolled again.
#[derive(Debug, Clone, Copy, PartialEq, Eq, Structural)]
pub struct Reroll {
    pub characteristic: RollCharacteristic,
    pub reroll_type: RerollType,
}

/// A value that is added to a characteristic.
#[derive(Debug, Clone, PartialEq, Eq)]
pub struct Bonus {
    pub characteristic: Characteristic,
    pub value: DiceNotation,
}

/// Extra attacks for the leaders among the models.
#[derive(Debug, Clone, PartialEq, Eq)]
pub struct LeaderExtraAttacks {
    pub value: DiceNotation,
    pub models: u32,
}

/// Rolls of `on` or more give extra hits or wounds.
#[derive(Debug, Clone, PartialEq, Eq)]
pub struct Exploding {
    pub characteristic: RollCharacteristic,
    pub on: u32,
    pub unmodified: bool,
    pub extra: DiceNotation,
}

/// Rolls of `on` or more deal mortal wounds, in addition to the hit or wound or in its
/// place.
#[derive(Debug, Clone, PartialEq, Eq)]
pub struct MortalWounds {
    pub characteristic: RollCharacteristic,
    pub on: u32,
    pub unmodified: bool,
    pub mortals: DiceNotation,
    pub in_addition: bool,
}

/// Any ability of a weapon.
#[derive(Debug, Clone, PartialEq, Eq)]
pub enum Ability {
    Reroll(Reroll),
    Bonus(Bonus),
    LeaderExtraAttacks(LeaderExtraAttacks),
    Exploding(Exploding),
    MortalWounds(MortalWounds),
}

impl From<Reroll> for Ability {
    fn from(a: Reroll) -> (r: Self) {
        Ability::Reroll(a)
    }
}

impl FromSpecImpl<Reroll> for Ability {
    open spec fn obeys_from_spec() -> bool {
        true
    }

    open spec fn from_spec(a: Reroll) -> Self {
        Ability::Reroll(a)
    }
}

impl From<Bonus> for Ability {
    fn from(a: Bonus) -> (r: Self) {
        Ability::Bonus(a)
    }
}

impl FromSpecImpl<Bonus> for Ability {
    open spec fn obeys_from_spec() -> bool {
        true
    }

    open spec fn from_spec(a: Bonus) -> Self {
        Ability::Bonus(a)
    }
}

impl From<LeaderExtraAttacks> for Ability {
    fn from(a: LeaderExtraAttacks) -> (r: Self) {
        Ability::LeaderExtraAttacks(a)
    }
}

impl FromSpecImpl<LeaderExtraAttacks> for Ability {
    open spec fn obeys_from_spec() -> bool {
        true
    }

    open spec fn from_spec(a: LeaderExtraAttacks) -> Self {
        Ability::LeaderExtraAttacks(a)
    }
}

impl From<Exploding> for Ability {
    fn from(a: Exploding) -> (r: Self) {
        Ability::Exploding(a)
    }
}

impl FromSpecImpl<Exploding> for Ability {
    open spec fn obeys_from_spec() -> bool {
        true
    }

    open spec fn from_spec(a: Exploding) -> Self {
        Ability::Exploding(a)
    }
}

impl From<MortalWounds> for Ability {
    fn from(a: MortalWounds) -> (r: Self) {
        Ability::MortalWounds(a)
    }
}

impl FromSpecImpl<MortalWounds> for Ability {
    open spec fn obeys_from_spec() -> bool {
        true
    }

    open spec fn from_spec(a: MortalWounds) -> Self {
        Ability::MortalWounds(a)
    }
}

} // verus!
