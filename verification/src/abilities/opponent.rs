//! The abilities of an opponent.
pub use super::RerollType;
use crate::rollable::DiceNotation;
use vstd::prelude::*;
use vstd::std_specs::convert::FromSpecImpl;

verus! {

/// Failed save rolls may be rolled again.
#[derive(Debug, Clone, Copy, PartialEq, Eq, Structural)]
pub struct SaveReroll {
    pub reroll_type: RerollType,
}

/// A value that makes the save easier.
#[derive(Debug, Clone, PartialEq, Eq)]
pub struct SaveBonus {
    pub value: DiceNotation,
}

/// Each point of damage is ignored on a roll of `on` or more.
#[derive(Debug, Clone, Copy, PartialEq, Eq, Structural)]
pub struct Ward {
    pub on: u32,
}

/// Modifiers to the save roll are ignored.
#[derive(Debug, Clone, Copy, PartialEq, Eq, Structural)]
pub struct Ethereal {}

/// Any ability of an opponent.
#[derive(Debug, Clone, PartialEq, Eq)]
pub enum OpponentAbility {
    SaveReroll(SaveReroll),
    Ward(Ward),
    SaveBonus(SaveBonus),
    Ethereal(Ethereal),
}

impl OpponentAbility {
    /// Whether two abilities are the same: of one kind, with the same roll, rerolls or
    /// dice.
    pub open spec fn same_as(self, other: OpponentAbility) -> bool {
        match (self, other) {
            (OpponentAbility::SaveReroll(a), OpponentAbility::SaveReroll(b)) => a == b,
            (OpponentAbility::Ward(a), OpponentAbility::Ward(b)) => a == b,
            (OpponentAbility::SaveBonus(a), OpponentAbility::SaveBonus(b)) => a.value@
                == b.value@,
            (OpponentAbility::Ethereal(_), OpponentAbility::Ethereal(_)) => true,
            _ => false,
        }
    }

    /// The same ability once more.
    pub fn duplicate(&self) -> (r: Self)
        ensures
            r.same_as(*self),
    {
        match self {
            OpponentAbility::SaveReroll(a) => OpponentAbility::SaveReroll(*a),
            OpponentAbility::Ward(a) => OpponentAbility::Ward(*a),
            OpponentAbility::SaveBonus(a) => OpponentAbility::SaveBonus(
                SaveBonus { value: a.value.duplicate() },
            ),
            OpponentAbility::Ethereal(a) => OpponentAbility::Ethereal(*a),
        }
    }
}

impl From<SaveReroll> for OpponentAbility {
    fn from(a: SaveReroll) -> (r: Self) {
        OpponentAbility::SaveReroll(a)
    }
}

impl FromSpecImpl<SaveReroll> for OpponentAbility {
    open spec fn obeys_from_spec() -> bool {
        true
    }

    open spec fn from_spec(a: SaveReroll) -> Self {
        OpponentAbility::SaveReroll(a)
    }
}

impl From<Ward> for OpponentAbility {
    fn from(a: Ward) -> (r: Self) {
        OpponentAbility::Ward(a)
    }
}

impl FromSpecImpl<Ward> for OpponentAbility {
    open spec fn obeys_from_spec() -> bool {
        true
    }

    open spec fn from_spec(a: Ward) -> Self {
        OpponentAbility::Ward(a)
    }
}

impl From<SaveBonus> for OpponentAbility {
    fn from(a: SaveBonus) -> (r: Self) {
        OpponentAbility::SaveBonus(a)
    }
}

impl FromSpecImpl<SaveBonus> for OpponentAbility {
    open spec fn obeys_from_spec() -> bool {
        true
    }

    open spec fn from_spec(a: SaveBonus) -> Self {
        OpponentAbility::SaveBonus(a)
    }
}

impl From<Ethereal> for OpponentAbility {
    fn from(a: Ethereal) -> (r: Self) {
        OpponentAbility::Ethereal(a)
    }
}

impl FromSpecImpl<Ethereal> for OpponentAbility {
    open spec fn obeys_from_spec() -> bool {
        true
    }

    open spec fn from_spec(a: Ethereal) -> Self {
        OpponentAbility::Ethereal(a)
    }
}

} // verus!
