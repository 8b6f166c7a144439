//! Weapon profiles of well-known units.
use crate::rollable::{Dice, NotationValue};
use vstd::prelude::*;

pub mod chainrasp_horde;
pub mod gotrek;
pub mod hearthguard_berserkers;
pub mod mortek_guard;

verus! {

/// The value of a notation that is a constant.
pub open spec fn constant(value: int) -> NotationValue {
    NotationValue { additions: Seq::empty(), subtractions: Seq::empty(), constant: value }
}

/// The value of a notation that is one term of dice.
pub open spec fn dice(sides: u32, quantity: u32) -> NotationValue {
    NotationValue {
        additions: seq![Dice { sides, quantity }],
        subtractions: Seq::empty(),
        constant: 0,
    }
}

} // verus!
