use super::{constant, dice};
use crate::abilities::weapon::{Ability, MortalWounds, Reroll};
use crate::abilities::{RerollType, RollCharacteristic};
use crate::rollable::{Dice, DiceNotation};
use crate::weapon::Weapon;
use vstd::prelude::*;

verus! {

/// Zangrom-Thaz: six attacks that hit and wound on three, with rend two and damage
/// three. Hits and wounds may be rolled again, and an unmodified six to hit deals a die
/// of mortal wounds in addition.
pub fn zangrom_thaz() -> (r: Weapon)
    ensures
        r.models == 1,
        r.attacks@ == constant(6),
        r.to_hit == 3,
        r.to_wound == 3,
        r.rend == 2,
        r.damage@ == constant(3),
        r.abilities@.len() == 3,
        r.abilities@[0] == Ability::Reroll(
            Reroll { characteristic: RollCharacteristic::Hit, reroll_type: RerollType::Any },
        ),
        r.abilities@[1] == Ability::Reroll(
            Reroll { characteristic: RollCharacteristic::Wound, reroll_type: RerollType::Any },
        ),
        r.abilities@[2] matches Ability::MortalWounds(a) && a.characteristic
            == RollCharacteristic::Hit && a.on == 6 && a.unmodified && a.in_addition
            && a.mortals@ == dice(6, 1),
{
    let mut abilities: Vec<Ability> = Vec::new();
    abilities.push(
        Ability::from(
            Reroll { characteristic: RollCharacteristic::Hit, reroll_type: RerollType::Any },
        ),
    );
    abilities.push(
        Ability::from(
            Reroll { characteristic: RollCharacteristic::Wound, reroll_type: RerollType::Any },
        ),
    );
    abilities.push(
        Ability::from(
            MortalWounds {
                characteristic: RollCharacteristic::Hit,
                on: 6,
                unmodified: true,
                mortals: DiceNotation::from(Dice::d6()),
                in_addition: true,
            },
        ),
    );
    Weapon {
        models: 1,
        attacks: DiceNotation::from(6),
        to_hit: 3,
        to_wound: 3,
        rend: 2,
        damage: DiceNotation::from(3),
        abilities,
    }
}

} // verus!
