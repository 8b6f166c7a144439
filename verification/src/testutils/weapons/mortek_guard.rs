use super::constant;
use crate::abilities::weapon::{Ability, Exploding, LeaderExtraAttacks};
use crate::abilities::RollCharacteristic;
use crate::rollable::DiceNotation;
use crate::weapon::Weapon;
use vstd::prelude::*;

verus! {

/// Nadirite blades: nine models with two attacks each that hit on three and wound on
/// four, with rend one and damage one. One leader has an extra attack, and an unmodified
/// six to hit gives an extra hit.
pub fn nadirite_blade() -> (r: Weapon)
    ensures
        r.models == 9,
        r.attacks@ == constant(2),
        r.to_hit == 3,
        r.to_wound == 4,
        r.rend == 1,
        r.damage@ == constant(1),
        r.abilities@.len() == 2,
        r.abilities@[0] matches Ability::LeaderExtraAttacks(a) && a.models == 1 && a.value@
            == constant(1),
        r.abilities@[1] matches Ability::Exploding(a) && a.characteristic
            == RollCharacteristic::Hit && a.on == 6 && a.unmodified && a.extra@ == constant(1),
{
    let mut abilities: Vec<Ability> = Vec::new();
    abilities.push(
        Ability::from(LeaderExtraAttacks { value: DiceNotation::from(1), models: 1 }),
    );
    abilities.push(
        Ability::from(
            Exploding {
                characteristic: RollCharacteristic::Hit,
                on: 6,
                unmodified: true,
                extra: DiceNotation::from(1),
            },
        ),
    );
    Weapon {
        models: 9,
        attacks: DiceNotation::from(2),
        to_hit: 3,
        to_wound: 4,
        rend: 1,
        damage: DiceNotation::from(1),
        abilities,
    }
}

/// The soulcleaver greatblade: two attacks that hit and wound on three, with rend one
/// and damage one.
pub fn soulcleaver_greatblade() -> (r: Weapon)
    ensures
        r.models == 1,
        r.attacks@ == constant(2),
        r.to_hit == 3,
        r.to_wound == 3,
        r.rend == 1,
        r.damage@ == constant(1),
        r.abilities@.len() == 0,
{
    Weapon {
        models: 1,
        attacks: DiceNotation::from(2),
        to_hit: 3,
        to_wound: 3,
        rend: 1,
        damage: DiceNotation::from(1),
        abilities: Vec::new(),
    }
}

} // verus!
