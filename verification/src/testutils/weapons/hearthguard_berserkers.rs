use super::constant;
use crate::abilities::weapon::{Ability, LeaderExtraAttacks};
use crate::rollable::DiceNotation;
use crate::weapon::Weapon;
use vstd::prelude::*;

verus! {

/// Berserker broadaxes: twenty models with two attacks each that hit and wound on
/// three, with rend one and damage two. One leader has an extra attack.
pub fn broadaxes() -> (r: Weapon)
    ensures
        r.models == 20,
        r.attacks@ == constant(2),
        r.to_hit == 3,
        r.to_wound == 3,
        r.rend == 1,
        r.damage@ == constant(2),
        r.abilities@.len() == 1,
        r.abilities@[0] matches Ability::LeaderExtraAttacks(a) && a.models == 1 && a.value@
            == constant(1),
{
    let mut abilities: Vec<Ability> = Vec::new();
    abilities.push(
        Ability::from(LeaderExtraAttacks { value: DiceNotation::from(1), models: 1 }),
    );
    Weapon {
        models: 20,
        attacks: DiceNotation::from(2),
        to_hit: 3,
        to_wound: 3,
        rend: 1,
        damage: DiceNotation::from(2),
        abilities,
    }
}

} // verus!
