use super::constant;
use crate::abilities::weapon::{Ability, LeaderExtraAttacks};
use crate::rollable::DiceNotation;
use crate::weapon::Weapon;
use vstd::prelude::*;

verus! {

/// Malignant weapons: ten models with two attacks each that hit and wound on four,
/// without rend and with damage one. One leader has an extra attack.
pub fn malignant_weapon() -> (r: Weapon)
    ensures
        r.models == 10,
        r.attacks@ == constant(2),
        r.to_hit == 4,
        r.to_wound == 4,
        r.rend == 0,
        r.damage@ == constant(1),
        r.abilities@.len() == 1,
        r.abilities@[0] matches Ability::LeaderExtraAttacks(a) && a.models == 1 && a.value@
            == constant(1),
{
    let mut abilities: Vec<Ability> = Vec::new();
    abilities.push(
        Ability::from(LeaderExtraAttacks { value: DiceNotation::from(1), models: 1 }),
    );
    Weapon {
        models: 10,
        attacks: DiceNotation::from(2),
        to_hit: 4,
        to_wound: 4,
        rend: 0,
        damage: DiceNotation::from(1),
        abilities,
    }
}

} // verus!
