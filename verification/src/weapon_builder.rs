//! Building a weapon field by field, with every fault named at once.
use crate::abilities::weapon::Ability;
use crate::rollable::{DiceNotation, Rollable};
use crate::weapon::{ability_has_sides, Weapon};
use vstd::prelude::*;
use vstd::std_specs::convert::IntoSpec;

verus! {

/// The fields of a weapon.
#[derive(Debug, Clone, Copy, PartialEq, Eq, Structural)]
pub enum WeaponField {
    Models,
    Attacks,
    ToHit,
    ToWound,
    Rend,
    Damage,
    Abilities,
}

/// Why a weapon could not be built: the fields that were not given, and the fields whose
/// value no weapon can have. Each list is in the order of the fields of a weapon.
#[derive(Debug, PartialEq, Eq)]
pub struct WeaponBuilderError {
    pub missing: Vec<WeaponField>,
    pub invalid: Vec<WeaponField>,
}

/// Collects the fields of a weapon. Where none are given there is one model, no rend and
/// no ability; the other fields must be given.
#[derive(Debug)]
pub struct WeaponBuilder {
    pub models: Option<u32>,
    pub attacks: Option<DiceNotation>,
    pub to_hit: Option<u32>,
    pub to_wound: Option<u32>,
    pub rend: Option<u32>,
    pub damage: Option<DiceNotation>,
    pub abilities: Vec<Ability>,
}

/// Whether an ability is one that a weapon can have: its dice have sides, and leaders
/// are at least one model.
pub open spec fn is_valid_ability(ability: Ability) -> bool {
    ability_has_sides(ability) && (ability matches Ability::LeaderExtraAttacks(a) ==> a.models
        >= 1)
}

/// Whether every one of the abilities is one that a weapon can have.
pub open spec fn are_valid_abilities(abilities: Seq<Ability>) -> bool {
    forall|i: int| 0 <= i < abilities.len() ==> is_valid_ability(#[trigger] abilities[i])
}

/// A list of the one field, or the empty list.
pub open spec fn field_if(condition: bool, field: WeaponField) -> Seq<WeaponField> {
    if condition {
        seq![field]
    } else {
        Seq::empty()
    }
}

impl Weapon {
    /// What holds of every weapon that is meant: it has a model, its dice have sides and
    /// its leaders are at least one model.
    pub open spec fn is_valid(&self) -> bool {
        &&& self.models >= 1
        &&& self.attacks.has_sides()
        &&& self.damage.has_sides()
        &&& are_valid_abilities(self.abilities@)
    }

    /// A builder without any field.
    pub fn builder() -> (r: WeaponBuilder)
        ensures
            r.is_empty(),
    {
        WeaponBuilder::default()
    }
}

/// Whether the abilities are such that a weapon can have them.
fn check_abilities(abilities: &Vec<Ability>) -> (r: bool)
    ensures
        r == are_valid_abilities(abilities@),
{
    let mut i: usize = 0;
    while i < abilities.len()
        invariant
            i <= abilities.len(),
            forall|j: int| 0 <= j < i ==> is_valid_ability(#[trigger] abilities@[j]),
        decreases abilities.len() - i,
    {
        let valid = match &abilities[i] {
            Ability::Reroll(_) => true,
            Ability::Bonus(a) => a.value.can_be_rolled(),
            Ability::LeaderExtraAttacks(a) => a.value.can_be_rolled() && a.models >= 1,
            Ability::Exploding(a) => a.extra.can_be_rolled(),
            Ability::MortalWounds(a) => a.mortals.can_be_rolled(),
        };
        if !valid {
            return false;
        }
        i = i + 1;
    }
    true
}

impl Default for WeaponBuilder {
    fn default() -> (r: Self)
        ensures
            r.is_empty(),
    {
        Self {
            models: None,
            attacks: None,
            to_hit: None,
            to_wound: None,
            rend: None,
            damage: None,
            abilities: Vec::new(),
        }
    }
}

impl WeaponBuilder {
    /// No field was given.
    pub open spec fn is_empty(&self) -> bool {
        &&& self.models is None
        &&& self.attacks is None
        &&& self.to_hit is None
        &&& self.to_wound is None
        &&& self.rend is None
        &&& self.damage is None
        &&& self.abilities@.len() == 0
    }

    /// The fields that must be given and were not.
    pub open spec fn missing_fields(&self) -> Seq<WeaponField> {
        field_if(self.attacks is None, WeaponField::Attacks) + field_if(
            self.to_hit is None,
            WeaponField::ToHit,
        ) + field_if(self.to_wound is None, WeaponField::ToWound) + field_if(
            self.damage is None,
            WeaponField::Damage,
        )
    }

    /// The fields that were given a value that no weapon can have: no model, dice
    /// without sides, or leaders that are no model.
    pub open spec fn invalid_fields(&self) -> Seq<WeaponField> {
        field_if(self.models == Some(0u32), WeaponField::Models) + field_if(
            self.attacks matches Some(attacks) && !attacks.has_sides(),
            WeaponField::Attacks,
        ) + field_if(
            self.damage matches Some(damage) && !damage.has_sides(),
            WeaponField::Damage,
        ) + field_if(!are_valid_abilities(self.abilities@), WeaponField::Abilities)
    }

    pub fn models(&mut self, value: u32) -> (r: &mut Self)
        ensures
            *r == (WeaponBuilder { models: Some(value), ..*old(self) }),
            *final(self) == *final(r),
    {
        self.models = Some(value);
        self
    }

    pub fn attacks(&mut self, value: DiceNotation) -> (r: &mut Self)
        ensures
            *r == (WeaponBuilder { attacks: Some(value), ..*old(self) }),
            *final(self) == *final(r),
    {
        self.attacks = Some(value);
        self
    }

    pub fn to_hit(&mut self, value: u32) -> (r: &mut Self)
        ensures
            *r == (WeaponBuilder { to_hit: Some(value), ..*old(self) }),
            *final(self) == *final(r),
    {
        self.to_hit = Some(value);
        self
    }

    pub fn to_wound(&mut self, value: u32) -> (r: &mut Self)
        ensures
            *r == (WeaponBuilder { to_wound: Some(value), ..*old(self) }),
            *final(self) == *final(r),
    {
        self.to_wound = Some(value);
        self
    }

    pub fn rend(&mut self, value: u32) -> (r: &mut Self)
        ensures
            *r == (WeaponBuilder { rend: Some(value), ..*old(self) }),
            *final(self) == *final(r),
    {
        self.rend = Some(value);
        self
    }

    pub fn damage(&mut self, value: DiceNotation) -> (r: &mut Self)
        ensures
            *r == (WeaponBuilder { damage: Some(value), ..*old(self) }),
            *final(self) == *final(r),
    {
        self.damage = Some(value);
        self
    }

    /// Adds an ability: any value that converts into one.
    pub fn ability<T>(&mut self, value: T) -> (r: &mut Self) where T: Into<Ability>
        ensures
            r.abilities@.len() == old(self).abilities@.len() + 1,
            r.abilities@.drop_last() == old(self).abilities@,
            call_ensures(<T as Into<Ability>>::into, (value,), r.abilities@.last()),
            T::obeys_into_spec() ==> r.abilities@.last() == value.into_spec(),
            r.models == old(self).models,
            r.attacks == old(self).attacks,
            r.to_hit == old(self).to_hit,
            r.to_wound == old(self).to_wound,
            r.rend == old(self).rend,
            r.damage == old(self).damage,
            *final(self) == *final(r),
    {
        let ability: Ability = value.into();
        self.abilities.push(ability);
        assert(self.abilities@.drop_last() =~= old(self).abilities@);
        self
    }

    /// Makes the weapon of the fields given so far, and leaves the builder without any.
    /// Where a field is missing or invalid, no weapon is made, the builder is left as it
    /// is, and the error names every such field.
    pub fn build(&mut self) -> (r: Result<Weapon, WeaponBuilderError>)
        ensures
            r is Ok <==> old(self).missing_fields().len() == 0 && old(self).invalid_fields().len()
                == 0,
            r matches Ok(weapon) ==> {
                &&& weapon.is_valid()
                &&& weapon.models == (match old(self).models {
                    Some(models) => models,
                    None => 1,
                })
                &&& Some(weapon.attacks) == old(self).attacks
                &&& Some(weapon.to_hit) == old(self).to_hit
                &&& Some(weapon.to_wound) == old(self).to_wound
                &&& weapon.rend == (match old(self).rend {
                    Some(rend) => rend,
                    None => 0,
                })
                &&& Some(weapon.damage) == old(self).damage
                &&& weapon.abilities@ == old(self).abilities@
                &&& final(self).is_empty()
            },
            r matches Err(error) ==> {
                &&& error.missing@ == old(self).missing_fields()
                &&& error.invalid@ == old(self).invalid_fields()
                &&& *final(self) == *old(self)
            },
    {
        let mut missing: Vec<WeaponField> = Vec::new();
        let mut invalid: Vec<WeaponField> = Vec::new();
        if let Some(models) = self.models {
            if models == 0 {
                invalid.push(WeaponField::Models);
            }
        }
        match &self.attacks {
            Some(attacks) => {
                if !attacks.can_be_rolled() {
                    invalid.push(WeaponField::Attacks);
                }
            },
            None => {
                missing.push(WeaponField::Attacks);
            },
        }
        if self.to_hit.is_none() {
            missing.push(WeaponField::ToHit);
        }
        if self.to_wound.is_none() {
            missing.push(WeaponField::ToWound);
        }
        match &self.damage {
            Some(damage) => {
                if !damage.can_be_rolled() {
                    invalid.push(WeaponField::Damage);
                }
            },
            None => {
                missing.push(WeaponField::Damage);
            },
        }
        if !check_abilities(&self.abilities) {
            invalid.push(WeaponField::Abilities);
        }
        assert(missing@ =~= self.missing_fields());
        assert(invalid@ =~= self.invalid_fields());
        if missing.len() > 0 || invalid.len() > 0 {
            return Err(WeaponBuilderError { missing, invalid });
        }
        let models = match self.models.take() {
            Some(models) => models,
            None => 1,
        };
        let rend = match self.rend.take() {
            Some(rend) => rend,
            None => 0,
        };
        let attacks = self.attacks.take().unwrap();
        let to_hit = self.to_hit.take().unwrap();
        let to_wound = self.to_wound.take().unwrap();
        let damage = self.damage.take().unwrap();
        let mut abilities: Vec<Ability> = Vec::new();
        abilities.append(&mut self.abilities);
        Ok(Weapon { models, attacks, to_hit, to_wound, rend, damage, abilities })
    }
}

} // verus!
