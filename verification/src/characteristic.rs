//! The characteristics of a weapon profile that abilities can refer to.
use vstd::prelude::*;
use vstd::std_specs::convert::FromSpecImpl;
use vstd::string::StringExecFns;

verus! {

/// The characteristics that a weapon rolls a die for.
#[derive(Debug, Eq, PartialEq, Structural, Clone, Copy, Hash)]
pub enum RollCharacteristic {
    Hit,
    Wound,
}

impl RollCharacteristic {
    /// The display name: `Hit` or `Wound`.
    pub fn to_string(&self) -> (r: String)
        ensures
            r@ == (match *self {
                RollCharacteristic::Hit => "Hit"@,
                RollCharacteristic::Wound => "Wound"@,
            }),
    {
        match self {
            RollCharacteristic::Hit => String::from_str("Hit"),
            RollCharacteristic::Wound => String::from_str("Wound"),
        }
    }
}

/// The characteristics that a weapon has a plain value for.
#[derive(Debug, Eq, PartialEq, Structural, Clone, Copy, Hash)]
pub enum ValueCharacteristic {
    Attacks,
    Rend,
    Damage,
}

impl ValueCharacteristic {
    /// The display name: `Attacks`, `Rend` or `Damage`.
    pub fn to_string(&self) -> (r: String)
        ensures
            r@ == (match *self {
                ValueCharacteristic::Attacks => "Attacks"@,
                ValueCharacteristic::Rend => "Rend"@,
                ValueCharacteristic::Damage => "Damage"@,
            }),
    {
        match self {
            ValueCharacteristic::Attacks => String::from_str("Attacks"),
            ValueCharacteristic::Rend => String::from_str("Rend"),
            ValueCharacteristic::Damage => String::from_str("Damage"),
        }
    }
}

/// Any characteristic of a weapon: a value or a roll.
#[derive(Debug, Eq, PartialEq, Structural, Clone, Copy, Hash)]
pub enum Characteristic {
    Value(ValueCharacteristic),
    Roll(RollCharacteristic),
}

impl Characteristic {
    /// The display name of the wrapped characteristic.
    pub fn to_string(&self) -> (r: String)
        ensures
            r@ == (match *self {
                Characteristic::Value(ValueCharacteristic::Attacks) => "Attacks"@,
                Characteristic::Value(ValueCharacteristic::Rend) => "Rend"@,
                Characteristic::Value(ValueCharacteristic::Damage) => "Damage"@,
                Characteristic::Roll(RollCharacteristic::Hit) => "Hit"@,
                Characteristic::Roll(RollCharacteristic::Wound) => "Wound"@,
            }),
    {
        match self {
            Characteristic::Value(c) => c.to_string(),
            Characteristic::Roll(c) => c.to_string(),
        }
    }
}

impl From<RollCharacteristic> for Characteristic {
    fn from(roll: RollCharacteristic) -> (r: Self) {
        Characteristic::Roll(roll)
    }
}

impl FromSpecImpl<RollCharacteristic> for Characteristic {
    open spec fn obeys_from_spec() -> bool {
        true
    }

    open spec fn from_spec(roll: RollCharacteristic) -> Self {
        Characteristic::Roll(roll)
    }
}

impl From<ValueCharacteristic> for Characteristic {
    fn from(val: ValueCharacteristic) -> (r: Self) {
        Characteristic::Value(val)
    }
}

impl FromSpecImpl<ValueCharacteristic> for Characteristic {
    open spec fn obeys_from_spec() -> bool {
        true
    }

    open spec fn from_spec(val: ValueCharacteristic) -> Self {
        Characteristic::Value(val)
    }
}

} // verus!
