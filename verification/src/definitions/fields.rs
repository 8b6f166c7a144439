//! The fields that an ability is configured with.
use vstd::prelude::*;
use vstd::string::StringExecFns;

verus! {

/// A whole number between bounds.
#[derive(Debug, Clone, PartialEq, Eq)]
pub struct NumberField {
    pub field_id: String,
    pub display_name: String,
    pub min_value: Option<u32>,
    pub max_value: Option<u32>,
    pub default: Option<u32>,
}

/// A dice notation.
#[derive(Debug, Clone, PartialEq, Eq)]
pub struct DiceNotationField {
    pub field_id: String,
    pub display_name: String,
    pub default: Option<u32>,
}

/// One of the values that a choice field offers.
#[derive(Debug, Clone, PartialEq, Eq)]
pub struct Choice {
    pub value: String,
    pub display_value: String,
}

/// One value of several.
#[derive(Debug, Clone, PartialEq, Eq)]
pub struct ChoiceField {
    pub field_id: String,
    pub display_name: String,
    pub choices: Vec<Choice>,
    pub default: Option<String>,
}

/// The roll of a die.
#[derive(Debug, Clone, PartialEq, Eq)]
pub struct RollField {
    pub field_id: String,
    pub display_name: String,
    pub min_value: u32,
    pub default: Option<u32>,
}

/// Yes or no.
#[derive(Debug, Clone, PartialEq, Eq)]
pub struct BooleanField {
    pub field_id: String,
    pub display_name: String,
    pub default: Option<bool>,
}

/// Any field.
#[derive(Debug, Clone, PartialEq, Eq)]
pub enum Field {
    Number(NumberField),
    DiceNotation(DiceNotationField),
    Choice(ChoiceField),
    Roll(RollField),
    Boolean(BooleanField),
}

/// What a [`Choice`] holds.
pub struct ChoiceValue {
    pub value: Seq<char>,
    pub display_value: Seq<char>,
}

/// What a [`Field`] holds.
#[allow(inconsistent_fields)]
pub enum FieldValue {
    Number {
        field_id: Seq<char>,
        display_name: Seq<char>,
        min_value: Option<u32>,
        max_value: Option<u32>,
        default: Option<u32>,
    },
    DiceNotation { field_id: Seq<char>, display_name: Seq<char>, default: Option<u32> },
    Choice {
        field_id: Seq<char>,
        display_name: Seq<char>,
        choices: Seq<ChoiceValue>,
        default: Option<Seq<char>>,
    },
    Roll { field_id: Seq<char>, display_name: Seq<char>, min_value: u32, default: Option<u32> },
    Boolean { field_id: Seq<char>, display_name: Seq<char>, default: Option<bool> },
}

impl View for Choice {
    type V = ChoiceValue;

    open spec fn view(&self) -> ChoiceValue {
        ChoiceValue { value: self.value@, display_value: self.display_value@ }
    }
}

/// What a list of choices holds.
pub open spec fn choice_values(choices: Seq<Choice>) -> Seq<ChoiceValue> {
    Seq::new(choices.len(), |i: int| choices[i]@)
}

impl View for Field {
    type V = FieldValue;

    open spec fn view(&self) -> FieldValue {
        match *self {
            Field::Number(f) => FieldValue::Number {
                field_id: f.field_id@,
                display_name: f.display_name@,
                min_value: f.min_value,
                max_value: f.max_value,
                default: f.default,
            },
            Field::DiceNotation(f) => FieldValue::DiceNotation {
                field_id: f.field_id@,
                display_name: f.display_name@,
                default: f.default,
            },
            Field::Choice(f) => FieldValue::Choice {
                field_id: f.field_id@,
                display_name: f.display_name@,
                choices: choice_values(f.choices@),
                default: match f.default {
                    Some(value) => Some(value@),
                    None => None,
                },
            },
            Field::Roll(f) => FieldValue::Roll {
                field_id: f.field_id@,
                display_name: f.display_name@,
                min_value: f.min_value,
                default: f.default,
            },
            Field::Boolean(f) => FieldValue::Boolean {
                field_id: f.field_id@,
                display_name: f.display_name@,
                default: f.default,
            },
        }
    }
}

/// What a list of fields holds.
pub open spec fn field_values(fields: Seq<Field>) -> Seq<FieldValue> {
    Seq::new(fields.len(), |i: int| fields[i]@)
}

impl Choice {
    pub fn new(value: &str, display_value: &str) -> (r: Self)
        ensures
            r@ == (ChoiceValue { value: value@, display_value: display_value@ }),
    {
        Self { value: String::from_str(value), display_value: String::from_str(display_value) }
    }
}

impl Field {
    /// A number field.
    pub fn number(
        field_id: &str,
        display_name: &str,
        min_value: Option<u32>,
        max_value: Option<u32>,
        default: Option<u32>,
    ) -> (r: Self)
        ensures
            r@ == (FieldValue::Number {
                field_id: field_id@,
                display_name: display_name@,
                min_value,
                max_value,
                default,
            }),
    {
        Field::Number(
            NumberField {
                field_id: String::from_str(field_id),
                display_name: String::from_str(display_name),
                min_value,
                max_value,
                default,
            },
        )
    }

    /// A dice notation field.
    pub fn dice_notation(field_id: &str, display_name: &str, default: Option<u32>) -> (r: Self)
        ensures
            r@ == (FieldValue::DiceNotation {
                field_id: field_id@,
                display_name: display_name@,
                default,
            }),
    {
        Field::DiceNotation(
            DiceNotationField {
                field_id: String::from_str(field_id),
                display_name: String::from_str(display_name),
                default,
            },
        )
    }

    /// A choice field without a default.
    pub fn choice(field_id: &str, display_name: &str, choices: Vec<Choice>) -> (r: Self)
        ensures
            r@ == (FieldValue::Choice {
                field_id: field_id@,
                display_name: display_name@,
                choices: choice_values(choices@),
                default: None,
            }),
    {
        Field::Choice(
            ChoiceField {
                field_id: String::from_str(field_id),
                display_name: String::from_str(display_name),
                choices,
                default: None,
            },
        )
    }

    /// A roll field.
    pub fn roll(field_id: &str, display_name: &str, min_value: u32, default: Option<u32>) -> (r:
        Self)
        ensures
            r@ == (FieldValue::Roll {
                field_id: field_id@,
                display_name: display_name@,
                min_value,
                default,
            }),
    {
        Field::Roll(
            RollField {
                field_id: String::from_str(field_id),
                display_name: String::from_str(display_name),
                min_value,
                default,
            },
        )
    }

    /// A yes-or-no field.
    pub fn boolean(field_id: &str, display_name: &str, default: Option<bool>) -> (r: Self)
        ensures
            r@ == (FieldValue::Boolean {
                field_id: field_id@,
                display_name: display_name@,
                default,
            }),
    {
        Field::Boolean(
            BooleanField {
                field_id: String::from_str(field_id),
                display_name: String::from_str(display_name),
                default,
            },
        )
    }
}

} // verus!
