//! How abilities present themselves: a name, a description and the fields to fill in.
use crate::abilities::opponent::{Ethereal, SaveBonus, SaveReroll, Ward};
use crate::abilities::weapon::{Bonus, Exploding, LeaderExtraAttacks, MortalWounds, Reroll};
use crate::abilities::{RerollType, RollCharacteristic, ValueCharacteristic};
use vstd::prelude::*;
use vstd::string::StringExecFns;

pub mod fields;

pub use fields::{
    choice_values, field_values, BooleanField, Choice, ChoiceField, ChoiceValue,
    DiceNotationField, Field, FieldValue, NumberField, RollField,
};

verus! {

/// What an ability tells about itself.
pub trait AbilityDefinition {
    spec fn spec_name() -> Seq<char>;

    spec fn spec_description() -> Seq<char>;

    spec fn spec_fields() -> Seq<FieldValue>;

    /// A display name for the ability.
    fn name() -> (r: String)
        ensures
            r@ == Self::spec_name(),
    ;

    /// A description of the ability, with the names of the fields in braces where their
    /// values belong.
    fn description() -> (r: String)
        ensures
            r@ == Self::spec_description(),
    ;

    /// The fields that the ability is configured with.
    fn fields() -> (r: Vec<Field>)
        ensures
            field_values(r@) == Self::spec_fields(),
    ;
}

/// The choice with the given value and display value.
pub open spec fn choice(value: Seq<char>, display_value: Seq<char>) -> ChoiceValue {
    ChoiceValue { value, display_value }
}

/// The choices of a characteristic that is rolled for.
pub open spec fn roll_characteristics() -> Seq<ChoiceValue> {
    seq![choice("Hit"@, "To Hit"@), choice("Wound"@, "To Wound"@)]
}

/// The choices of any characteristic.
pub open spec fn characteristics() -> Seq<ChoiceValue> {
    seq![
        choice("Attacks"@, "Attacks"@),
        choice("Hit"@, "To Hit"@),
        choice("Wound"@, "To Wound"@),
        choice("Rend"@, "Rend"@),
        choice("Damage"@, "Damage"@),
    ]
}

/// The choices of what may be rolled again.
pub open spec fn reroll_types() -> Seq<ChoiceValue> {
    seq![
        choice("Any"@, "Any Roll"@),
        choice("Failed"@, "Failed Rolls"@),
        choice("Ones"@, "Rolls of 1"@),
    ]
}

/// The field for a characteristic that is rolled for.
pub open spec fn roll_characteristic_field() -> FieldValue {
    FieldValue::Choice {
        field_id: "characteristic"@,
        display_name: "Characteristic"@,
        choices: roll_characteristics(),
        default: None,
    }
}

/// The field for what may be rolled again.
pub open spec fn reroll_type_field() -> FieldValue {
    FieldValue::Choice {
        field_id: "reroll_type"@,
        display_name: "Reroll Type"@,
        choices: reroll_types(),
        default: None,
    }
}

/// The field for the roll on which an ability takes effect.
pub open spec fn on_field() -> FieldValue {
    FieldValue::Roll { field_id: "on"@, display_name: "On"@, min_value: 2, default: None }
}

/// The field for whether unmodified rolls count.
pub open spec fn unmodified_field() -> FieldValue {
    FieldValue::Boolean {
        field_id: "unmodified"@,
        display_name: "Unmodified"@,
        default: Some(true),
    }
}

/// A field for a dice notation without a default.
pub open spec fn notation_field(field_id: Seq<char>, display_name: Seq<char>) -> FieldValue {
    FieldValue::DiceNotation { field_id, display_name, default: None }
}

fn roll_characteristic_choices() -> (r: Vec<Choice>)
    ensures
        choice_values(r@) == roll_characteristics(),
{
    let mut choices: Vec<Choice> = Vec::new();
    choices.push(Choice::new(RollCharacteristic::Hit.to_string().as_str(), "To Hit"));
    choices.push(Choice::new(RollCharacteristic::Wound.to_string().as_str(), "To Wound"));
    assert(choice_values(choices@) =~= roll_characteristics());
    choices
}

fn characteristic_choices() -> (r: Vec<Choice>)
    ensures
        choice_values(r@) == characteristics(),
{
    let mut choices: Vec<Choice> = Vec::new();
    choices.push(Choice::new(ValueCharacteristic::Attacks.to_string().as_str(), "Attacks"));
    choices.push(Choice::new(RollCharacteristic::Hit.to_string().as_str(), "To Hit"));
    choices.push(Choice::new(RollCharacteristic::Wound.to_string().as_str(), "To Wound"));
    choices.push(Choice::new(ValueCharacteristic::Rend.to_string().as_str(), "Rend"));
    choices.push(Choice::new(ValueCharacteristic::Damage.to_string().as_str(), "Damage"));
    assert(choice_values(choices@) =~= characteristics());
    choices
}

fn reroll_type_choices() -> (r: Vec<Choice>)
    ensures
        choice_values(r@) == reroll_types(),
{
    let mut choices: Vec<Choice> = Vec::new();
    choices.push(Choice::new(RerollType::Any.to_string().as_str(), "Any Roll"));
    choices.push(Choice::new(RerollType::Failed.to_string().as_str(), "Failed Rolls"));
    choices.push(Choice::new(RerollType::Ones.to_string().as_str(), "Rolls of 1"));
    assert(choice_values(choices@) =~= reroll_types());
    choices
}

impl AbilityDefinition for Reroll {
    open spec fn spec_name() -> Seq<char> {
        "Reroll"@
    }

    open spec fn spec_description() -> Seq<char> {
        "Reroll {reroll_type} for {characteristic}"@
    }

    open spec fn spec_fields() -> Seq<FieldValue> {
        seq![roll_characteristic_field(), reroll_type_field()]
    }

    fn name() -> (r: String) {
        String::from_str("Reroll")
    }

    fn description() -> (r: String) {
        String::from_str("Reroll {reroll_type} for {characteristic}")
    }

    fn fields() -> (r: Vec<Field>) {
        let mut fields: Vec<Field> = Vec::new();
        fields.push(
            Field::choice("characteristic", "Characteristic", roll_characteristic_choices()),
        );
        fields.push(Field::choice("reroll_type", "Reroll Type", reroll_type_choices()));
        assert(field_values(fields@) =~= Self::spec_fields());
        fields
    }
}

impl AbilityDefinition for Bonus {
    open spec fn spec_name() -> Seq<char> {
        "Bonus"@
    }

    open spec fn spec_description() -> Seq<char> {
        "Add {value} to {characteristic}"@
    }

    open spec fn spec_fields() -> Seq<FieldValue> {
        seq![
            FieldValue::Choice {
                field_id: "characteristic"@,
                display_name: "Characteristic"@,
                choices: characteristics(),
                default: None,
            },
            notation_field("value"@, "Value"@),
        ]
    }

    fn name() -> (r: String) {
        String::from_str("Bonus")
    }

    fn description() -> (r: String) {
        String::from_str("Add {value} to {characteristic}")
    }

    fn fields() -> (r: Vec<Field>) {
        let mut fields: Vec<Field> = Vec::new();
        fields.push(Field::choice("characteristic", "Characteristic", characteristic_choices()));
        fields.push(Field::dice_notation("value", "Value", None));
        assert(field_values(fields@) =~= Self::spec_fields());
        fields
    }
}

impl AbilityDefinition for LeaderExtraAttacks {
    open spec fn spec_name() -> Seq<char> {
        "Leader Extra Attacks"@
    }

    open spec fn spec_description() -> Seq<char> {
        "Add {value} to the leader of this unit ({models} leaders)"@
    }

    open spec fn spec_fields() -> Seq<FieldValue> {
        seq![
            notation_field("value"@, "Value"@),
            FieldValue::Number {
                field_id: "models"@,
                display_name: "Models"@,
                min_value: Some(1u32),
                max_value: None,
                default: Some(1u32),
            },
        ]
    }

    fn name() -> (r: String) {
        String::from_str("Leader Extra Attacks")
    }

    fn description() -> (r: String) {
        String::from_str("Add {value} to the leader of this unit ({models} leaders)")
    }

    fn fields() -> (r: Vec<Field>) {
        let mut fields: Vec<Field> = Vec::new();
        fields.push(Field::dice_notation("value", "Value", None));
        fields.push(Field::number("models", "Models", Some(1), None, Some(1)));
        assert(field_values(fields@) =~= Self::spec_fields());
        fields
    }
}

impl AbilityDefinition for Exploding {
    open spec fn spec_name() -> Seq<char> {
        "Exploding"@
    }

    open spec fn spec_description() -> Seq<char> {
        "{unmodified} rolls of {on}+ {characteristic} result in {extra} additional"@
    }

    open spec fn spec_fields() -> Seq<FieldValue> {
        seq![
            roll_characteristic_field(),
            on_field(),
            unmodified_field(),
            notation_field("extra"@, "Extra"@),
        ]
    }

    fn name() -> (r: String) {
        String::from_str("Exploding")
    }

    fn description() -> (r: String) {
        String::from_str(
            "{unmodified} rolls of {on}+ {characteristic} result in {extra} additional",
        )
    }

    fn fields() -> (r: Vec<Field>) {
        let mut fields: Vec<Field> = Vec::new();
        fields.push(
            Field::choice("characteristic", "Characteristic", roll_characteristic_choices()),
        );
        fields.push(Field::roll("on", "On", 2, None));
        fields.push(Field::boolean("unmodified", "Unmodified", Some(true)));
        fields.push(Field::dice_notation("extra", "Extra", None));
        assert(field_values(fields@) =~= Self::spec_fields());
        fields
    }
}

/// The description of mortal wounds.
pub const MORTAL_WOUNDS_DESCRIPTION: &'static str =
    "{unmodified} rolls of {on}+ {characteritic} result in {mortals} mortal wounds {in_addition}";

impl AbilityDefinition for MortalWounds {
    open spec fn spec_name() -> Seq<char> {
        "Mortal Wounds"@
    }

    open spec fn spec_description() -> Seq<char> {
        MORTAL_WOUNDS_DESCRIPTION@
    }

    open spec fn spec_fields() -> Seq<FieldValue> {
        seq![
            roll_characteristic_field(),
            on_field(),
            unmodified_field(),
            notation_field("mortals"@, "Mortal Wounds"@),
            FieldValue::Boolean {
                field_id: "in_addition"@,
                display_name: "In Addition"@,
                default: Some(false),
            },
        ]
    }

    fn name() -> (r: String) {
        String::from_str("Mortal Wounds")
    }

    fn description() -> (r: String) {
        String::from_str(MORTAL_WOUNDS_DESCRIPTION)
    }

    fn fields() -> (r: Vec<Field>) {
        let mut fields: Vec<Field> = Vec::new();
        fields.push(
            Field::choice("characteristic", "Characteristic", roll_characteristic_choices()),
        );
        fields.push(Field::roll("on", "On", 2, None));
        fields.push(Field::boolean("unmodified", "Unmodified", Some(true)));
        fields.push(Field::dice_notation("mortals", "Mortal Wounds", None));
        fields.push(Field::boolean("in_addition", "In Addition", Some(false)));
        assert(field_values(fields@) =~= Self::spec_fields());
        fields
    }
}

impl AbilityDefinition for SaveReroll {
    open spec fn spec_name() -> Seq<char> {
        "Reroll"@
    }

    open spec fn spec_description() -> Seq<char> {
        "Reroll {reroll_type} for {characteristic}"@
    }

    open spec fn spec_fields() -> Seq<FieldValue> {
        seq![reroll_type_field()]
    }

    fn name() -> (r: String) {
        String::from_str("Reroll")
    }

    fn description() -> (r: String) {
        String::from_str("Reroll {reroll_type} for {characteristic}")
    }

    fn fields() -> (r: Vec<Field>) {
        let mut fields: Vec<Field> = Vec::new();
        fields.push(Field::choice("reroll_type", "Reroll Type", reroll_type_choices()));
        assert(field_values(fields@) =~= Self::spec_fields());
        fields
    }
}

impl AbilityDefinition for SaveBonus {
    open spec fn spec_name() -> Seq<char> {
        "Bonus"@
    }

    open spec fn spec_description() -> Seq<char> {
        "Add {value} to save"@
    }

    open spec fn spec_fields() -> Seq<FieldValue> {
        seq![notation_field("value"@, "Value"@)]
    }

    fn name() -> (r: String) {
        String::from_str("Bonus")
    }

    fn description() -> (r: String) {
        String::from_str("Add {value} to save")
    }

    fn fields() -> (r: Vec<Field>) {
        let mut fields: Vec<Field> = Vec::new();
        fields.push(Field::dice_notation("value", "Value", None));
        assert(field_values(fields@) =~= Self::spec_fields());
        fields
    }
}

impl AbilityDefinition for Ward {
    open spec fn spec_name() -> Seq<char> {
        "Ward Save"@
    }

    open spec fn spec_description() -> Seq<char> {
        "Ignore wounds and mortal wounds on a roll of {on}+"@
    }

    open spec fn spec_fields() -> Seq<FieldValue> {
        seq![on_field()]
    }

    fn name() -> (r: String) {
        String::from_str("Ward Save")
    }

    fn description() -> (r: String) {
        String::from_str("Ignore wounds and mortal wounds on a roll of {on}+")
    }

    fn fields() -> (r: Vec<Field>) {
        let mut fields: Vec<Field> = Vec::new();
        fields.push(Field::roll("on", "On", 2, None));
        assert(field_values(fields@) =~= Self::spec_fields());
        fields
    }
}

impl AbilityDefinition for Ethereal {
    open spec fn spec_name() -> Seq<char> {
        "Ethereal"@
    }

    open spec fn spec_description() -> Seq<char> {
        "Ignore modifiers to save (positive or negative) when making save rolls'"@
    }

    open spec fn spec_fields() -> Seq<FieldValue> {
        Seq::empty()
    }

    fn name() -> (r: String) {
        String::from_str("Ethereal")
    }

    fn description() -> (r: String) {
        String::from_str("Ignore modifiers to save (positive or negative) when making save rolls'")
    }

    fn fields() -> (r: Vec<Field>) {
        let fields: Vec<Field> = Vec::new();
        assert(field_values(fields@) =~= Self::spec_fields());
        fields
    }
}

} // verus!
