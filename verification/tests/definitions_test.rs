use aos_statshammer::abilities::opponent::{Ethereal, SaveBonus, SaveReroll, Ward};
use aos_statshammer::abilities::weapon::{
    Bonus, Exploding, LeaderExtraAttacks, MortalWounds, Reroll,
};
use aos_statshammer::definitions::{
    AbilityDefinition, BooleanField, Choice, ChoiceField, DiceNotationField, Field, NumberField,
    RollField,
};

fn roll_characteristic_field() -> Field {
    Field::Choice(ChoiceField {
        field_id: "characteristic".into(),
        display_name: "Characteristic".into(),
        choices: vec![Choice::new("Hit", "To Hit"), Choice::new("Wound", "To Wound")],
        default: None,
    })
}

fn reroll_type_field() -> Field {
    Field::Choice(ChoiceField {
        field_id: "reroll_type".into(),
        display_name: "Reroll Type".into(),
        choices: vec![
            Choice::new("Any", "Any Roll"),
            Choice::new("Failed", "Failed Rolls"),
            Choice::new("Ones", "Rolls of 1"),
        ],
        default: None,
    })
}

fn on_field() -> Field {
    Field::Roll(RollField {
        field_id: "on".into(),
        display_name: "On".into(),
        min_value: 2,
        default: None,
    })
}

fn unmodified_field() -> Field {
    Field::Boolean(BooleanField {
        field_id: "unmodified".into(),
        display_name: "Unmodified".into(),
        default: Some(true),
    })
}

fn notation_field(field_id: &str, display_name: &str) -> Field {
    Field::DiceNotation(DiceNotationField {
        field_id: field_id.into(),
        display_name: display_name.into(),
        default: None,
    })
}

#[test]
fn choice_new() {
    let choice = Choice::new("Hit", "To Hit");
    assert_eq!(choice.value, "Hit");
    assert_eq!(choice.display_value, "To Hit");
}

#[test]
fn reroll_definition() {
    assert_eq!(Reroll::name(), "Reroll");
    assert_eq!(Reroll::description(), "Reroll {reroll_type} for {characteristic}");
    assert_eq!(Reroll::fields(), vec![roll_characteristic_field(), reroll_type_field()]);
}

#[test]
fn bonus_definition() {
    assert_eq!(Bonus::name(), "Bonus");
    assert_eq!(Bonus::description(), "Add {value} to {characteristic}");
    assert_eq!(
        Bonus::fields(),
        vec![
            Field::Choice(ChoiceField {
                field_id: "characteristic".into(),
                display_name: "Characteristic".into(),
                choices: vec![
                    Choice::new("Attacks", "Attacks"),
                    Choice::new("Hit", "To Hit"),
                    Choice::new("Wound", "To Wound"),
                    Choice::new("Rend", "Rend"),
                    Choice::new("Damage", "Damage"),
                ],
                default: None,
            }),
            notation_field("value", "Value"),
        ]
    );
}

#[test]
fn leader_extra_attacks_definition() {
    assert_eq!(LeaderExtraAttacks::name(), "Leader Extra Attacks");
    assert_eq!(
        LeaderExtraAttacks::description(),
        "Add {value} to the leader of this unit ({models} leaders)"
    );
    assert_eq!(
        LeaderExtraAttacks::fields(),
        vec![
            notation_field("value", "Value"),
            Field::Number(NumberField {
                field_id: "models".into(),
                display_name: "Models".into(),
                min_value: Some(1),
                max_value: None,
                default: Some(1),
            }),
        ]
    );
}

#[test]
fn exploding_definition() {
    assert_eq!(Exploding::name(), "Exploding");
    assert_eq!(
        Exploding::description(),
        "{unmodified} rolls of {on}+ {characteristic} result in {extra} additional"
    );
    assert_eq!(
        Exploding::fields(),
        vec![
            roll_characteristic_field(),
            on_field(),
            unmodified_field(),
            notation_field("extra", "Extra"),
        ]
    );
}

#[test]
fn mortal_wounds_definition() {
    assert_eq!(MortalWounds::name(), "Mortal Wounds");
    assert_eq!(
        MortalWounds::description(),
        "{unmodified} rolls of {on}+ {characteritic} result in {mortals} mortal wounds \
        {in_addition}"
    );
    assert_eq!(
        MortalWounds::fields(),
        vec![
            roll_characteristic_field(),
            on_field(),
            unmodified_field(),
            notation_field("mortals", "Mortal Wounds"),
            Field::Boolean(BooleanField {
                field_id: "in_addition".into(),
                display_name: "In Addition".into(),
                default: Some(false),
            }),
        ]
    );
}

#[test]
fn opponent_ability_definitions() {
    assert_eq!(SaveReroll::name(), "Reroll");
    assert_eq!(SaveReroll::description(), "Reroll {reroll_type} for {characteristic}");
    assert_eq!(SaveReroll::fields(), vec![reroll_type_field()]);
    assert_eq!(SaveBonus::name(), "Bonus");
    assert_eq!(SaveBonus::description(), "Add {value} to save");
    assert_eq!(SaveBonus::fields(), vec![notation_field("value", "Value")]);
    assert_eq!(Ward::name(), "Ward Save");
    assert_eq!(Ward::description(), "Ignore wounds and mortal wounds on a roll of {on}+");
    assert_eq!(Ward::fields(), vec![on_field()]);
    assert_eq!(Ethereal::name(), "Ethereal");
    assert_eq!(
        Ethereal::description(),
        "Ignore modifiers to save (positive or negative) when making save rolls'"
    );
    assert_eq!(Ethereal::fields(), vec![]);
}
