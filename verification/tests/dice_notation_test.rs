use aos_statshammer::rollable::{Rollable, Roller};
use aos_statshammer::{Dice, DiceNotation};
use std::cell::RefCell;

/// Hands out the given rolls in order, each for the sides that go with it.
struct ScriptedRoller {
    rolls: RefCell<Vec<(u32, u32)>>,
}

impl ScriptedRoller {
    fn new(rolls: &[(u32, u32)]) -> Self {
        let mut rolls = rolls.to_vec();
        rolls.reverse();
        Self { rolls: RefCell::new(rolls) }
    }

    fn is_used_up(&self) -> bool {
        self.rolls.borrow().is_empty()
    }
}

impl Roller for ScriptedRoller {
    fn roll(&self, sides: u32) -> u32 {
        let (expected_sides, roll) = self.rolls.borrow_mut().pop().unwrap();
        assert_eq!(sides, expected_sides);
        roll
    }
}

fn notation(text: &str) -> DiceNotation {
    DiceNotation::try_from(text).unwrap()
}

#[test]
fn new() {
    let output = DiceNotation::new(vec![Dice::new(6, 2)], vec![Dice::new(6, 1)], 2);
    let expected = DiceNotation {
        additions: vec![Dice::new(6, 2)],
        subtractions: vec![Dice::new(6, 1)],
        constant: 2,
    };
    assert_eq!(output, expected);
}

#[test]
fn empty() {
    let output = DiceNotation::empty();
    let expected = DiceNotation { additions: vec![], subtractions: vec![], constant: 0 };
    assert_eq!(output, expected);
}

#[test]
fn notation_from_constant_and_from_dice() {
    assert_eq!(
        DiceNotation::from(3),
        DiceNotation { additions: vec![], subtractions: vec![], constant: 3 }
    );
    assert_eq!(
        DiceNotation::from(Dice { sides: 6, quantity: 2 }),
        DiceNotation {
            additions: vec![Dice { sides: 6, quantity: 2 }],
            subtractions: vec![],
            constant: 0
        }
    );
    let converted: DiceNotation = 2.into();
    assert_eq!(converted, DiceNotation::from(2));
}

#[test]
fn add_assign_dice_notation() {
    let mut dn = DiceNotation::new(vec![Dice::new(6, 2)], vec![Dice::new(6, 1)], 2);
    dn += DiceNotation::new(vec![Dice::new(8, 1), Dice::new(10, 2)], vec![Dice::new(3, 1)], -1);
    let expected = DiceNotation::new(
        vec![Dice::new(6, 2), Dice::new(8, 1), Dice::new(10, 2)],
        vec![Dice::new(6, 1), Dice::new(3, 1)],
        1,
    );
    assert_eq!(dn, expected);
}

#[test]
fn add_assign_dice() {
    let mut dn = DiceNotation::new(vec![Dice::new(6, 2)], vec![Dice::new(6, 1)], 2);
    dn += Dice::new(8, 1);
    assert_eq!(dn.additions, vec![Dice::new(6, 2), Dice::new(8, 1)]);
}

#[test]
fn sub_assign_dice() {
    let mut dn = DiceNotation::new(vec![Dice::new(6, 2)], vec![Dice::new(6, 1)], 2);
    dn -= Dice::new(8, 1);
    assert_eq!(dn.subtractions, vec![Dice::new(6, 1), Dice::new(8, 1)]);
}

#[test]
fn add_assign_i32() {
    let mut dn = DiceNotation::new(vec![Dice::new(6, 2)], vec![Dice::new(6, 1)], 2);
    dn += 2;
    assert_eq!(dn.constant, 4);
}

#[test]
fn sub_assign_i32() {
    let mut dn = DiceNotation::new(vec![Dice::new(6, 2)], vec![Dice::new(6, 1)], 2);
    dn -= 2;
    assert_eq!(dn.constant, 0);
}

#[test]
fn try_from_str() {
    assert_eq!(
        DiceNotation::try_from("d6"),
        Ok(DiceNotation { additions: vec![Dice::new(6, 1)], subtractions: vec![], constant: 0 })
    );
    assert_eq!(
        DiceNotation::try_from("2d6"),
        Ok(DiceNotation { additions: vec![Dice::new(6, 2)], subtractions: vec![], constant: 0 })
    );
    assert_eq!(
        DiceNotation::try_from("2d6 - d6 + 2"),
        Ok(DiceNotation {
            additions: vec![Dice::new(6, 2)],
            subtractions: vec![Dice::new(6, 1)],
            constant: 2
        })
    );
    assert_eq!(
        DiceNotation::try_from("4d8 - 3"),
        Ok(DiceNotation { additions: vec![Dice::new(8, 4)], subtractions: vec![], constant: -3 })
    );
    assert!(matches!(DiceNotation::try_from("invalid"), Err(_)));
}

#[test]
fn try_from_str_with_several_terms() {
    assert_eq!(
        DiceNotation::try_from("2d6 + d3 - 2"),
        Ok(DiceNotation {
            additions: vec![Dice::new(6, 2), Dice::new(3, 1)],
            subtractions: vec![],
            constant: -2,
        })
    );
    assert_eq!(
        DiceNotation::try_from(" 1 + D4 - 2 d 8 - 3 + 10 - d6 "),
        Ok(DiceNotation {
            additions: vec![Dice::new(4, 1)],
            subtractions: vec![Dice::new(8, 2), Dice::new(6, 1)],
            constant: 8,
        })
    );
}

#[test]
fn try_from_str_with_empty_terms() {
    assert_eq!(DiceNotation::try_from(""), Ok(DiceNotation::empty()));
    assert_eq!(DiceNotation::try_from("  \n "), Ok(DiceNotation::empty()));
    assert_eq!(DiceNotation::try_from("-3"), Ok(DiceNotation::from(-3)));
    assert_eq!(DiceNotation::try_from("+3"), Ok(DiceNotation::from(3)));
    assert_eq!(DiceNotation::try_from("3+"), Ok(DiceNotation::from(3)));
    assert_eq!(DiceNotation::try_from("2--3"), Ok(DiceNotation::from(-1)));
    assert_eq!(DiceNotation::try_from("2+-3"), Ok(DiceNotation::from(-1)));
    assert_eq!(DiceNotation::try_from("2-+3"), Ok(DiceNotation::from(5)));
    assert_eq!(
        DiceNotation::try_from("-d6"),
        Ok(DiceNotation { additions: vec![], subtractions: vec![Dice::d6()], constant: 0 })
    );
}

#[test]
fn try_from_str_malformed() {
    let error = Err("Invalid dice notation string provided");
    assert_eq!(DiceNotation::try_from("invalid"), error);
    assert_eq!(DiceNotation::try_from("hello"), error);
    assert_eq!(DiceNotation::try_from("2d6 + x"), error);
    assert_eq!(DiceNotation::try_from("2d6 * 2"), error);
    assert_eq!(DiceNotation::try_from("2d"), error);
    assert_eq!(DiceNotation::try_from("d6d6"), error);
    assert_eq!(DiceNotation::try_from("1.5"), error);
    assert_eq!(DiceNotation::try_from("٣"), error);
}

#[test]
fn try_from_str_constant_at_the_limits() {
    let error = Err("Invalid dice notation string provided");
    assert_eq!(DiceNotation::try_from("2147483647"), Ok(DiceNotation::from(i32::MAX)));
    assert_eq!(DiceNotation::try_from("-2147483648"), Ok(DiceNotation::from(i32::MIN)));
    assert_eq!(DiceNotation::try_from("2147483648"), error);
    assert_eq!(DiceNotation::try_from("-2147483649"), error);
    assert_eq!(DiceNotation::try_from("2147483647 + 1"), error);
    assert_eq!(
        DiceNotation::try_from("-2147483648 + 4294967295"),
        Ok(DiceNotation::from(i32::MAX))
    );
    assert_eq!(DiceNotation::try_from("4294967296 - 4294967296"), error);
    assert_eq!(DiceNotation::try_from("99999999999999999999999"), error);
    assert_eq!(DiceNotation::try_from("4294967296d6"), error);
}

#[test]
fn notation_min() {
    assert_eq!(notation("d6").min(), 1);
    assert_eq!(notation("2d6").min(), 2);
    assert_eq!(notation("2d6 - d6 + 2").min(), 0);
    assert_eq!(notation("4d8 - 3").min(), 1);
}

#[test]
fn notation_max() {
    assert_eq!(notation("d6").max(), 6);
    assert_eq!(notation("2d6").max(), 12);
    assert_eq!(notation("2d6 - d6 + 2").max(), 13);
    assert_eq!(notation("4d8 - 3").max(), 29);
}

#[test]
fn notation_values_are_never_negative() {
    assert_eq!(notation("-5").min(), 0);
    assert_eq!(notation("-5").max(), 0);
    assert_eq!(notation("d6 - 10").max(), 0);
    assert_eq!(notation("d6 - 2d6").min(), 0);
    assert_eq!(notation("d6 - 2d6").max(), 4);
    assert_eq!(DiceNotation::from(i32::MIN).max(), 0);
    let roller = ScriptedRoller::new(&[(6, 1), (6, 6), (6, 6)]);
    assert_eq!(notation("d6 - 2d6").roll(&roller), 0);
}

#[test]
fn notation_values_beyond_the_constant_type() {
    let big = DiceNotation::new(
        vec![Dice::new(0xFFFF_FFFF, 1), Dice::new(0xFFFF_FFFF, 1)],
        vec![Dice::new(1, 0xFFFF_FFFF)],
        0,
    );
    assert_eq!(big.max(), 0xFFFF_FFFF);
    assert_eq!(big.min(), 0);
    assert_eq!(big.max_wide(), 0xFFFF_FFFF);
    let bigger = DiceNotation::new(vec![Dice::new(0xFFFF_FFFF, 0xFFFF_FFFF)], vec![], 1);
    assert_eq!(bigger.max_wide(), 0xFFFF_FFFF * 0xFFFF_FFFF + 1);
    assert_eq!(bigger.min_wide(), 0x1_0000_0000);
}

#[test]
fn roll() {
    let dn = DiceNotation {
        additions: vec![Dice::d6(), Dice::d6(), Dice::new(3, 2)],
        subtractions: vec![Dice::d6()],
        constant: 2,
    };
    let roller = ScriptedRoller::new(&[(6, 4), (6, 4), (3, 1), (3, 1), (6, 4)]);
    let output = dn.roll(&roller);
    assert_eq!(output, 8);
    assert!(roller.is_used_up());
}

#[test]
fn notation_can_be_rolled() {
    assert!(notation("2d6 - d3 + 1").can_be_rolled());
    assert!(notation("5").can_be_rolled());
    assert!(!notation("2d6 - d0").can_be_rolled());
    assert!(!notation("d0").can_be_rolled());
}

#[test]
fn notation_to_string() {
    let dn = DiceNotation::new(
        vec![Dice { sides: 6, quantity: 2 }],
        vec![Dice { sides: 3, quantity: 1 }],
        2,
    );
    assert_eq!(dn.to_string(), "2d6-d3+2");
    assert_eq!(DiceNotation::empty().to_string(), "");
    assert_eq!(DiceNotation::from(3).to_string(), "3");
    assert_eq!(DiceNotation::from(-3).to_string(), "-3");
    assert_eq!(DiceNotation::from(i32::MIN).to_string(), "-2147483648");
    assert_eq!(DiceNotation::from(Dice::d6()).to_string(), "d6");
    assert_eq!(notation("2d6 + d3 - 2").to_string(), "2d6+d3-2");
    assert_eq!(notation("-d6").to_string(), "-d6");
    assert_eq!(notation("-d6 - 2d8 + 4").to_string(), "-d6-2d8+4");
    assert_eq!(notation("4d8 - d6 - 3").to_string(), "4d8-d6-3");
}

#[test]
fn notation_text_is_read_back() {
    let notations = [
        DiceNotation::empty(),
        DiceNotation::from(7),
        DiceNotation::from(-7),
        DiceNotation::from(i32::MIN),
        DiceNotation::from(i32::MAX),
        DiceNotation::new(vec![Dice::new(6, 2), Dice::new(3, 1)], vec![], -2),
        DiceNotation::new(vec![], vec![Dice::new(6, 1), Dice::new(8, 3)], 0),
        DiceNotation::new(vec![Dice::new(10, 10)], vec![Dice::new(4, 1)], 12),
        DiceNotation::new(vec![Dice::new(0, 1)], vec![Dice::new(0xFFFF_FFFF, 0xFFFF_FFFF)], 1),
    ];
    for dn in notations {
        assert_eq!(DiceNotation::try_from(dn.to_string().as_str()), Ok(dn));
    }
}

#[test]
fn notation_text_of_no_dice_is_read_back_as_one_die() {
    let dn = DiceNotation::new(vec![Dice::new(6, 0)], vec![], 0);
    assert_eq!(dn.to_string(), "d6");
    assert_eq!(DiceNotation::try_from("d6"), Ok(DiceNotation::from(Dice::d6())));
}
