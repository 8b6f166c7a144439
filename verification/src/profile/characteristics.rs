//! Characteristics that carry a bonus, and what abilities do to them.
pub use crate::abilities::RerollType;
use crate::processors::success_sixths;
use vstd::prelude::*;

verus! {

/// A value with a bonus, or zero where the two together fall below zero. The result is
/// kept in eight bits: of a larger number, the lowest eight bits remain.
pub open spec fn modified_value(unmodified: int, change: int) -> int {
    if unmodified + change < 0 {
        0
    } else {
        (unmodified + change) % 256
    }
}

/// Whether a value with a bonus stays within sixteen bits.
pub open spec fn fits_i16(x: int) -> bool {
    i16::MIN <= x <= i16::MAX
}

/// Computes `modified_value`.
pub fn modify(unmodified: u8, change: i32) -> (r: u8)
    requires
        fits_i16(unmodified + change),
    ensures
        r == modified_value(unmodified as int, change as int),
{
    let sum: i32 = unmodified as i32 + change;
    if sum < 0 {
        0
    } else {
        (sum % 256) as u8
    }
}

/// Whether a value with a bonus stays within sixteen bits.
pub fn can_modify(unmodified: u8, change: i32) -> (r: bool)
    requires
        -0x8000 <= change <= 0x8000,
    ensures
        r == fits_i16(unmodified + change),
{
    let sum: i32 = unmodified as i32 + change;
    -0x8000 <= sum && sum <= 0x7FFF
}

/// A characteristic of a profile: a value and a bonus to it. A bonus counts for the
/// bearer: it raises a value that should be high and lowers a roll that is needed.
pub trait Characteristic {
    /// The bonus.
    spec fn spec_bonus(&self) -> i16;

    /// The value without the bonus.
    spec fn spec_unmodified(&self) -> u8;

    /// What the bonus does to the value: it is added, or it is subtracted.
    spec fn change(&self) -> int;

    /// The value with the bonus, not below zero.
    open spec fn modified_spec(&self) -> u8 {
        modified_value(self.spec_unmodified() as int, self.change()) as u8
    }

    fn bonus(&self) -> (r: i16)
        ensures
            r == self.spec_bonus(),
    ;

    fn unmodified(&self) -> (r: u8)
        ensures
            r == self.spec_unmodified(),
    ;

    /// The value with the bonus, not below zero.
    fn modified(&self) -> (r: u8)
        requires
            fits_i16(self.spec_unmodified() + self.change()),
        ensures
            r == modified_value(self.spec_unmodified() as int, self.change()),
    ;
}

/// The chance, in sixths, that a die of six sides shows at least the roll needed.
pub fn probability(target: u8) -> (r: u8)
    ensures
        r == success_sixths(target as int),
        r <= 6,
{
    if target >= 7 {
        0
    } else if target <= 1 {
        6
    } else {
        7 - target
    }
}

/// The chance, in sixths, that a die of six sides shows less than the roll needed.
pub fn inverse_probability(target: u8) -> (r: u8)
    ensures
        r == 6 - success_sixths(target as int),
        r <= 6,
{
    6 - probability(target)
}

/// How many rolls out of six are rolled again: none without rerolls, one with `Ones`,
/// with `Any` those that fail against the modified value, and with `Failed` those that
/// fail against both the modified and the unmodified value.
pub open spec fn reroll_sixths(reroll: Option<RerollType>, unmodified: int, modified: int) -> int {
    match reroll {
        None => 0,
        Some(RerollType::Ones) => 1,
        Some(RerollType::Failed) => 6 - success_sixths(
            if modified < unmodified {
                modified
            } else {
                unmodified
            },
        ),
        Some(RerollType::Any) => 6 - success_sixths(modified),
    }
}

/// A characteristic whose failed rolls may be rolled again.
pub trait Reroll: Characteristic {
    spec fn spec_reroll_type(&self) -> Option<RerollType>;

    fn reroll_type(&self) -> (r: Option<RerollType>)
        ensures
            r == self.spec_reroll_type(),
    ;

    /// The chance, in sixths, that a roll is rolled again.
    fn reroll_probability(&self) -> (r: u8)
        requires
            fits_i16(self.spec_unmodified() + self.change()),
        ensures
            r == reroll_sixths(
                self.spec_reroll_type(),
                self.spec_unmodified() as int,
                modified_value(self.spec_unmodified() as int, self.change()),
            ),
            r <= 6,
    {
        match self.reroll_type() {
            None => 0,
            Some(RerollType::Ones) => 1,
            Some(RerollType::Failed) => {
                let modified = self.modified();
                let unmodified = self.unmodified();
                inverse_probability(
                    if modified < unmodified {
                        modified
                    } else {
                        unmodified
                    },
                )
            },
            Some(RerollType::Any) => inverse_probability(self.modified()),
        }
    }
}

/// The extra hits or wounds of a roll on average, in sixths: those of the exploding
/// ability, by the chance that it takes effect; none without such an ability.
pub open spec fn extra_sixths(exploding: Option<ExplodingAbility>, bonus: i16) -> int {
    match exploding {
        Some(ability) => ability.extra * success_sixths(
            if ability.unmodified {
                ability.on as int
            } else {
                modified_value(ability.on as int, -bonus)
            },
        ),
        None => 0,
    }
}

/// A characteristic whose rolls may give extra hits or wounds.
pub trait Exploding: Characteristic {
    spec fn spec_exploding(&self) -> Option<ExplodingAbility>;

    /// The extra hits or wounds of a roll on average, in sixths.
    fn extra_probability(&self) -> (r: u16)
        requires
            self.spec_exploding() matches Some(ability) ==> ability.unmodified || fits_i16(
                ability.on - self.spec_bonus(),
            ),
        ensures
            r == extra_sixths(self.spec_exploding(), self.spec_bonus()),
            r <= 1530,
    ;
}

/// Rolls of `on` or more give `extra` hits or wounds.
#[derive(Debug, Copy, Clone, Eq, PartialEq, Structural)]
pub struct ExplodingAbility {
    pub on: u8,
    pub unmodified: bool,
    pub extra: u8,
}

impl Default for ExplodingAbility {
    fn default() -> (r: Self)
        ensures
            r == (ExplodingAbility { on: 6, unmodified: true, extra: 1 }),
    {
        Self { on: 6, unmodified: true, extra: 1 }
    }
}

impl ExplodingAbility {
    /// The roll on which the ability takes effect for a characteristic with the given
    /// bonus: `on` itself where unmodified rolls count, else `on` less the bonus.
    pub fn roll_target(&self, bonus: i16) -> (r: u8)
        requires
            !self.unmodified ==> fits_i16(self.on - bonus),
        ensures
            r == if self.unmodified {
                self.on as int
            } else {
                modified_value(self.on as int, -bonus)
            },
    {
        if self.unmodified {
            self.on
        } else {
            modify(self.on, -(bonus as i32))
        }
    }
}

} // verus!
