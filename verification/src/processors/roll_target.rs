//! The roll that is needed to succeed: an initial value, a modifier and a floor.
use vstd::prelude::*;
use vstd::std_specs::convert::FromSpecImpl;
use vstd::std_specs::ops::{AddSpec, SubSpec};

verus! {

/// A roll target. A die succeeds against it where it shows the target's value or more.
/// The modifier makes the roll easier: it is taken off the initial value. The value never
/// falls below `min_value`, where there is one.
#[derive(Debug, Clone, Copy, PartialEq, Eq)]
pub struct RollTarget<T, U> {
    pub initial: T,
    pub modifier: U,
    pub min_value: Option<T>,
}

impl<T, U> RollTarget<T, U> where T: Copy, U: Copy {
    pub fn new(initial: T, modifier: U, min_value: Option<T>) -> (r: Self)
        ensures
            r == (RollTarget { initial, modifier, min_value }),
    {
        Self { initial, modifier, min_value }
    }

    /// The same target for another initial value.
    pub fn clone_with_initial(&self, initial: T) -> (r: Self)
        ensures
            r == (RollTarget { initial, modifier: self.modifier, min_value: self.min_value }),
    {
        Self { initial, modifier: self.modifier, min_value: self.min_value }
    }
}

/// The zero of `U`, as `num_traits::Zero::zero` gives it. The trait's law is that its
/// zero added to a value gives that value; this is claimed for the types whose addition
/// Verus follows, where the sum can be taken, and nothing is claimed for the others.
#[verifier::external_body]
fn zero_modifier<U: num_traits::Zero + core::ops::Add<U, Output = U>>() -> (r: U)
    ensures
        U::obeys_add_spec() ==> forall|x: U| x.add_req(r) ==> #[trigger] x.add_spec(r) == x,
{
    U::zero()
}

impl<T, U: num_traits::Zero + core::ops::Add<U, Output = U>> RollTarget<T, U> {
    /// A target without a floor, with the zero of `U` as its modifier: where Verus
    /// follows the addition of `U`, adding the modifier to a value gives that value. For
    /// targets of whole numbers, the conversions `From<u32>` and `From<i64>` give the same
    /// target and say that the modifier is 0.
    pub fn from(d: T) -> (r: Self)
        ensures
            r.initial == d,
            r.min_value is None,
            U::obeys_add_spec() ==> forall|x: U|
                x.add_req(r.modifier) ==> #[trigger] x.add_spec(r.modifier) == x,
    {
        Self { initial: d, modifier: zero_modifier(), min_value: None }
    }
}

impl From<u32> for RollTarget<u32, i32> {
    /// A target of whole numbers without a floor and without a modifier.
    fn from(initial: u32) -> (r: Self) {
        Self { initial, modifier: 0, min_value: None }
    }
}

impl FromSpecImpl<u32> for RollTarget<u32, i32> {
    open spec fn obeys_from_spec() -> bool {
        true
    }

    open spec fn from_spec(initial: u32) -> Self {
        RollTarget { initial, modifier: 0i32, min_value: None }
    }
}

impl From<i64> for RollTarget<i64, i64> {
    /// A target in halves without a floor and without a modifier.
    fn from(initial: i64) -> (r: Self) {
        Self { initial, modifier: 0, min_value: None }
    }
}

impl FromSpecImpl<i64> for RollTarget<i64, i64> {
    open spec fn obeys_from_spec() -> bool {
        true
    }

    open spec fn from_spec(initial: i64) -> Self {
        RollTarget { initial, modifier: 0i64, min_value: None }
    }
}

impl<T, U> core::ops::AddAssign<U> for RollTarget<T, U> where
    U: core::ops::Add<U, Output = U> + Copy,
 {
    /// Adds to the modifier.
    fn add_assign(&mut self, rhs: U)
        requires
            old(self).modifier.add_req(rhs),
        ensures
            final(self).initial == old(self).initial,
            final(self).min_value == old(self).min_value,
            U::obeys_add_spec() ==> final(self).modifier == old(self).modifier.add_spec(rhs),
    {
        self.modifier = self.modifier + rhs;
    }
}

impl<T, U> core::ops::SubAssign<U> for RollTarget<T, U> where
    U: core::ops::Sub<U, Output = U> + Copy,
 {
    /// Subtracts from the modifier.
    fn sub_assign(&mut self, rhs: U)
        requires
            old(self).modifier.sub_req(rhs),
        ensures
            final(self).initial == old(self).initial,
            final(self).min_value == old(self).min_value,
            U::obeys_sub_spec() ==> final(self).modifier == old(self).modifier.sub_spec(rhs),
    {
        self.modifier = self.modifier - rhs;
    }
}

/// The value of a roll target: the initial value, less the modifier unless the unmodified
/// value is asked for, but neither below zero nor below the floor.
pub open spec fn target_value(
    initial: int,
    modifier: int,
    min_value: Option<int>,
    unmodified: bool,
) -> int {
    let raw = if unmodified {
        initial
    } else if modifier < initial {
        initial - modifier
    } else {
        0
    };
    match min_value {
        Some(floor) if floor > raw => floor,
        _ => raw,
    }
}

/// No modifier, however large, brings the value of a roll target below its floor.
pub proof fn lemma_target_floor(initial: int, modifier: int, floor: int, unmodified: bool)
    ensures
        target_value(initial, modifier, Some(floor), unmodified) >= floor,
{
}

/// The values of a roll target, in the numbers `T` that it is made of.
pub trait RollTargetValue<T> {
    /// Whether the modified or the unmodified value is one of the numbers `T`.
    spec fn has_value(&self, unmodified: bool) -> bool;

    /// The modified or the unmodified value, where `T` has it.
    spec fn spec_value(&self, unmodified: bool) -> T;

    /// The unmodified roll target, not below the floor.
    fn unmodified(&self) -> (r: T)
        requires
            self.has_value(true),
        ensures
            r == self.spec_value(true),
    ;

    /// The modified roll target, not below the floor.
    fn modified(&self) -> (r: T)
        requires
            self.has_value(false),
        ensures
            r == self.spec_value(false),
    ;

    /// Either the unmodified or the modified roll target, not below the floor.
    fn value(&self, unmodified: bool) -> (r: T)
        requires
            self.has_value(unmodified),
        ensures
            r == self.spec_value(unmodified),
    ;
}

impl RollTarget<u32, i32> {
    /// The value as a mathematical integer.
    pub open spec fn exact_value(&self, unmodified: bool) -> int {
        target_value(
            self.initial as int,
            self.modifier as int,
            match self.min_value {
                Some(floor) => Some(floor as int),
                None => None,
            },
            unmodified,
        )
    }

    /// The value in an integer wide enough for any target.
    fn value_in_64_bits(&self, unmodified: bool) -> (r: i64)
        ensures
            r == self.exact_value(unmodified),
            r >= self.floor(),
    {
        let raw: i64 = if unmodified {
            self.initial as i64
        } else if (self.modifier as i64) < (self.initial as i64) {
            self.initial as i64 - self.modifier as i64
        } else {
            0
        };
        let floored: i64 = match self.min_value {
            Some(floor) => if floor as i64 > raw {
                floor as i64
            } else {
                raw
            },
            None => raw,
        };
        floored
    }

    /// Whether a roll succeeds against the target: it is the target's value or more.
    pub fn is_met_by(&self, roll: u32, unmodified: bool) -> (r: bool)
        ensures
            r == (roll >= self.exact_value(unmodified)),
    {
        roll as i64 >= self.value_in_64_bits(unmodified)
    }

    /// Either the unmodified or the modified roll target, or nothing where it is beyond
    /// 32 bits.
    pub fn checked_value(&self, unmodified: bool) -> (r: Option<u32>)
        ensures
            match r {
                Some(value) => value == self.exact_value(unmodified),
                None => self.exact_value(unmodified) > u32::MAX,
            },
    {
        let value = self.value_in_64_bits(unmodified);
        if value > 0xFFFF_FFFF {
            None
        } else {
            Some(value as u32)
        }
    }

    /// The floor, or zero where there is none.
    pub open spec fn floor(&self) -> int {
        match self.min_value {
            Some(floor) => floor as int,
            None => 0,
        }
    }
}

impl RollTargetValue<u32> for RollTarget<u32, i32> {
    open spec fn has_value(&self, unmodified: bool) -> bool {
        self.exact_value(unmodified) <= u32::MAX
    }

    open spec fn spec_value(&self, unmodified: bool) -> u32 {
        self.exact_value(unmodified) as u32
    }

    fn unmodified(&self) -> (r: u32)
        ensures
            r == self.exact_value(true),
            r >= self.floor(),
    {
        self.value(true)
    }

    fn modified(&self) -> (r: u32)
        ensures
            r == self.exact_value(false),
            r >= self.floor(),
    {
        self.value(false)
    }

    fn value(&self, unmodified: bool) -> (r: u32)
        ensures
            r == self.exact_value(unmodified),
            r >= self.floor(),
    {
        self.value_in_64_bits(unmodified) as u32
    }
}

} // verus!
