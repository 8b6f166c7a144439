//! Arithmetic that tells when a number leaves 128 bits.
use vstd::prelude::*;

verus! {

/// Whether a number is one that 128 bits with a sign hold.
pub open spec fn fits(x: int) -> bool {
    i128::MIN <= x <= i128::MAX
}

/// A number where 128 bits hold it, and nothing where they do not.
pub open spec fn checked(x: int) -> Option<i128> {
    if fits(x) {
        Some(x as i128)
    } else {
        None
    }
}

pub fn times(a: i128, b: i128) -> (r: Option<i128>)
    ensures
        r == checked(a * b),
{
    a.checked_mul(b)
}

pub fn plus(a: i128, b: i128) -> (r: Option<i128>)
    ensures
        r == checked(a + b),
{
    a.checked_add(b)
}

pub fn minus(a: i128, b: i128) -> (r: Option<i128>)
    ensures
        r == checked(a - b),
{
    a.checked_sub(b)
}

/// The product of two numbers that are not below zero.
pub fn scaled(weight: u128, value: u128) -> (r: Option<i128>)
    ensures
        r == checked(weight * value),
        weight * value >= 0,
{
    assert(weight * value >= 0) by (nonlinear_arith)
        requires
            weight >= 0,
            value >= 0,
    ;
    match weight.checked_mul(value) {
        Some(product) => if product <= i128::MAX as u128 {
            Some(product as i128)
        } else {
            None
        },
        None => None,
    }
}

} // verus!
