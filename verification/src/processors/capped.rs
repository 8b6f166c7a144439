//! Arithmetic on numbers that are followed only as far as 32 bits reach.
use vstd::prelude::*;

verus! {

/// One more than the largest number of 32 bits. It stands for every number beyond them.
pub const LIMIT: u64 = 0x1_0000_0000;

/// A number as far as it is followed: itself within 32 bits, `LIMIT` beyond them.
pub open spec fn capped(x: int) -> int {
    if x >= LIMIT {
        LIMIT as int
    } else {
        x
    }
}

/// The larger of two numbers.
pub open spec fn larger(a: int, b: int) -> int {
    if a >= b {
        a
    } else {
        b
    }
}

/// Capping the terms of a sum first changes nothing.
pub proof fn lemma_capped_add(a: int, b: int)
    requires
        a >= 0,
        b >= 0,
    ensures
        capped(capped(a) + capped(b)) == capped(a + b),
{
}

/// Capping the factors of a product first changes nothing.
pub proof fn lemma_capped_mul(a: int, b: int)
    requires
        a >= 0,
        b >= 0,
    ensures
        capped(capped(a) * capped(b)) == capped(a * b),
        a * b >= 0,
{
    assert(a * b >= 0) by (nonlinear_arith)
        requires
            a >= 0,
            b >= 0,
    ;
    if a >= LIMIT && b >= 1 {
        assert(a * b >= LIMIT) by (nonlinear_arith)
            requires
                a >= LIMIT,
                b >= 1,
        ;
        assert(capped(a) * capped(b) >= LIMIT) by (nonlinear_arith)
            requires
                capped(a) >= LIMIT,
                capped(b) >= 1,
        ;
    } else if b >= LIMIT && a >= 1 {
        assert(a * b >= LIMIT) by (nonlinear_arith)
            requires
                b >= LIMIT,
                a >= 1,
        ;
        assert(capped(a) * capped(b) >= LIMIT) by (nonlinear_arith)
            requires
                capped(b) >= LIMIT,
                capped(a) >= 1,
        ;
    } else if a == 0 || b == 0 {
        assert(a * b == 0) by (nonlinear_arith)
            requires
                a == 0 || b == 0,
        ;
        assert(capped(a) * capped(b) == 0) by (nonlinear_arith)
            requires
                capped(a) == 0 || capped(b) == 0,
        ;
    }
}

/// Capping commutes with taking the larger of two numbers.
pub proof fn lemma_capped_larger(a: int, b: int)
    ensures
        larger(capped(a), capped(b)) == capped(larger(a, b)),
{
}

pub fn cap_wide(x: u128) -> (r: u64)
    ensures
        r == capped(x as int),
{
    if x >= 0x1_0000_0000 {
        LIMIT
    } else {
        x as u64
    }
}

pub fn cap_add(a: u64, b: u64) -> (r: u64)
    requires
        a <= LIMIT,
        b <= LIMIT,
    ensures
        r == capped(a + b),
{
    let sum = a + b;
    if sum >= LIMIT {
        LIMIT
    } else {
        sum
    }
}

pub fn cap_mul(a: u64, b: u64) -> (r: u64)
    requires
        a <= LIMIT,
        b <= LIMIT,
    ensures
        r == capped(a * b),
{
    assert(a * b <= 0x1_0000_0000 * 0x1_0000_0000) by (nonlinear_arith)
        requires
            a <= 0x1_0000_0000,
            b <= 0x1_0000_0000,
    ;
    cap_wide((a as u128) * (b as u128))
}

pub fn cap_larger(a: u64, b: u64) -> (r: u64)
    ensures
        r == larger(a as int, b as int),
{
    if a >= b {
        a
    } else {
        b
    }
}

} // verus!
