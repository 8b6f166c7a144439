//! The outcomes of simulated attacks, in order of their damage.
use crate::unit::{count_of, count_up_to, total_count};
use itertools::Itertools;
use std::collections::HashMap;
use vstd::prelude::*;

verus! {

broadcast use vstd::std_specs::hash::group_hash_axioms;

/// A damage and a number of outcomes that goes with it.
#[derive(Debug, Clone, Copy, PartialEq, Eq, Structural)]
pub struct Bucket {
    pub damage: u32,
    pub value: u32,
}

impl Bucket {
    pub fn new(damage: u32, value: u32) -> (r: Self)
        ensures
            r == (Bucket { damage, value }),
    {
        Self { damage, value }
    }
}

/// The counted outcomes in ascending order of their damage: for each damage that came
/// out, how often it did (`discrete`), and how often it or a smaller one did
/// (`cumulative`).
#[derive(Debug)]
pub struct Buckets {
    pub discrete: Vec<Bucket>,
    pub cumulative: Vec<Bucket>,
}

/// A fraction of whole numbers. One without parts, nothing out of nothing, is no number.
#[derive(Debug, Clone, Copy, PartialEq, Eq, Structural)]
pub struct Fraction {
    pub numerator: u128,
    pub denominator: u128,
}

/// The sum of the damage of all outcomes with at most the given damage.
pub open spec fn damage_up_to(buckets: Map<u32, u32>, damage: int) -> nat
    decreases damage + 1,
{
    if damage < 0 {
        0
    } else {
        damage_up_to(buckets, damage - 1) + (damage * count_of(buckets, damage)) as nat
    }
}

/// The sum of the damage of all outcomes.
pub open spec fn total_damage(buckets: Map<u32, u32>) -> nat {
    damage_up_to(buckets, u32::MAX as int)
}

/// Damages that were not counted add nothing to the sum of the damage.
pub proof fn lemma_damage_gap(buckets: Map<u32, u32>, from: int, to: int)
    requires
        -1 <= from <= to,
        forall|damage: int| from < damage <= to ==> count_of(buckets, damage) == 0,
    ensures
        damage_up_to(buckets, to) == damage_up_to(buckets, from),
    decreases to - from,
{
    if from < to {
        lemma_damage_gap(buckets, from, to - 1);
        assert(count_of(buckets, to) == 0);
        assert(to * count_of(buckets, to) == 0);
    }
}

/// How large the counts and the sum of the damage up to a damage can be.
pub proof fn lemma_count_bounds(buckets: Map<u32, u32>, damage: int)
    requires
        -1 <= damage <= u32::MAX,
    ensures
        count_up_to(buckets, damage) <= (damage + 1) * 0xFFFF_FFFF,
        damage_up_to(buckets, damage) <= (damage + 1) * 0xFFFF_FFFE_0000_0001,
    decreases damage + 1,
{
    if damage >= 0 {
        lemma_count_bounds(buckets, damage - 1);
        assert(damage * count_of(buckets, damage) <= 0xFFFF_FFFF * 0xFFFF_FFFF)
            by (nonlinear_arith)
            requires
                0 <= damage <= 0xFFFF_FFFF,
                0 <= count_of(buckets, damage) <= 0xFFFF_FFFF,
        ;
        assert(damage * count_of(buckets, damage) >= 0) by (nonlinear_arith)
            requires
                0 <= damage,
                0 <= count_of(buckets, damage),
        ;
    }
}

/// The entries of a map as itertools' `sorted` orders them: ascending. The keys of a map
/// differ from each other, so they ascend strictly. Every entry of the map is among
/// them, and nothing else.
#[verifier::external_body]
pub(crate) fn sorted_entries(data: &HashMap<u32, u32>) -> (r: Vec<(u32, u32)>)
    ensures
        forall|i: int, j: int| 0 <= i < j < r@.len() ==> r@[i].0 < r@[j].0,
        forall|i: int|
            0 <= i < r@.len() ==> data@.contains_key(r@[i].0) && data@[r@[i].0] == r@[i].1,
        forall|damage: u32|
            data@.contains_key(damage) ==> exists|i: int|
                0 <= i < r@.len() && #[trigger] r@[i].0 == damage,
{
    data.iter().sorted().map(|(damage, value)| (*damage, *value)).collect()
}

/// The sum of all counts and the sum of the damage of all outcomes.
pub(crate) fn totals(data: &HashMap<u32, u32>) -> (r: Fraction)
    ensures
        r.numerator == total_damage(data@),
        r.denominator == total_count(data@),
{
    let entries = sorted_entries(data);
    let mut damage_sum: u128 = 0;
    let mut count_sum: u128 = 0;
    let mut i: usize = 0;
    while i < entries.len()
        invariant
            i <= entries.len(),
            forall|a: int, b: int| 0 <= a < b < entries@.len() ==> entries@[a].0 < entries@[b].0,
            forall|a: int|
                0 <= a < entries@.len() ==> data@.contains_key(entries@[a].0)
                    && data@[entries@[a].0] == entries@[a].1,
            forall|damage: u32|
                data@.contains_key(damage) ==> exists|a: int|
                    0 <= a < entries@.len() && #[trigger] entries@[a].0 == damage,
            count_sum == count_up_to(
                data@,
                if i == 0 {
                    -1
                } else {
                    entries@[i - 1].0 as int
                },
            ),
            damage_sum == damage_up_to(
                data@,
                if i == 0 {
                    -1
                } else {
                    entries@[i - 1].0 as int
                },
            ),
        decreases entries.len() - i,
    {
        let (damage, value) = entries[i];
        proof {
            let before: int = if i == 0 {
                -1
            } else {
                entries@[i - 1].0 as int
            };
            assert forall|d: int| before < d <= damage - 1 implies count_of(data@, d) == 0 by {
                if data@.contains_key(d as u32) {
                    let a = choose|a: int|
                        0 <= a < entries@.len() && #[trigger] entries@[a].0 == d as u32;
                    if a < i {
                        if a < i - 1 {
                            assert(entries@[a].0 < entries@[i - 1].0);
                        }
                    } else if a > i {
                        assert(entries@[i as int].0 < entries@[a].0);
                    }
                }
            }
            lemma_count_gap(data@, before, damage - 1);
            lemma_damage_gap(data@, before, damage - 1);
            lemma_count_bounds(data@, damage as int);
            lemma_count_bounds(data@, damage - 1);
            assert(damage * value <= 0xFFFF_FFFF * 0xFFFF_FFFF) by (nonlinear_arith)
                requires
                    0 <= damage <= 0xFFFF_FFFF,
                    0 <= value <= 0xFFFF_FFFF,
            ;
        }
        count_sum = count_sum + value as u128;
        damage_sum = damage_sum + (damage as u128) * (value as u128);
        i = i + 1;
    }
    proof {
        let last: int = if i == 0 {
            -1
        } else {
            entries@[i - 1].0 as int
        };
        assert forall|d: int| last < d <= u32::MAX implies count_of(data@, d) == 0 by {
            if data@.contains_key(d as u32) {
                let a = choose|a: int|
                    0 <= a < entries@.len() && #[trigger] entries@[a].0 == d as u32;
                if a < i - 1 {
                    assert(entries@[a].0 < entries@[i - 1].0);
                }
            }
        }
        lemma_count_gap(data@, last, u32::MAX as int);
        lemma_damage_gap(data@, last, u32::MAX as int);
    }
    Fraction { numerator: damage_sum, denominator: count_sum }
}

/// Damages that were not counted add nothing to the counts.
pub proof fn lemma_count_gap(buckets: Map<u32, u32>, from: int, to: int)
    requires
        from <= to,
        forall|damage: int| from < damage <= to ==> count_of(buckets, damage) == 0,
    ensures
        count_up_to(buckets, to) == count_up_to(buckets, from),
    decreases to - from,
{
    if from < to {
        lemma_count_gap(buckets, from, to - 1);
    }
}

/// The counts up to a damage do not shrink as the damage grows.
pub proof fn lemma_count_grows(buckets: Map<u32, u32>, from: int, to: int)
    requires
        from <= to,
    ensures
        count_up_to(buckets, from) <= count_up_to(buckets, to),
    decreases to - from,
{
    if from < to {
        lemma_count_grows(buckets, from, to - 1);
    }
}

impl Buckets {
    /// Whether the buckets are those of the given counts: one for each damage that was
    /// counted, in ascending order of the damage, with the count of that damage in
    /// `discrete` and the count of all damage up to it in `cumulative`.
    pub open spec fn are_of(&self, data: Map<u32, u32>) -> bool {
        &&& self.discrete@.len() == self.cumulative@.len()
        &&& forall|i: int, j: int|
            0 <= i < j < self.discrete@.len() ==> self.discrete@[i].damage
                < self.discrete@[j].damage
        &&& forall|i: int|
            0 <= i < self.discrete@.len() ==> data.contains_key(
                (#[trigger] self.discrete@[i]).damage,
            ) && self.discrete@[i].value == data[self.discrete@[i].damage]
        &&& forall|damage: u32|
            data.contains_key(damage) ==> exists|i: int|
                0 <= i < self.discrete@.len() && (#[trigger] self.discrete@[i]).damage == damage
        &&& forall|i: int|
            0 <= i < self.cumulative@.len() ==> (#[trigger] self.cumulative@[i]).damage
                == self.discrete@[i].damage && self.cumulative@[i].value == count_up_to(
                data,
                self.discrete@[i].damage as int,
            )
    }

    /// Orders counted outcomes by their damage and adds the counts up.
    pub fn from(data: &HashMap<u32, u32>) -> (r: Self)
        requires
            total_count(data@) <= u32::MAX,
        ensures
            r.are_of(data@),
    {
        let entries = sorted_entries(data);
        let mut discrete: Vec<Bucket> = Vec::new();
        let mut cumulative: Vec<Bucket> = Vec::new();
        let mut cumulative_total: u32 = 0;
        let mut i: usize = 0;
        proof {
            assert(count_up_to(data@, -1) == 0);
        }
        while i < entries.len()
            invariant
                i <= entries.len(),
                total_count(data@) <= u32::MAX,
                forall|a: int, b: int|
                    0 <= a < b < entries@.len() ==> entries@[a].0 < entries@[b].0,
                forall|a: int|
                    0 <= a < entries@.len() ==> data@.contains_key(entries@[a].0)
                        && data@[entries@[a].0] == entries@[a].1,
                forall|damage: u32|
                    data@.contains_key(damage) ==> exists|a: int|
                        0 <= a < entries@.len() && #[trigger] entries@[a].0 == damage,
                discrete@.len() == i,
                cumulative@.len() == i,
                forall|a: int|
                    0 <= a < i ==> (#[trigger] discrete@[a]).damage == entries@[a].0
                        && discrete@[a].value == entries@[a].1,
                forall|a: int|
                    0 <= a < i ==> (#[trigger] cumulative@[a]).damage == entries@[a].0
                        && cumulative@[a].value == count_up_to(data@, entries@[a].0 as int),
                cumulative_total == count_up_to(
                    data@,
                    if i == 0 {
                        -1
                    } else {
                        entries@[i - 1].0 as int
                    },
                ),
            decreases entries.len() - i,
        {
            let (damage, value) = entries[i];
            proof {
                let before: int = if i == 0 {
                    -1
                } else {
                    entries@[i - 1].0 as int
                };
                assert forall|d: int| before < d <= damage - 1 implies count_of(data@, d)
                    == 0 by {
                    if data@.contains_key(d as u32) {
                        let a = choose|a: int|
                            0 <= a < entries@.len() && #[trigger] entries@[a].0 == d as u32;
                        if a < i {
                            if a < i - 1 {
                                assert(entries@[a].0 < entries@[i - 1].0);
                            }
                        } else if a > i {
                            assert(entries@[i as int].0 < entries@[a].0);
                        }
                    }
                }
                lemma_count_gap(data@, before, damage - 1);
                lemma_count_grows(data@, damage as int, u32::MAX as int);
            }
            cumulative_total = cumulative_total + value;
            discrete.push(Bucket::new(damage, value));
            cumulative.push(Bucket::new(damage, cumulative_total));
            i = i + 1;
        }
        let buckets = Self { discrete, cumulative };
        proof {
            assert forall|damage: u32| data@.contains_key(damage) implies exists|a: int|
                0 <= a < buckets.discrete@.len() && (#[trigger] buckets.discrete@[a]).damage
                    == damage by {
                let a = choose|a: int|
                    0 <= a < entries@.len() && #[trigger] entries@[a].0 == damage;
                assert(buckets.discrete@[a].damage == damage);
            }
            assert forall|a: int, b: int|
                0 <= a < b < buckets.discrete@.len() implies buckets.discrete@[a].damage
                < buckets.discrete@[b].damage by {
                assert(entries@[a].0 < entries@[b].0);
            }
            assert forall|a: int| 0 <= a < buckets.discrete@.len() implies data@.contains_key(
                (#[trigger] buckets.discrete@[a]).damage,
            ) && buckets.discrete@[a].value == data@[buckets.discrete@[a].damage] by {
                assert(data@.contains_key(entries@[a].0));
            }
            assert forall|a: int| 0 <= a < buckets.cumulative@.len() implies (
            #[trigger] buckets.cumulative@[a]).damage == buckets.discrete@[a].damage
                && buckets.cumulative@[a].value == count_up_to(
                data@,
                buckets.discrete@[a].damage as int,
            ) by {
                assert(buckets.discrete@[a].damage == entries@[a].0);
            }
        }
        buckets
    }
}

} // verus!
