//! A die of any number of sides, and the chance to roll at least a number with it.
use vstd::prelude::*;

verus! {

/// A die.
#[derive(Debug, Clone, Copy, PartialEq, Eq, Structural)]
pub struct Dice {
    pub sides: usize,
}

/// How many of the sides of a die show at least the roll needed: all but those below
/// it, neither less than none nor more than all.
pub open spec fn success_sides(sides: int, target: int) -> int {
    if target > sides + 1 {
        0
    } else if target < 1 {
        sides
    } else {
        sides + 1 - target
    }
}

impl Dice {
    pub fn new(sides: usize) -> (r: Self)
        ensures
            r == (Dice { sides }),
    {
        Self { sides }
    }

    /// A die of six sides.
    pub fn d6() -> (r: Self)
        ensures
            r == (Dice { sides: 6 }),
    {
        Self { sides: 6 }
    }

    /// The chance to roll at least `target`, in parts of the sides of the die.
    pub fn probability(&self, target: u8) -> (r: usize)
        ensures
            r == success_sides(self.sides as int, target as int),
            r <= self.sides,
    {
        if target == 0 {
            self.sides
        } else if (target - 1) as usize >= self.sides {
            0
        } else {
            self.sides - (target - 1) as usize
        }
    }

    /// The chance to roll less than `target`, in parts of the sides of the die.
    pub fn inverse_probability(&self, target: u8) -> (r: usize)
        ensures
            r == self.sides - success_sides(self.sides as int, target as int),
    {
        self.sides - self.probability(target)
    }
}

} // verus!
