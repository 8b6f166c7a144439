//! Things that can be rolled, and the source of randomness they are rolled with.
use rand::Rng;
use vstd::prelude::*;

pub mod dice;
pub mod dice_notation;
pub mod notation_text;
pub mod source;
pub mod text;

pub use dice::{dice_of, dice_sum, dice_text, is_dice_split, lemma_dice_round_trip, trimmed, Dice};
pub use dice_notation::{
    all_have_sides, at_least_zero, total_count, total_max, total_min, total_rolled,
    total_sides, total_twice_average, DiceNotation, NotationValue,
};
pub use source::{
    agrees, die, extends, fit, follows, in_range, lemma_agrees_before, lemma_sides_join,
    lemma_sides_none, lemma_values_agree, same_sides, shown_by, sides_from,
    stream_of, values_of, Draw, Recorded, Script, Source,
};
pub use notation_text::{
    fits_i32, has_dice_letter, lemma_text_round_trip, notation_of, notation_text,
    signed_constant, signed_dice, signed_text, term_end, terms_of, without_whitespace,
};

verus! {

/// A source of die rolls. It is handed to every function that rolls, so that a caller
/// decides where the numbers come from.
pub trait Roller {
    /// Rolls one die with the given number of sides: a number from 1 to `sides`.
    fn roll(&self, sides: u32) -> (r: u32)
        requires
            sides >= 1,
        ensures
            1 <= r <= sides,
    ;
}

/// One draw of `rand`'s thread-local generator from `1..=sides`, by `Rng::gen_range`.
/// `gen_range` panics on an empty range, that is when `sides` is 0, and otherwise returns
/// a member of the range. Which member is a matter of chance: nothing more is claimed.
/// The generator is seeded by the system when a thread first uses it; where the system
/// gives no seed, `thread_rng` stops the program.
#[verifier::external_body]
fn thread_rng_roll(sides: u32) -> (r: u32)
    requires
        sides >= 1,
    ensures
        1 <= r <= sides,
{
    rand::thread_rng().gen_range(1..=sides)
}

/// The roller that draws from the thread-local random number generator.
#[derive(Debug)]
pub struct DiceRoller;

impl DiceRoller {
    pub fn new() -> (r: Self) {
        DiceRoller
    }
}

impl Default for DiceRoller {
    fn default() -> (r: Self) {
        DiceRoller
    }
}

impl Roller for DiceRoller {
    fn roll(&self, sides: u32) -> (r: u32) {
        thread_rng_roll(sides)
    }
}

/// A quantity that is rolled with dice: it has a smallest and a largest value, and every
/// roll lies between the two.
pub trait Rollable {
    /// The smallest value that a roll can give.
    spec fn min_value(&self) -> int;

    /// The largest value that a roll can give.
    spec fn max_value(&self) -> int;

    /// Twice the value that rolls give on average.
    spec fn twice_average(&self) -> int;

    /// Every die has at least one side, so that it can be rolled.
    spec fn has_sides(&self) -> bool;

    fn min(&self) -> (r: u32)
        requires
            self.min_value() <= u32::MAX,
        ensures
            r == self.min_value(),
    ;

    fn max(&self) -> (r: u32)
        requires
            self.max_value() <= u32::MAX,
        ensures
            r == self.max_value(),
    ;

    /// Twice the average, which is a whole number where the average itself may be half
    /// of one.
    fn average_doubled(&self) -> (r: u64)
        requires
            self.twice_average() <= u64::MAX,
        ensures
            r == self.twice_average(),
    ;

    /// How many rolls a roll of this reads.
    spec fn count(&self) -> int;

    /// What a roll of this gives where its dice show what the stream holds from the
    /// place `at` on.
    spec fn rolled(&self, stream: spec_fn(int) -> u32, at: int) -> int;

    /// The sides of the dice that a roll of this throws, in the order in which it throws
    /// them.
    spec fn sides(&self) -> Seq<u32>;

    /// Rolls with dice drawn from the source: the dice of `sides()` are drawn in their
    /// order, and the value is what their rolls give.
    fn roll_from<S: Source>(&self, source: &mut S) -> (r: u32)
        requires
            self.has_sides(),
            self.max_value() <= u32::MAX,
            old(source).valid(),
        ensures
            self.min_value() <= r <= self.max_value(),
            follows(*old(source), *final(source)),
            final(source).drawn().len() == old(source).drawn().len() + self.count(),
            sides_from(final(source).drawn(), old(source).drawn().len() as int) == self.sides(),
            forall|stream: spec_fn(int) -> u32| #[trigger]
                agrees(stream, final(source).drawn()) ==> r == self.rolled(
                    stream,
                    old(source).drawn().len() as int,
                ),
    ;

    /// Rolls with the given roller: the value that the dice thrown give.
    fn roll<T: Roller>(&self, roller: &T) -> (r: u32)
        requires
            self.has_sides(),
            self.max_value() <= u32::MAX,
        ensures
            self.min_value() <= r <= self.max_value(),
            exists|rolls: Seq<u32>|
                shown_by(rolls, self.sides())
                    && rolls.len() == self.count() && r == self.rolled(stream_of(rolls), 0),
    {
        let mut source = Recorded::new(roller);
        let value = self.roll_from(&mut source);
        proof {
            source.lemma_in_range();
            lemma_values_agree(source.drawn());
            let rolls = values_of(source.drawn());
            assert(shown_by(rolls, self.sides())
                    && rolls.len() == self.count() && value == self.rolled(stream_of(rolls), 0));
        }
        value
    }
}

} // verus!
