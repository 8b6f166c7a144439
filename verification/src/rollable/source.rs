//! Where the rolls come from while something is rolled, and the record of what came.
//!
//! A [`Source`] hands out one die at a time and keeps, as a ghost value, the list of
//! what it has handed out: for each die the sides that were asked for and the number
//! that came. A function that rolls says which dice it draws, by their sides and in
//! their order, and what it returns as a function of the rolls it has read, so that the
//! same function can be run on dice that are thrown ([`Recorded`]) and on rolls that are
//! written down beforehand ([`Script`]).
use super::Roller;
use vstd::prelude::*;

verus! {

/// One die that was drawn: the number of sides that was asked for, and the number that
/// came.
pub struct Draw {
    pub sides: u32,
    pub value: u32,
}

/// A written roll as a die of `sides` sides reads it: the roll itself where such a die
/// can show it, and 1 otherwise.
pub open spec fn fit(value: u32, sides: u32) -> u32 {
    if 1 <= value <= sides {
        value
    } else {
        1
    }
}

/// What a die of `sides` sides shows at the place `at` of a stream of rolls.
pub open spec fn die(stream: spec_fn(int) -> u32, at: int, sides: u32) -> int {
    fit(stream(at), sides) as int
}

/// The stream that holds the given rolls, and 1 at every place behind them.
pub open spec fn stream_of(rolls: Seq<u32>) -> spec_fn(int) -> u32 {
    |at: int|
        if 0 <= at < rolls.len() {
            rolls[at]
        } else {
            1u32
        }
}

/// The stream shows, at each place of the record, the die that was drawn there.
pub open spec fn agrees(stream: spec_fn(int) -> u32, drawn: Seq<Draw>) -> bool {
    forall|i: int| 0 <= i < drawn.len() ==> die(stream, i, (#[trigger] drawn[i]).sides) == drawn[i].value
}

/// Every die of the record shows one of its sides.
pub open spec fn in_range(drawn: Seq<Draw>) -> bool {
    forall|i: int| 0 <= i < drawn.len() ==> 1 <= (#[trigger] drawn[i]).value <= drawn[i].sides
}

/// The numbers that the dice of a record show, in order.
pub open spec fn values_of(drawn: Seq<Draw>) -> Seq<u32> {
    Seq::new(drawn.len(), |i: int| drawn[i].value)
}

/// The record `after` starts with the record `before`.
pub open spec fn extends(before: Seq<Draw>, after: Seq<Draw>) -> bool {
    before.len() <= after.len() && forall|i: int|
        0 <= i < before.len() ==> #[trigger] after[i] == before[i]
}

/// The sides of the dice of a record from the place `from` on, in the order in which
/// they were drawn.
pub open spec fn sides_from(drawn: Seq<Draw>, from: int) -> Seq<u32> {
    Seq::new((drawn.len() - from) as nat, |i: int| drawn[from + i].sides)
}

/// The sides of `count` dice that all have the same number of sides.
pub open spec fn same_sides(count: int, sides: u32) -> Seq<u32> {
    Seq::new(
        if count > 0 {
            count as nat
        } else {
            0nat
        },
        |i: int| sides,
    )
}

/// The dice drawn since an earlier state of a record are those drawn up to a state
/// between the two, and those drawn since.
pub proof fn lemma_sides_join(from: int, middle: Seq<Draw>, after: Seq<Draw>)
    requires
        0 <= from <= middle.len(),
        extends(middle, after),
    ensures
        sides_from(after, from) == sides_from(middle, from) + sides_from(
            after,
            middle.len() as int,
        ),
{
    let joined = sides_from(middle, from) + sides_from(after, middle.len() as int);
    assert forall|i: int| 0 <= i < after.len() - from implies sides_from(after, from)[i]
        == joined[i] by {
        if from + i < middle.len() {
            assert(after[from + i] == middle[from + i]);
        }
    }
    assert(sides_from(after, from) =~= joined);
}

/// No dice were drawn since the state that a record is in.
pub proof fn lemma_sides_none(drawn: Seq<Draw>)
    ensures
        sides_from(drawn, drawn.len() as int) == Seq::<u32>::empty(),
{
    assert(sides_from(drawn, drawn.len() as int) =~= Seq::<u32>::empty());
}

/// Something that hands out rolls and keeps the record of them.
pub trait Source: Sized {
    /// The dice drawn so far, oldest first.
    spec fn drawn(&self) -> Seq<Draw>;

    /// The rolls that were written down for the source to read, if any. They never
    /// change.
    spec fn given(&self) -> Seq<u32>;

    /// The record and the source's own state fit together.
    spec fn valid(&self) -> bool;

    /// Draws one die with the given number of sides and adds it to the record.
    fn draw(&mut self, sides: u32) -> (r: u32)
        requires
            old(self).valid(),
            sides >= 1,
        ensures
            final(self).valid(),
            final(self).given() == old(self).given(),
            1 <= r <= sides,
            final(self).drawn() == old(self).drawn().push(Draw { sides, value: r }),
    ;
}

/// The source `after` is the source `before` at a later time: nothing was taken from
/// the record, and what it was given to read is the same.
pub open spec fn follows<S: Source>(before: S, after: S) -> bool {
    after.valid() && after.given() == before.given() && extends(before.drawn(), after.drawn())
}

/// A stream that agrees with a record agrees with every earlier state of it.
pub proof fn lemma_agrees_before(stream: spec_fn(int) -> u32, before: Seq<Draw>, after: Seq<Draw>)
    requires
        extends(before, after),
        agrees(stream, after),
    ensures
        agrees(stream, before),
{
    assert forall|i: int| 0 <= i < before.len() implies die(
        stream,
        i,
        (#[trigger] before[i]).sides,
    ) == before[i].value by {
        assert(after[i] == before[i]);
    }
}

/// Each roll is one that a die with the sides at its place can show.
pub open spec fn shown_by(rolls: Seq<u32>, sides: Seq<u32>) -> bool {
    rolls.len() == sides.len() && forall|i: int|
        0 <= i < rolls.len() ==> 1 <= #[trigger] rolls[i] <= sides[i]
}

/// Where every die of a record shows one of its sides, the numbers of the record are
/// rolls that its dice can show, and their stream agrees with the record.
pub proof fn lemma_values_agree(drawn: Seq<Draw>)
    requires
        in_range(drawn),
    ensures
        agrees(stream_of(values_of(drawn)), drawn),
        values_of(drawn).len() == drawn.len(),
        shown_by(values_of(drawn), sides_from(drawn, 0)),
{
    assert forall|i: int| 0 <= i < drawn.len() implies 1 <= #[trigger] values_of(drawn)[i]
        <= sides_from(drawn, 0)[i] by {
        assert(1 <= drawn[i].value <= drawn[i].sides);
    }
}

/// A source that throws each die with a [`Roller`].
pub struct Recorded<'a, T: Roller> {
    roller: &'a T,
    drawn: Ghost<Seq<Draw>>,
}

impl<'a, T: Roller> Recorded<'a, T> {
    /// A source on the given roller, with nothing drawn yet.
    pub fn new(roller: &'a T) -> (r: Self)
        ensures
            r.valid(),
            r.drawn() == Seq::<Draw>::empty(),
    {
        Recorded { roller, drawn: Ghost(Seq::empty()) }
    }

    /// Every die of the record shows one of its sides.
    pub proof fn lemma_in_range(&self)
        requires
            self.valid(),
        ensures
            in_range(self.drawn()),
    {
    }
}

impl<'a, T: Roller> Source for Recorded<'a, T> {
    closed spec fn drawn(&self) -> Seq<Draw> {
        self.drawn@
    }

    closed spec fn given(&self) -> Seq<u32> {
        Seq::empty()
    }

    closed spec fn valid(&self) -> bool {
        in_range(self.drawn@)
    }

    fn draw(&mut self, sides: u32) -> (r: u32) {
        let r = self.roller.roll(sides);
        proof {
            self.drawn@ = self.drawn@.push(Draw { sides, value: r });
        }
        r
    }
}

/// A source that reads its rolls from a list written beforehand. A roll that the die
/// asked for cannot show is read as 1, and so is every roll behind the end of the list.
pub struct Script<'a> {
    rolls: &'a Vec<u32>,
    next: usize,
    short: bool,
    drawn: Ghost<Seq<Draw>>,
}

impl<'a> Script<'a> {
    /// A source that reads the given rolls from the first on.
    pub fn new(rolls: &'a Vec<u32>) -> (r: Self)
        ensures
            r.valid(),
            r.given() == rolls@,
            r.drawn() == Seq::<Draw>::empty(),
    {
        Script { rolls, next: 0, short: false, drawn: Ghost(Seq::empty()) }
    }

    /// How many of the given rolls were read, where the list held enough of them.
    pub fn read(&self) -> (r: Option<usize>)
        requires
            self.valid(),
        ensures
            r is Some <==> self.drawn().len() <= self.given().len(),
            r matches Some(n) ==> n == self.drawn().len(),
    {
        if self.short {
            None
        } else {
            Some(self.next)
        }
    }

    /// The stream of the given rolls agrees with what was drawn.
    pub proof fn lemma_agrees(&self)
        requires
            self.valid(),
        ensures
            agrees(stream_of(self.given()), self.drawn()),
    {
    }
}

impl<'a> Source for Script<'a> {
    closed spec fn drawn(&self) -> Seq<Draw> {
        self.drawn@
    }

    closed spec fn given(&self) -> Seq<u32> {
        self.rolls@
    }

    closed spec fn valid(&self) -> bool {
        &&& self.next <= self.rolls@.len()
        &&& self.short <==> self.drawn@.len() > self.rolls@.len()
        &&& !self.short ==> self.next == self.drawn@.len()
        &&& self.short ==> self.next == self.rolls@.len()
        &&& agrees(stream_of(self.rolls@), self.drawn@)
    }

    fn draw(&mut self, sides: u32) -> (r: u32) {
        let ghost before = self.drawn@;
        assert(agrees(stream_of(self.rolls@), before));
        let r: u32 = if self.next < self.rolls.len() {
            let written = self.rolls[self.next];
            self.next = self.next + 1;
            if 1 <= written && written <= sides {
                written
            } else {
                1
            }
        } else {
            self.short = true;
            1
        };
        proof {
            self.drawn@ = before.push(Draw { sides, value: r });
            assert forall|i: int| 0 <= i < self.drawn@.len() implies die(
                stream_of(self.rolls@),
                i,
                (#[trigger] self.drawn@[i]).sides,
            ) == self.drawn@[i].value by {
                if i < before.len() {
                    assert(self.drawn@[i] == before[i]);
                    assert(die(stream_of(self.rolls@), i, before[i].sides) == before[i].value);
                } else {
                    assert(self.drawn@[i] == (Draw { sides, value: r }));
                    assert(i == before.len());
                    assert(stream_of(self.rolls@)(i) == if 0 <= i < self.rolls@.len() {
                        self.rolls@[i]
                    } else {
                        1u32
                    });
                }
            }
        }
        r
    }
}

} // verus!
