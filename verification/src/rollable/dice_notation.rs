//! Expressions of dice and a constant, such as `2d6 + d3 - 2`.
use super::dice::Dice;
use super::source::{
    agrees, extends, follows, lemma_agrees_before, lemma_sides_join, lemma_sides_none,
    sides_from, Source,
};
use super::{Rollable, Roller};
use vstd::prelude::*;
use vstd::std_specs::convert::FromSpecImpl;

verus! {

/// An expression of dice that are added, dice that are subtracted, and a constant. Its
/// values are never negative: what falls below zero counts as zero.
#[derive(Debug, Clone, PartialEq, Eq)]
pub struct DiceNotation {
    pub additions: Vec<Dice>,
    pub subtractions: Vec<Dice>,
    pub constant: i32,
}

/// What a [`DiceNotation`] holds, as mathematical values.
pub struct NotationValue {
    pub additions: Seq<Dice>,
    pub subtractions: Seq<Dice>,
    pub constant: int,
}

impl View for DiceNotation {
    type V = NotationValue;

    open spec fn view(&self) -> NotationValue {
        NotationValue {
            additions: self.additions@,
            subtractions: self.subtractions@,
            constant: self.constant as int,
        }
    }
}

/// The sum of the smallest rolls of the given dice.
pub open spec fn total_min(dice: Seq<Dice>) -> int
    decreases dice.len(),
{
    if dice.len() == 0 {
        0
    } else {
        total_min(dice.drop_last()) + dice.last().min_value()
    }
}

/// The sum of the largest rolls of the given dice.
pub open spec fn total_max(dice: Seq<Dice>) -> int
    decreases dice.len(),
{
    if dice.len() == 0 {
        0
    } else {
        total_max(dice.drop_last()) + dice.last().max_value()
    }
}

/// Every one of the given dice has at least one side.
pub open spec fn all_have_sides(dice: Seq<Dice>) -> bool {
    forall|i: int| 0 <= i < dice.len() ==> (#[trigger] dice[i]).has_sides()
}

/// A number, or zero where the number is negative.
pub open spec fn at_least_zero(x: int) -> int {
    if x < 0 {
        0
    } else {
        x
    }
}

impl NotationValue {
    /// The smallest value: the smallest rolls of the additions, less the largest rolls of
    /// the subtractions, with the constant; zero where that is negative.
    pub open spec fn min_value(self) -> int {
        at_least_zero(total_min(self.additions) - total_max(self.subtractions) + self.constant)
    }

    /// The largest value: the largest rolls of the additions, less the smallest rolls of
    /// the subtractions, with the constant; zero where that is negative.
    pub open spec fn max_value(self) -> int {
        at_least_zero(total_max(self.additions) - total_min(self.subtractions) + self.constant)
    }

    /// Twice the average value. The average itself may be half a number: a die of six
    /// sides gives three and a half.
    pub open spec fn twice_average(self) -> int {
        at_least_zero(
            total_twice_average(self.additions) - total_twice_average(self.subtractions) + 2
                * self.constant,
        )
    }

    /// Every die has at least one side.
    pub open spec fn has_sides(self) -> bool {
        all_have_sides(self.additions) && all_have_sides(self.subtractions)
    }
}

/// Twice the sum of the averages of the given dice.
pub open spec fn total_twice_average(dice: Seq<Dice>) -> int
    decreases dice.len(),
{
    if dice.len() == 0 {
        0
    } else {
        total_twice_average(dice.drop_last()) + dice.last().twice_average()
    }
}

/// The largest roll of two to the power of 32 less one dice with as many sides.
pub const LARGEST_DICE: u128 = 0xFFFF_FFFE_0000_0001;

/// Twice the largest average of dice.
pub const LARGEST_AVERAGE: u128 = 0xFFFF_FFFF_0000_0000;

/// Above the largest sum, for as many dice as a vector can hold, of smallest rolls, of
/// largest rolls, or of twice the averages.
pub const LARGEST_TOTAL: u128 = 0xFFFF_FFFE_FFFF_FFFF_0000_0001_0000_0000;

/// How large the sums over dice can be.
pub proof fn lemma_total_bounds(dice: Seq<Dice>)
    ensures
        0 <= total_min(dice) <= dice.len() * 0xFFFF_FFFF,
        0 <= total_max(dice) <= dice.len() * LARGEST_DICE,
        0 <= total_twice_average(dice) <= dice.len() * LARGEST_AVERAGE,
        dice.len() <= usize::MAX ==> total_min(dice) <= LARGEST_TOTAL && total_max(dice)
            <= LARGEST_TOTAL && total_twice_average(dice) <= LARGEST_TOTAL,
    decreases dice.len(),
{
    if dice.len() > 0 {
        lemma_total_bounds(dice.drop_last());
        let d = dice.last();
        assert(0 <= d.quantity * d.sides <= 0xFFFF_FFFF * 0xFFFF_FFFF) by (nonlinear_arith)
            requires
                0 <= d.quantity <= 0xFFFF_FFFF,
                0 <= d.sides <= 0xFFFF_FFFF,
        ;
        assert(0 <= d.quantity * (d.sides + 1) <= 0xFFFF_FFFF * 0x1_0000_0000)
            by (nonlinear_arith)
            requires
                0 <= d.quantity <= 0xFFFF_FFFF,
                0 <= d.sides <= 0xFFFF_FFFF,
        ;
    }
}

/// Of dice with sides, the smallest rolls are no more than the average, and the average
/// is no more than the largest rolls.
pub proof fn lemma_total_order(dice: Seq<Dice>)
    requires
        all_have_sides(dice),
    ensures
        2 * total_min(dice) <= total_twice_average(dice) <= 2 * total_max(dice),
    decreases dice.len(),
{
    if dice.len() > 0 {
        let d = dice.last();
        assert(d.has_sides());
        assert forall|i: int| 0 <= i < dice.drop_last().len() implies (
        #[trigger] dice.drop_last()[i]).has_sides() by {
            assert(dice.drop_last()[i] == dice[i]);
        }
        lemma_total_order(dice.drop_last());
        assert(2 * d.quantity <= d.quantity * (d.sides + 1) <= 2 * (d.quantity * d.sides))
            by (nonlinear_arith)
            requires
                d.quantity >= 0,
                d.sides >= 1,
        ;
    }
}

impl NotationValue {
    /// No value of a notation is below zero. Of a notation whose dice have sides, the
    /// smallest value is no more than the average, and the average is no more than the
    /// largest value.
    pub proof fn lemma_value_order(self)
        ensures
            0 <= self.min_value(),
            0 <= self.max_value(),
            0 <= self.twice_average(),
            self.has_sides() ==> 2 * self.min_value() <= self.twice_average() <= 2
                * self.max_value(),
    {
        if self.has_sides() {
            lemma_total_order(self.additions);
            lemma_total_order(self.subtractions);
        }
    }
}

/// The sum of the smallest rolls.
fn sum_min(dice: &Vec<Dice>) -> (r: u128)
    ensures
        r == total_min(dice@),
        r <= LARGEST_TOTAL,
{
    let mut total: u128 = 0;
    let mut i: usize = 0;
    while i < dice.len()
        invariant
            i <= dice.len(),
            total == total_min(dice@.take(i as int)),
        decreases dice.len() - i,
    {
        proof {
            lemma_total_bounds(dice@.take(i as int));
            assert(dice@.take(i + 1).drop_last() =~= dice@.take(i as int));
        }
        total = total + dice[i].quantity as u128;
        i = i + 1;
    }
    proof {
        assert(dice@.take(i as int) =~= dice@);
        lemma_total_bounds(dice@);
    }
    total
}

/// The sum of the largest rolls.
fn sum_max(dice: &Vec<Dice>) -> (r: u128)
    ensures
        r == total_max(dice@),
        r <= LARGEST_TOTAL,
{
    let mut total: u128 = 0;
    let mut i: usize = 0;
    while i < dice.len()
        invariant
            i <= dice.len(),
            total == total_max(dice@.take(i as int)),
        decreases dice.len() - i,
    {
        proof {
            lemma_total_bounds(dice@.take(i as int));
            lemma_total_bounds(dice@.take(i + 1));
            assert(dice@.take(i + 1).drop_last() =~= dice@.take(i as int));
        }
        total = total + dice[i].max_wide() as u128;
        i = i + 1;
    }
    proof {
        assert(dice@.take(i as int) =~= dice@);
        lemma_total_bounds(dice@);
    }
    total
}

/// Twice the sum of the averages.
fn sum_twice_average(dice: &Vec<Dice>) -> (r: u128)
    ensures
        r == total_twice_average(dice@),
        r <= LARGEST_TOTAL,
{
    let mut total: u128 = 0;
    let mut i: usize = 0;
    while i < dice.len()
        invariant
            i <= dice.len(),
            total == total_twice_average(dice@.take(i as int)),
        decreases dice.len() - i,
    {
        proof {
            lemma_total_bounds(dice@.take(i as int));
            lemma_total_bounds(dice@.take(i + 1));
            assert(dice@.take(i + 1).drop_last() =~= dice@.take(i as int));
            let d = dice@[i as int];
            assert(d.quantity * (d.sides + 1) <= 0xFFFF_FFFF * 0x1_0000_0000) by (nonlinear_arith)
                requires
                    d.quantity <= 0xFFFF_FFFF,
                    d.sides + 1 <= 0x1_0000_0000,
            ;
        }
        total = total + dice[i].average_doubled() as u128;
        i = i + 1;
    }
    proof {
        assert(dice@.take(i as int) =~= dice@);
        lemma_total_bounds(dice@);
    }
    total
}

/// How many rolls a roll of all the given dice reads.
pub open spec fn total_count(dice: Seq<Dice>) -> int
    decreases dice.len(),
{
    if dice.len() == 0 {
        0
    } else {
        total_count(dice.drop_last()) + dice.last().quantity
    }
}

/// The sides of the dice that a roll of all the given dice throws, in order.
pub open spec fn total_sides(dice: Seq<Dice>) -> Seq<u32>
    decreases dice.len(),
{
    if dice.len() == 0 {
        Seq::empty()
    } else {
        total_sides(dice.drop_last()) + dice.last().sides()
    }
}

/// The sum of what the given dice show, rolled one after the other from the place `at`
/// of the stream on.
pub open spec fn total_rolled(dice: Seq<Dice>, stream: spec_fn(int) -> u32, at: int) -> int
    decreases dice.len(),
{
    if dice.len() == 0 {
        0
    } else {
        total_rolled(dice.drop_last(), stream, at) + dice.last().rolled(
            stream,
            at + total_count(dice.drop_last()),
        )
    }
}

/// Draws all the dice from the source and adds the rolls up.
fn sum_roll<S: Source>(dice: &Vec<Dice>, source: &mut S) -> (r: u128)
    requires
        all_have_sides(dice@),
        old(source).valid(),
    ensures
        total_min(dice@) <= r <= total_max(dice@),
        r <= LARGEST_TOTAL,
        follows(*old(source), *final(source)),
        final(source).drawn().len() == old(source).drawn().len() + total_count(dice@),
        sides_from(final(source).drawn(), old(source).drawn().len() as int) == total_sides(dice@),
        forall|stream: spec_fn(int) -> u32| #[trigger]
            agrees(stream, final(source).drawn()) ==> r == total_rolled(
                dice@,
                stream,
                old(source).drawn().len() as int,
            ),
{
    let ghost start = source.drawn();
    let ghost given = source.given();
    let mut total: u128 = 0;
    let mut i: usize = 0;
    proof {
        lemma_sides_none(start);
    }
    while i < dice.len()
        invariant
            i <= dice.len(),
            all_have_sides(dice@),
            total_min(dice@.take(i as int)) <= total <= total_max(dice@.take(i as int)),
            source.valid(),
            source.given() == given,
            extends(start, source.drawn()),
            source.drawn().len() == start.len() + total_count(dice@.take(i as int)),
            sides_from(source.drawn(), start.len() as int) == total_sides(dice@.take(i as int)),
            forall|stream: spec_fn(int) -> u32| #[trigger]
                agrees(stream, source.drawn()) ==> total == total_rolled(
                    dice@.take(i as int),
                    stream,
                    start.len() as int,
                ),
        decreases dice.len() - i,
    {
        proof {
            lemma_total_bounds(dice@.take(i as int));
            lemma_total_bounds(dice@.take(i + 1));
            assert(dice@.take(i + 1).drop_last() =~= dice@.take(i as int));
        }
        let ghost before = source.drawn();
        let rolled = dice[i].roll_wide_from(source);
        proof {
            lemma_sides_join(start.len() as int, before, source.drawn());
            assert forall|stream: spec_fn(int) -> u32| #[trigger]
                agrees(stream, source.drawn()) implies total + rolled == total_rolled(
                dice@.take(i + 1),
                stream,
                start.len() as int,
            ) by {
                lemma_agrees_before(stream, before, source.drawn());
            }
        }
        total = total + rolled as u128;
        i = i + 1;
    }
    proof {
        assert(dice@.take(i as int) =~= dice@);
        lemma_total_bounds(dice@);
    }
    total
}

/// A list of the same dice.
fn same_dice(dice: &Vec<Dice>) -> (r: Vec<Dice>)
    ensures
        r@ == dice@,
{
    let mut copy: Vec<Dice> = Vec::new();
    let mut i: usize = 0;
    while i < dice.len()
        invariant
            i <= dice.len(),
            copy@ == dice@.take(i as int),
        decreases dice.len() - i,
    {
        copy.push(dice[i]);
        assert(copy@ =~= dice@.take(i + 1));
        i = i + 1;
    }
    assert(dice@.take(i as int) =~= dice@);
    copy
}

/// Whether every one of the dice has at least one side.
fn have_sides(dice: &Vec<Dice>) -> (r: bool)
    ensures
        r == all_have_sides(dice@),
{
    let mut i: usize = 0;
    while i < dice.len()
        invariant
            i <= dice.len(),
            forall|j: int| 0 <= j < i ==> (#[trigger] dice@[j]).has_sides(),
        decreases dice.len() - i,
    {
        if dice[i].sides == 0 {
            return false;
        }
        i = i + 1;
    }
    true
}

/// `plus - minus + constant`, or zero where that is negative.
fn settle(plus: u128, minus: u128, constant: i64) -> (r: u128)
    requires
        plus <= LARGEST_TOTAL,
        minus <= LARGEST_TOTAL,
        -0x1_0000_0000 <= constant <= 0x1_0000_0000,
    ensures
        r == at_least_zero(plus - minus + constant),
{
    let (up, down): (u128, u128) = if constant >= 0 {
        (plus + constant as u128, minus)
    } else {
        (plus, minus + (-constant) as u128)
    };
    if up > down {
        up - down
    } else {
        0
    }
}

impl DiceNotation {
    pub fn new(additions: Vec<Dice>, subtractions: Vec<Dice>, constant: i32) -> (r: Self)
        ensures
            r.additions == additions,
            r.subtractions == subtractions,
            r.constant == constant,
    {
        Self { additions, subtractions, constant }
    }

    /// The notation without dice and with the constant zero.
    pub fn empty() -> (r: Self)
        ensures
            r@ == (NotationValue {
                additions: Seq::empty(),
                subtractions: Seq::empty(),
                constant: 0,
            }),
    {
        Self { additions: Vec::new(), subtractions: Vec::new(), constant: 0 }
    }

    /// Whether every die has at least one side, so that the notation can be rolled.
    pub fn can_be_rolled(&self) -> (r: bool)
        ensures
            r == self@.has_sides(),
    {
        have_sides(&self.additions) && have_sides(&self.subtractions)
    }

    /// The smallest value, in an integer wide enough for any notation.
    pub fn min_wide(&self) -> (r: u128)
        ensures
            r == self@.min_value(),
    {
        settle(sum_min(&self.additions), sum_max(&self.subtractions), self.constant as i64)
    }

    /// The largest value, in an integer wide enough for any notation.
    pub fn max_wide(&self) -> (r: u128)
        ensures
            r == self@.max_value(),
    {
        settle(sum_max(&self.additions), sum_min(&self.subtractions), self.constant as i64)
    }

    /// Twice the average value, in an integer wide enough for any notation.
    pub fn average_doubled_wide(&self) -> (r: u128)
        ensures
            r == self@.twice_average(),
    {
        settle(
            sum_twice_average(&self.additions),
            sum_twice_average(&self.subtractions),
            2 * (self.constant as i64),
        )
    }

    /// A notation of the same dice and the same constant.
    pub fn duplicate(&self) -> (r: Self)
        ensures
            r@ == self@,
    {
        Self {
            additions: same_dice(&self.additions),
            subtractions: same_dice(&self.subtractions),
            constant: self.constant,
        }
    }

    /// Draws every die from the source, in an integer wide enough for any notation.
    pub fn roll_wide_from<S: Source>(&self, source: &mut S) -> (r: u128)
        requires
            self@.has_sides(),
            old(source).valid(),
        ensures
            self@.min_value() <= r <= self@.max_value(),
            follows(*old(source), *final(source)),
            final(source).drawn().len() == old(source).drawn().len() + self@.count(),
            sides_from(final(source).drawn(), old(source).drawn().len() as int) == self@.sides(),
            forall|stream: spec_fn(int) -> u32| #[trigger]
                agrees(stream, final(source).drawn()) ==> r == self@.rolled(
                    stream,
                    old(source).drawn().len() as int,
                ),
    {
        let ghost start = source.drawn();
        let plus = sum_roll(&self.additions, source);
        let ghost middle = source.drawn();
        let minus = sum_roll(&self.subtractions, source);
        let r = settle(plus, minus, self.constant as i64);
        proof {
            lemma_sides_join(start.len() as int, middle, source.drawn());
            assert forall|stream: spec_fn(int) -> u32| #[trigger]
                agrees(stream, source.drawn()) implies r == self@.rolled(
                stream,
                start.len() as int,
            ) by {
                lemma_agrees_before(stream, middle, source.drawn());
            }
        }
        r
    }
}

impl NotationValue {
    /// How many rolls a roll of the notation reads: one for each die.
    pub open spec fn count(self) -> int {
        total_count(self.additions) + total_count(self.subtractions)
    }

    /// The sides of the dice that a roll of the notation throws, in order: those of the
    /// additions, then those of the subtractions.
    pub open spec fn sides(self) -> Seq<u32> {
        total_sides(self.additions) + total_sides(self.subtractions)
    }

    /// What the notation gives where its dice show what the stream holds from the place
    /// `at` on, the additions first: their sum, less that of the subtractions, with the
    /// constant; zero where that is negative.
    pub open spec fn rolled(self, stream: spec_fn(int) -> u32, at: int) -> int {
        at_least_zero(
            total_rolled(self.additions, stream, at) - total_rolled(
                self.subtractions,
                stream,
                at + total_count(self.additions),
            ) + self.constant,
        )
    }
}

impl Rollable for DiceNotation {
    open spec fn min_value(&self) -> int {
        self@.min_value()
    }

    open spec fn max_value(&self) -> int {
        self@.max_value()
    }

    open spec fn twice_average(&self) -> int {
        self@.twice_average()
    }

    open spec fn has_sides(&self) -> bool {
        self@.has_sides()
    }

    /// The smallest value that can be rolled; never below zero.
    fn min(&self) -> (r: u32) {
        self.min_wide() as u32
    }

    /// The largest value that can be rolled; never below zero.
    fn max(&self) -> (r: u32) {
        self.max_wide() as u32
    }

    /// Twice the average value; never below zero.
    fn average_doubled(&self) -> (r: u64) {
        self.average_doubled_wide() as u64
    }

    open spec fn count(&self) -> int {
        self@.count()
    }

    open spec fn rolled(&self, stream: spec_fn(int) -> u32, at: int) -> int {
        self@.rolled(stream, at)
    }

    open spec fn sides(&self) -> Seq<u32> {
        self@.sides()
    }

    /// Rolls the additions, takes off the rolls of the subtractions and adds the
    /// constant; never below zero.
    fn roll_from<S: Source>(&self, source: &mut S) -> (r: u32) {
        let value = self.roll_wide_from(source);
        assert(self.sides() == self@.sides());
        value as u32
    }
}

impl From<i32> for DiceNotation {
    fn from(constant: i32) -> (r: Self)
        ensures
            r@ == (NotationValue {
                additions: Seq::empty(),
                subtractions: Seq::empty(),
                constant: constant as int,
            }),
    {
        Self { additions: Vec::new(), subtractions: Vec::new(), constant }
    }
}

impl FromSpecImpl<i32> for DiceNotation {
    open spec fn obeys_from_spec() -> bool {
        false
    }

    open spec fn from_spec(constant: i32) -> Self {
        arbitrary()
    }
}

impl From<Dice> for DiceNotation {
    fn from(dice: Dice) -> (r: Self)
        ensures
            r@ == (NotationValue {
                additions: seq![dice],
                subtractions: Seq::empty(),
                constant: 0,
            }),
    {
        let mut additions = Vec::new();
        additions.push(dice);
        Self { additions, subtractions: Vec::new(), constant: 0 }
    }
}

impl FromSpecImpl<Dice> for DiceNotation {
    open spec fn obeys_from_spec() -> bool {
        false
    }

    open spec fn from_spec(dice: Dice) -> Self {
        arbitrary()
    }
}

impl core::ops::AddAssign<DiceNotation> for DiceNotation {
    /// Puts the terms of another notation behind those of `self`, and adds its constant.
    fn add_assign(&mut self, rhs: DiceNotation)
        requires
            i32::MIN <= old(self).constant + rhs.constant <= i32::MAX,
        ensures
            final(self)@ == (NotationValue {
                additions: old(self).additions@ + rhs.additions@,
                subtractions: old(self).subtractions@ + rhs.subtractions@,
                constant: old(self).constant + rhs.constant,
            }),
    {
        let mut rhs = rhs;
        self.additions.append(&mut rhs.additions);
        self.subtractions.append(&mut rhs.subtractions);
        self.constant = self.constant + rhs.constant;
    }
}

impl core::ops::AddAssign<Dice> for DiceNotation {
    /// Adds dice.
    fn add_assign(&mut self, rhs: Dice)
        ensures
            final(self)@ == (NotationValue {
                additions: old(self).additions@.push(rhs),
                ..old(self)@
            }),
    {
        self.additions.push(rhs);
    }
}

impl core::ops::SubAssign<Dice> for DiceNotation {
    /// Subtracts dice.
    fn sub_assign(&mut self, rhs: Dice)
        ensures
            final(self)@ == (NotationValue {
                subtractions: old(self).subtractions@.push(rhs),
                ..old(self)@
            }),
    {
        self.subtractions.push(rhs);
    }
}

impl core::ops::AddAssign<i32> for DiceNotation {
    /// Adds to the constant.
    fn add_assign(&mut self, rhs: i32)
        requires
            i32::MIN <= old(self).constant + rhs <= i32::MAX,
        ensures
            final(self)@ == (NotationValue {
                constant: old(self).constant + rhs,
                ..old(self)@
            }),
    {
        self.constant = self.constant + rhs;
    }
}

impl core::ops::SubAssign<i32> for DiceNotation {
    /// Subtracts from the constant.
    fn sub_assign(&mut self, rhs: i32)
        requires
            i32::MIN <= old(self).constant - rhs <= i32::MAX,
        ensures
            final(self)@ == (NotationValue {
                constant: old(self).constant - rhs,
                ..old(self)@
            }),
    {
        self.constant = self.constant - rhs;
    }
}

} // verus!
