//! A number of dice that share one number of sides.
use super::text::{
    all_digits, char_is_digit, char_is_dice_letter, char_is_whitespace, chars_of, decimal_text,
    decimal_value, is_dice_letter, is_digit, is_whitespace, lemma_decimal_text, number_of,
    parse_number, push_number, string_of,
};
use super::source::{
    agrees, die, extends, follows, lemma_agrees_before, lemma_values_agree, same_sides,
    shown_by, sides_from, stream_of, values_of, Recorded, Script, Source,
};
use super::{Rollable, Roller};
use vstd::prelude::*;

verus! {

/// `quantity` dice with `sides` sides each, such as `d6` or `2d6`.
#[derive(Debug, Clone, Copy, PartialEq, Eq, Structural)]
pub struct Dice {
    pub sides: u32,
    pub quantity: u32,
}

impl Dice {
    pub fn new(sides: u32, quantity: u32) -> (r: Self)
        ensures
            r == (Dice { sides, quantity }),
    {
        Self { sides, quantity }
    }

    /// A single die with the given number of sides.
    pub fn d(sides: u32) -> (r: Self)
        ensures
            r == (Dice { sides, quantity: 1 }),
    {
        Self { sides, quantity: 1 }
    }

    /// A single six-sided die.
    pub fn d6() -> (r: Self)
        ensures
            r == (Dice { sides: 6, quantity: 1 }),
    {
        Self { sides: 6, quantity: 1 }
    }

    /// The largest roll, in an integer wide enough for any dice.
    pub fn max_wide(&self) -> (r: u64)
        ensures
            r == self.max_value(),
    {
        assert(self.quantity * self.sides <= 0xFFFF_FFFF * 0xFFFF_FFFF) by (nonlinear_arith)
            requires
                self.quantity <= 0xFFFF_FFFF,
                self.sides <= 0xFFFF_FFFF,
        ;
        (self.quantity as u64) * (self.sides as u64)
    }

    /// Draws every die from the source and adds the rolls up, in an integer wide enough
    /// for any dice: `quantity` dice of `sides` sides are drawn, and the sum is that of
    /// their rolls.
    pub fn roll_wide_from<S: Source>(&self, source: &mut S) -> (r: u64)
        requires
            self.has_sides(),
            old(source).valid(),
        ensures
            self.min_value() <= r <= self.max_value(),
            follows(*old(source), *final(source)),
            final(source).drawn().len() == old(source).drawn().len() + self.quantity,
            forall|i: int|
                old(source).drawn().len() <= i < final(source).drawn().len() ==> (
                #[trigger] final(source).drawn()[i]).sides == self.sides,
            sides_from(final(source).drawn(), old(source).drawn().len() as int) == same_sides(
                self.quantity as int,
                self.sides,
            ),
            forall|stream: spec_fn(int) -> u32| #[trigger]
                agrees(stream, final(source).drawn()) ==> r == dice_sum(
                    self.sides,
                    self.quantity as int,
                    stream,
                    old(source).drawn().len() as int,
                ),
    {
        let ghost start = source.drawn();
        let ghost given = source.given();
        let mut total: u64 = 0;
        let mut i: u32 = 0;
        while i < self.quantity
            invariant
                i <= self.quantity,
                self.sides >= 1,
                i <= total <= i * self.sides,
                source.valid(),
                source.given() == given,
                extends(start, source.drawn()),
                source.drawn().len() == start.len() + i,
                forall|j: int|
                    start.len() <= j < source.drawn().len() ==> (#[trigger] source.drawn()[j]).sides
                        == self.sides,
                forall|stream: spec_fn(int) -> u32| #[trigger]
                    agrees(stream, source.drawn()) ==> total == dice_sum(
                        self.sides,
                        i as int,
                        stream,
                        start.len() as int,
                    ),
            decreases self.quantity - i,
        {
            let ghost before = source.drawn();
            let rolled = source.draw(self.sides);
            assert((i + 1) * self.sides == i * self.sides + self.sides) by (nonlinear_arith);
            assert((i + 1) * self.sides <= 0xFFFF_FFFF * 0xFFFF_FFFF) by (nonlinear_arith)
                requires
                    i + 1 <= 0xFFFF_FFFF,
                    self.sides <= 0xFFFF_FFFF,
            ;
            proof {
                assert forall|stream: spec_fn(int) -> u32| #[trigger]
                    agrees(stream, source.drawn()) implies total + rolled == dice_sum(
                    self.sides,
                    i + 1,
                    stream,
                    start.len() as int,
                ) by {
                    lemma_agrees_before(stream, before, source.drawn());
                    assert(source.drawn()[before.len() as int].sides == self.sides);
                }
            }
            total = total + rolled as u64;
            i = i + 1;
        }
        assert(sides_from(source.drawn(), start.len() as int) =~= same_sides(
            self.quantity as int,
            self.sides,
        ));
        total
    }

    /// The sum of the dice where they show the given rolls, the first die the first
    /// roll; nothing where there are fewer rolls than dice. A roll that a die cannot show
    /// is read as 1.
    pub fn resolve(&self, rolls: &Vec<u32>) -> (r: Option<u64>)
        requires
            self.has_sides(),
        ensures
            r is Some <==> self.quantity <= rolls@.len(),
            r matches Some(sum) ==> sum == dice_sum(
                self.sides,
                self.quantity as int,
                stream_of(rolls@),
                0,
            ),
    {
        let mut script = Script::new(rolls);
        let sum = self.roll_wide_from(&mut script);
        proof {
            script.lemma_agrees();
        }
        match script.read() {
            Some(_) => Some(sum),
            None => None,
        }
    }

    /// Rolls every die and adds the rolls up, in an integer wide enough for any dice.
    pub fn roll_wide<T: Roller>(&self, roller: &T) -> (r: u64)
        requires
            self.has_sides(),
        ensures
            self.min_value() <= r <= self.max_value(),
            exists|rolls: Seq<u32>|
                shown_by(rolls, same_sides(self.quantity as int, self.sides))
                    && rolls.len() == self.quantity && r == dice_sum(
                    self.sides,
                    self.quantity as int,
                    stream_of(rolls),
                    0,
                ),
    {
        let mut source = Recorded::new(roller);
        let total = self.roll_wide_from(&mut source);
        proof {
            source.lemma_in_range();
            lemma_values_agree(source.drawn());
            let rolls = values_of(source.drawn());
            assert(shown_by(rolls, same_sides(self.quantity as int, self.sides))
                    && rolls.len() == self.quantity && total == dice_sum(
                self.sides,
                self.quantity as int,
                stream_of(rolls),
                0,
            ));
        }
        total
    }
}

/// The sum of what `count` dice of `sides` sides show, read from the place `at` of the
/// stream on.
pub open spec fn dice_sum(sides: u32, count: int, stream: spec_fn(int) -> u32, at: int) -> int
    decreases count,
{
    if count <= 0 {
        0
    } else {
        dice_sum(sides, count - 1, stream, at) + die(stream, at + count - 1, sides)
    }
}

impl Rollable for Dice {
    open spec fn min_value(&self) -> int {
        self.quantity as int
    }

    open spec fn max_value(&self) -> int {
        self.quantity * self.sides
    }

    /// Twice the average of the dice: each die rolls half of one more than its sides
    /// on average.
    open spec fn twice_average(&self) -> int {
        self.quantity * (self.sides + 1)
    }

    open spec fn has_sides(&self) -> bool {
        self.sides >= 1
    }

    fn min(&self) -> (r: u32) {
        self.quantity
    }

    fn max(&self) -> (r: u32) {
        self.quantity * self.sides
    }

    fn average_doubled(&self) -> (r: u64)
        ensures
            r == self.quantity * (self.sides + 1),
    {
        assert(self.quantity * (self.sides + 1) <= 0xFFFF_FFFF * 0x1_0000_0000)
            by (nonlinear_arith)
            requires
                self.quantity <= 0xFFFF_FFFF,
                self.sides + 1 <= 0x1_0000_0000,
        ;
        (self.quantity as u64) * (self.sides as u64 + 1)
    }

    open spec fn count(&self) -> int {
        self.quantity as int
    }

    open spec fn rolled(&self, stream: spec_fn(int) -> u32, at: int) -> int {
        dice_sum(self.sides, self.quantity as int, stream, at)
    }

    open spec fn sides(&self) -> Seq<u32> {
        same_sides(self.quantity as int, self.sides)
    }

    fn roll_from<S: Source>(&self, source: &mut S) -> (r: u32) {
        let total = self.roll_wide_from(source);
        assert(self.sides() == same_sides(self.quantity as int, self.sides));
        total as u32
    }
}

/// The position `k` of the dice letter in text of the form `2d6` or `d6`: digits or
/// nothing before it, one or more digits behind it, and both numbers within 32 bits.
pub open spec fn is_dice_split(s: Seq<char>, k: int) -> bool {
    &&& 0 <= k < s.len() - 1
    &&& is_dice_letter(s[k])
    &&& all_digits(s.take(k))
    &&& decimal_value(s.take(k)) <= u32::MAX
    &&& number_of(s.skip(k + 1)) is Some
}

/// The dice that a text without surrounding blanks stands for: `<quantity>d<sides>`, where
/// the letter may be a capital and a missing quantity means one die.
pub open spec fn dice_of(s: Seq<char>) -> Option<Dice> {
    if exists|k: int| is_dice_split(s, k) {
        let k = choose|k: int| is_dice_split(s, k);
        Some(
            Dice {
                sides: number_of(s.skip(k + 1)).unwrap(),
                quantity: if k == 0 {
                    1
                } else {
                    decimal_value(s.take(k)) as u32
                },
            },
        )
    } else {
        None
    }
}

/// The text without the blanks at its two ends.
pub open spec fn trimmed(s: Seq<char>) -> Seq<char>
    decreases s.len(),
{
    if s.len() > 0 && is_whitespace(s[0]) {
        trimmed(s.drop_first())
    } else if s.len() > 0 && is_whitespace(s.last()) {
        trimmed(s.drop_last())
    } else {
        s
    }
}

/// How dice are written: the quantity where it is more than one, `d`, and the sides.
pub open spec fn dice_text(d: Dice) -> Seq<char> {
    (if d.quantity > 1 {
        decimal_text(d.quantity as nat)
    } else {
        Seq::<char>::empty()
    }) + seq!['d'] + decimal_text(d.sides as nat)
}

/// At most one position splits a text into quantity, letter and sides.
pub proof fn lemma_dice_split_unique(s: Seq<char>, k1: int, k2: int)
    requires
        is_dice_split(s, k1),
        is_dice_split(s, k2),
    ensures
        k1 == k2,
{
    if k1 < k2 {
        assert(s.take(k2)[k1] == s[k1]);
    } else if k2 < k1 {
        assert(s.take(k1)[k2] == s[k2]);
    }
}

/// Blanks around a text leave `trimmed` with the part between them.
pub proof fn lemma_trimmed(s: Seq<char>, from: int, to: int)
    requires
        0 <= from <= to <= s.len(),
        forall|i: int| 0 <= i < from ==> is_whitespace(#[trigger] s[i]),
        forall|i: int| to <= i < s.len() ==> is_whitespace(#[trigger] s[i]),
        from < to ==> !is_whitespace(s[from]) && !is_whitespace(s[to - 1]),
    ensures
        trimmed(s) == s.subrange(from, to),
    decreases s.len(),
{
    if s.len() > 0 && is_whitespace(s[0]) {
        if from == 0 {
            // All of `s` is blank.
            assert(from == to);
            lemma_trimmed(s.drop_first(), 0, 0);
            assert(s.subrange(0, 0) =~= s.drop_first().subrange(0, 0));
        } else {
            lemma_trimmed(s.drop_first(), from - 1, to - 1);
            assert(s.subrange(from, to) =~= s.drop_first().subrange(from - 1, to - 1));
        }
    } else if s.len() > 0 && is_whitespace(s.last()) {
        assert(to < s.len());
        lemma_trimmed(s.drop_last(), from, to);
        assert(s.subrange(from, to) =~= s.drop_last().subrange(from, to));
    } else {
        if s.len() > 0 {
            assert(from == 0);
            assert(to == s.len());
        }
        assert(s.subrange(from, to) =~= s);
    }
}

/// Written dice are read back as the same dice, provided there is at least one die: no
/// dice are written like a single die.
pub proof fn lemma_dice_text(d: Dice)
    requires
        d.quantity >= 1,
    ensures
        dice_of(dice_text(d)) == Some(d),
        forall|i: int|
            0 <= i < dice_text(d).len() ==> is_digit(#[trigger] dice_text(d)[i]) || dice_text(
                d,
            )[i] == 'd',
        dice_text(d).len() >= 2,
        exists|i: int| 0 <= i < dice_text(d).len() && is_dice_letter(#[trigger] dice_text(d)[i]),
{
    let s = dice_text(d);
    let q = if d.quantity > 1 {
        decimal_text(d.quantity as nat)
    } else {
        Seq::<char>::empty()
    };
    let k = q.len() as int;
    lemma_decimal_text(d.quantity as nat);
    lemma_decimal_text(d.sides as nat);
    assert(s.take(k) =~= q);
    assert(s.skip(k + 1) =~= decimal_text(d.sides as nat));
    assert(s[k] == 'd');
    assert(decimal_value(Seq::<char>::empty()) == 0);
    assert(is_dice_split(s, k));
    let c = choose|c: int| is_dice_split(s, c);
    lemma_dice_split_unique(s, c, k);
    assert forall|i: int| 0 <= i < s.len() implies is_digit(#[trigger] s[i]) || s[i] == 'd' by {
        if i < k {
            assert(s[i] == q[i]);
        } else if i > k {
            assert(s[i] == decimal_text(d.sides as nat)[i - k - 1]);
        }
    }
}

/// Round trip: dice that are written and read again are the same dice, provided there is
/// at least one die.
pub proof fn lemma_dice_round_trip(d: Dice)
    requires
        d.quantity >= 1,
    ensures
        dice_of(trimmed(dice_text(d))) == Some(d),
{
    let s = dice_text(d);
    lemma_dice_text(d);
    assert(!is_whitespace(s[0])) by {
        assert(is_digit(s[0]) || s[0] == 'd');
    }
    assert(!is_whitespace(s[s.len() - 1])) by {
        assert(is_digit(s[s.len() - 1]) || s[s.len() - 1] == 'd');
    }
    lemma_trimmed(s, 0, s.len() as int);
    assert(s.subrange(0, s.len() as int) =~= s);
}

/// Reads the characters from `from` up to `to` as dice.
pub fn parse_dice(chars: &Vec<char>, from: usize, to: usize) -> (r: Option<Dice>)
    requires
        from <= to <= chars.len(),
    ensures
        r == dice_of(chars@.subrange(from as int, to as int)),
{
    let ghost s = chars@.subrange(from as int, to as int);
    let mut k: usize = from;
    while k < to && char_is_digit(chars[k])
        invariant
            from <= k <= to <= chars.len(),
            s == chars@.subrange(from as int, to as int),
            all_digits(s.take(k - from)),
        decreases to - k,
    {
        assert(chars[k as int] == s[k - from]);
        k = k + 1;
    }
    proof {
        // Only `k` can split the text: before it are digits, and it is no digit.
        assert forall|j: int| is_dice_split(s, j) implies j == k - from by {
            if j < k - from {
                assert(s.take(k - from)[j] == s[j]);
            } else if j > k - from {
                assert(s.take(j)[k - from] == s[k - from]);
                assert(chars[k as int] == s[k - from]);
            }
        }
        assert(s.take(k - from) =~= chars@.subrange(from as int, k as int));
    }
    if k >= to {
        return None;
    }
    assert(chars[k as int] == s[k - from]);
    if !char_is_dice_letter(chars[k]) || k + 1 >= to {
        return None;
    }
    assert(s.skip(k - from + 1) =~= chars@.subrange(k + 1, to as int));
    let sides = match parse_number(chars, k + 1, to) {
        Some(sides) => sides,
        None => {
            return None;
        },
    };
    let quantity = if k == from {
        assert(decimal_value(s.take(0)) == 0);
        1
    } else {
        match parse_number(chars, from, k) {
            Some(quantity) => quantity,
            None => {
                return None;
            },
        }
    };
    assert(is_dice_split(s, k - from));
    Some(Dice { sides, quantity })
}

/// Appends the text of dice.
pub fn push_dice(out: &mut Vec<char>, dice: &Dice)
    ensures
        final(out)@ == old(out)@ + dice_text(*dice),
{
    if dice.quantity > 1 {
        push_number(out, dice.quantity);
    }
    out.push('d');
    push_number(out, dice.sides);
    assert(final(out)@ =~= old(out)@ + dice_text(*dice));
}

impl Dice {
    /// Reads dice from text such as `2d6`, `d6` or ` D3 `. Blanks around the text are
    /// ignored. Anything else, and a number beyond 32 bits, is an error.
    pub fn try_from(data: &str) -> (r: Result<Dice, &'static str>)
        ensures
            r is Ok <==> dice_of(trimmed(data@)) is Some,
            r is Ok ==> Some(r.unwrap()) == dice_of(trimmed(data@)),
            r is Err ==> r.unwrap_err()@ == "Invalid dice string provided"@,
    {
        let chars = chars_of(data);
        let n = chars.len();
        let mut from: usize = 0;
        while from < n && char_is_whitespace(chars[from])
            invariant
                from <= n == chars.len(),
                forall|i: int| 0 <= i < from ==> is_whitespace(#[trigger] chars@[i]),
            decreases n - from,
        {
            from = from + 1;
        }
        let mut to: usize = n;
        while to > from && char_is_whitespace(chars[to - 1])
            invariant
                from <= to <= n == chars.len(),
                forall|i: int| to <= i < n ==> is_whitespace(#[trigger] chars@[i]),
            decreases to,
        {
            to = to - 1;
        }
        proof {
            lemma_trimmed(chars@, from as int, to as int);
        }
        match parse_dice(&chars, from, to) {
            Some(dice) => Ok(dice),
            None => Err("Invalid dice string provided"),
        }
    }

    /// The text of the dice: `2d6`, or `d6` for a single die.
    pub fn to_string(&self) -> (r: String)
        ensures
            r@ == dice_text(*self),
    {
        let mut out: Vec<char> = Vec::new();
        push_dice(&mut out, self);
        string_of(&out)
    }
}

} // verus!
