//! The textual form of a dice notation: terms joined by `+` and `-`.
use super::dice::{dice_of, dice_text, lemma_dice_text, parse_dice, push_dice, Dice};
use super::dice_notation::{DiceNotation, NotationValue};
use super::text::{
    all_digits, char_is_dice_letter, char_is_operator, char_is_whitespace, chars_of,
    decimal_text, decimal_value, is_dice_letter, is_digit, is_operator, is_whitespace,
    lemma_decimal_text, parse_number, push_number, string_of,
};
use vstd::prelude::*;

verus! {

/// The text without any of its blanks.
pub open spec fn without_whitespace(s: Seq<char>) -> Seq<char>
    decreases s.len(),
{
    if s.len() == 0 {
        s
    } else if is_whitespace(s.last()) {
        without_whitespace(s.drop_last())
    } else {
        without_whitespace(s.drop_last()).push(s.last())
    }
}

/// Whether a text holds the letter of dice.
pub open spec fn has_dice_letter(s: Seq<char>) -> bool {
    exists|i: int| 0 <= i < s.len() && is_dice_letter(#[trigger] s[i])
}

/// Where the first term of a text ends: at its first sign, or at the end of the text.
pub open spec fn term_end(s: Seq<char>) -> int
    decreases s.len(),
{
    if s.len() == 0 || is_operator(s[0]) {
        0
    } else {
        1 + term_end(s.drop_first())
    }
}

/// Whether a number is one that 32 bits with a sign hold.
pub open spec fn fits_i32(x: int) -> bool {
    i32::MIN <= x <= i32::MAX
}

impl NotationValue {
    /// The value without dice and with the constant zero.
    pub open spec fn empty() -> NotationValue {
        NotationValue { additions: Seq::empty(), subtractions: Seq::empty(), constant: 0 }
    }

    /// The value with one more dice, added or subtracted.
    pub open spec fn with_dice(self, dice: Dice, adding: bool) -> NotationValue {
        if adding {
            NotationValue { additions: self.additions.push(dice), ..self }
        } else {
            NotationValue { subtractions: self.subtractions.push(dice), ..self }
        }
    }

    /// The value with a number added to its constant, or subtracted from it.
    pub open spec fn with_number(self, number: int, adding: bool) -> NotationValue {
        if adding {
            NotationValue { constant: self.constant + number, ..self }
        } else {
            NotationValue { constant: self.constant - number, ..self }
        }
    }

    /// The value with one more term, or nothing where the term is malformed. A term with
    /// a `d` in it must be dice. Any other term goes to the constant: an empty one as zero,
    /// one of decimal digits as their number, as long as the constant stays within 32 bits.
    pub open spec fn with_term(self, term: Seq<char>, adding: bool) -> Option<NotationValue> {
        if has_dice_letter(term) {
            match dice_of(term) {
                Some(dice) => Some(self.with_dice(dice, adding)),
                None => None,
            }
        } else if term.len() == 0 {
            Some(self)
        } else if all_digits(term) && fits_i32(
            self.with_number(decimal_value(term) as int, adding).constant,
        ) {
            Some(self.with_number(decimal_value(term) as int, adding))
        } else {
            None
        }
    }
}

/// Reads a text without blanks term by term, from the left. `adding` says whether the
/// first term stands behind a `+` (or at the start) or behind a `-`.
pub open spec fn terms_of(s: Seq<char>, adding: bool, so_far: NotationValue) -> Option<
    NotationValue,
>
    decreases s.len(),
{
    if s.len() == 0 {
        Some(so_far)
    } else {
        let end = term_end(s);
        match so_far.with_term(s.take(end), adding) {
            None => None,
            Some(next) => if 0 <= end < s.len() {
                terms_of(s.skip(end + 1), s[end] != '-', next)
            } else {
                Some(next)
            },
        }
    }
}

/// The notation that a text stands for, or nothing where the text is malformed. Blanks
/// are ignored anywhere.
pub open spec fn notation_of(s: Seq<char>) -> Option<NotationValue> {
    terms_of(without_whitespace(s), true, NotationValue::empty())
}

/// The given dice, each behind the sign.
pub open spec fn signed_dice(dice: Seq<Dice>, sign: char) -> Seq<char>
    decreases dice.len(),
{
    if dice.len() == 0 {
        Seq::empty()
    } else {
        signed_dice(dice.drop_last(), sign) + seq![sign] + dice_text(dice.last())
    }
}

/// The constant behind its sign, or nothing for zero.
pub open spec fn signed_constant(constant: int) -> Seq<char> {
    if constant > 0 {
        seq!['+'] + decimal_text(constant as nat)
    } else if constant < 0 {
        seq!['-'] + decimal_text((-constant) as nat)
    } else {
        Seq::empty()
    }
}

/// Every term behind its sign: the additions, the subtractions, then the constant.
pub open spec fn signed_text(v: NotationValue) -> Seq<char> {
    signed_dice(v.additions, '+') + signed_dice(v.subtractions, '-') + signed_constant(
        v.constant,
    )
}

/// How a notation is written: every term behind its sign, but for a `+` at the start.
pub open spec fn notation_text(v: NotationValue) -> Seq<char> {
    let text = signed_text(v);
    if text.len() > 0 && text[0] == '+' {
        text.drop_first()
    } else {
        text
    }
}

/// The first term ends at `k` where no sign stands before `k` and one stands at `k`, or
/// the text ends there.
pub proof fn lemma_term_end(s: Seq<char>, k: int)
    requires
        0 <= k <= s.len(),
        forall|j: int| 0 <= j < k ==> !is_operator(#[trigger] s[j]),
        k < s.len() ==> is_operator(s[k]),
    ensures
        term_end(s) == k,
    decreases s.len(),
{
    if k > 0 {
        assert(!is_operator(s[0]));
        let rest = s.drop_first();
        assert forall|j: int| 0 <= j < k - 1 implies !is_operator(#[trigger] rest[j]) by {
            assert(rest[j] == s[j + 1]);
        }
        lemma_term_end(rest, k - 1);
    }
}

/// Copies the characters that are no blanks.
fn strip(chars: &Vec<char>) -> (r: Vec<char>)
    ensures
        r@ == without_whitespace(chars@),
{
    let mut out: Vec<char> = Vec::new();
    let mut i: usize = 0;
    while i < chars.len()
        invariant
            i <= chars.len(),
            out@ == without_whitespace(chars@.take(i as int)),
        decreases chars.len() - i,
    {
        assert(chars@.take(i + 1).drop_last() =~= chars@.take(i as int));
        if !char_is_whitespace(chars[i]) {
            out.push(chars[i]);
        }
        i = i + 1;
    }
    assert(chars@.take(i as int) =~= chars@);
    out
}

impl DiceNotation {
    /// Reads a notation from text such as `2d6 + d3 - 2`. Blanks are ignored. A term that
    /// is neither dice nor a number, and a number beyond 32 bits, is an error.
    pub fn try_from(data: &str) -> (r: Result<DiceNotation, &'static str>)
        ensures
            r is Ok <==> notation_of(data@) is Some,
            r is Ok ==> Some(r.unwrap()@) == notation_of(data@),
            r is Err ==> r.unwrap_err()@ == "Invalid dice notation string provided"@,
    {
        let raw = chars_of(data);
        let chars = strip(&raw);
        let n = chars.len();
        let mut additions: Vec<Dice> = Vec::new();
        let mut subtractions: Vec<Dice> = Vec::new();
        let mut constant: i32 = 0;
        let mut adding = true;
        let mut pos: usize = 0;
        proof {
            assert(chars@.skip(0) =~= chars@);
            assert(additions@ =~= Seq::<Dice>::empty());
            assert(subtractions@ =~= Seq::<Dice>::empty());
        }
        while pos < n
            invariant
                pos <= n == chars.len(),
                notation_of(data@) == terms_of(
                    chars@.skip(pos as int),
                    adding,
                    NotationValue {
                        additions: additions@,
                        subtractions: subtractions@,
                        constant: constant as int,
                    },
                ),
            decreases n - pos,
        {
            let ghost rest = chars@.skip(pos as int);
            let ghost so_far = NotationValue {
                additions: additions@,
                subtractions: subtractions@,
                constant: constant as int,
            };
            let mut end: usize = pos;
            let mut dice_letter = false;
            while end < n && !char_is_operator(chars[end])
                invariant
                    pos <= end <= n == chars.len(),
                    forall|j: int| pos <= j < end ==> !is_operator(#[trigger] chars@[j]),
                    dice_letter == has_dice_letter(chars@.subrange(pos as int, end as int)),
                decreases n - end,
            {
                let ghost before = chars@.subrange(pos as int, end as int);
                let ghost after = chars@.subrange(pos as int, end + 1);
                proof {
                    if has_dice_letter(before) {
                        let i = choose|i: int|
                            0 <= i < before.len() && is_dice_letter(#[trigger] before[i]);
                        assert(after[i] == before[i]);
                    }
                    if has_dice_letter(after) && !is_dice_letter(chars@[end as int]) {
                        let i = choose|i: int|
                            0 <= i < after.len() && is_dice_letter(#[trigger] after[i]);
                        assert(before[i] == after[i]);
                    }
                    assert(after[end - pos] == chars@[end as int]);
                }
                if char_is_dice_letter(chars[end]) {
                    dice_letter = true;
                }
                end = end + 1;
            }
            let ghost term = chars@.subrange(pos as int, end as int);
            proof {
                assert forall|j: int| 0 <= j < end - pos implies !is_operator(
                    #[trigger] rest[j],
                ) by {
                    assert(rest[j] == chars@[pos + j]);
                }
                lemma_term_end(rest, end - pos);
                assert(rest.take(end - pos) =~= term);
                if end < n {
                    assert(rest.skip(end - pos + 1) =~= chars@.skip(end + 1));
                    assert(rest[end - pos] == chars@[end as int]);
                }
            }
            if dice_letter {
                match parse_dice(&chars, pos, end) {
                    Some(dice) => {
                        if adding {
                            additions.push(dice);
                        } else {
                            subtractions.push(dice);
                        }
                    },
                    None => {
                        return Err("Invalid dice notation string provided");
                    },
                }
            } else if end > pos {
                let number = match parse_number(&chars, pos, end) {
                    Some(number) => number,
                    None => {
                        return Err("Invalid dice notation string provided");
                    },
                };
                let sum: i64 = if adding {
                    constant as i64 + number as i64
                } else {
                    constant as i64 - number as i64
                };
                if sum < -0x8000_0000 || sum > 0x7FFF_FFFF {
                    return Err("Invalid dice notation string provided");
                }
                constant = sum as i32;
            }
            if end < n {
                adding = chars[end] != '-';
                pos = end + 1;
            } else {
                pos = n;
            }
            proof {
                let next = NotationValue {
                    additions: additions@,
                    subtractions: subtractions@,
                    constant: constant as int,
                };
                assert(chars@.skip(n as int) =~= Seq::<char>::empty());
            }
        }
        assert(chars@.skip(pos as int) =~= Seq::<char>::empty());
        Ok(DiceNotation { additions, subtractions, constant })
    }

    /// The text of the notation, such as `2d6-d3+2`.
    pub fn to_string(&self) -> (r: String)
        ensures
            r@ == notation_text(self@),
    {
        let mut out: Vec<char> = Vec::new();
        let mut i: usize = 0;
        while i < self.additions.len()
            invariant
                i <= self.additions.len(),
                out@ == signed_dice(self.additions@.take(i as int), '+'),
            decreases self.additions.len() - i,
        {
            assert(self.additions@.take(i + 1).drop_last() =~= self.additions@.take(i as int));
            out.push('+');
            push_dice(&mut out, &self.additions[i]);
            i = i + 1;
        }
        assert(self.additions@.take(i as int) =~= self.additions@);
        let mut j: usize = 0;
        while j < self.subtractions.len()
            invariant
                j <= self.subtractions.len(),
                out@ == signed_dice(self.additions@, '+') + signed_dice(
                    self.subtractions@.take(j as int),
                    '-',
                ),
            decreases self.subtractions.len() - j,
        {
            assert(self.subtractions@.take(j + 1).drop_last() =~= self.subtractions@.take(
                j as int,
            ));
            out.push('-');
            push_dice(&mut out, &self.subtractions[j]);
            j = j + 1;
        }
        assert(self.subtractions@.take(j as int) =~= self.subtractions@);
        if self.constant > 0 {
            out.push('+');
            push_number(&mut out, self.constant as u32);
        } else if self.constant < 0 {
            out.push('-');
            push_number(&mut out, (-(self.constant as i64)) as u32);
        }
        assert(out@ =~= signed_text(self@));
        if out.len() > 0 && out[0] == '+' {
            out.remove(0);
        }
        assert(out@ =~= notation_text(self@));
        string_of(&out)
    }
}

impl NotationValue {
    /// Every term in `self` is at least one die. No dice are written like a single die,
    /// so only such a value is written in a way that tells what it is.
    pub open spec fn has_quantities(self) -> bool {
        &&& forall|i: int|
            0 <= i < self.additions.len() ==> (#[trigger] self.additions[i]).quantity >= 1
        &&& forall|i: int|
            0 <= i < self.subtractions.len() ==> (#[trigger] self.subtractions[i]).quantity >= 1
    }

    /// The value with the terms of `other` behind its own.
    pub open spec fn followed_by(self, other: NotationValue) -> NotationValue {
        NotationValue {
            additions: self.additions + other.additions,
            subtractions: self.subtractions + other.subtractions,
            constant: self.constant + other.constant,
        }
    }
}

/// A text without blanks is left as it is.
pub proof fn lemma_without_whitespace(s: Seq<char>)
    requires
        forall|i: int| 0 <= i < s.len() ==> !is_whitespace(#[trigger] s[i]),
    ensures
        without_whitespace(s) == s,
    decreases s.len(),
{
    if s.len() > 0 {
        let init = s.drop_last();
        assert forall|i: int| 0 <= i < init.len() implies !is_whitespace(#[trigger] init[i]) by {
            assert(init[i] == s[i]);
        }
        lemma_without_whitespace(init);
        assert(init.push(s.last()) =~= s);
    }
}

/// The characters that a notation is written with.
pub open spec fn is_notation_char(c: char) -> bool {
    is_digit(c) || c == 'd' || is_operator(c)
}

/// Signed dice are written with digits, `d` and the sign, and start with the sign.
pub proof fn lemma_signed_dice_chars(dice: Seq<Dice>, sign: char)
    requires
        is_operator(sign),
    ensures
        forall|i: int|
            0 <= i < signed_dice(dice, sign).len() ==> is_notation_char(
                #[trigger] signed_dice(dice, sign)[i],
            ),
        dice.len() > 0 ==> signed_dice(dice, sign).len() > 0 && signed_dice(dice, sign)[0]
            == sign,
    decreases dice.len(),
{
    if dice.len() > 0 {
        let init = signed_dice(dice.drop_last(), sign);
        let last = dice_text(dice.last());
        lemma_signed_dice_chars(dice.drop_last(), sign);
        lemma_decimal_text(dice.last().quantity as nat);
        lemma_decimal_text(dice.last().sides as nat);
        let all = signed_dice(dice, sign);
        assert forall|i: int| 0 <= i < all.len() implies is_notation_char(#[trigger] all[i]) by {
            if i < init.len() {
                assert(all[i] == init[i]);
            } else if i > init.len() {
                assert(all[i] == last[i - init.len() - 1]);
                let q = if dice.last().quantity > 1 {
                    decimal_text(dice.last().quantity as nat)
                } else {
                    Seq::<char>::empty()
                };
                let k = i - init.len() - 1;
                if k < q.len() {
                    assert(last[k] == q[k]);
                } else if k > q.len() {
                    assert(last[k] == decimal_text(dice.last().sides as nat)[k - q.len() - 1]);
                }
            }
        }
        if dice.len() == 1 {
            assert(dice.drop_last().len() == 0);
            assert(all[0] == sign);
        } else {
            assert(all[0] == init[0]);
        }
    }
}

/// The first of the signed dice stands at the front of their text.
pub proof fn lemma_signed_dice_front(dice: Seq<Dice>, sign: char)
    requires
        dice.len() > 0,
    ensures
        signed_dice(dice, sign) == seq![sign] + dice_text(dice[0]) + signed_dice(
            dice.drop_first(),
            sign,
        ),
    decreases dice.len(),
{
    if dice.len() == 1 {
        assert(dice.drop_last() =~= Seq::<Dice>::empty());
        assert(dice.drop_first() =~= Seq::<Dice>::empty());
        assert(signed_dice(dice, sign) =~= seq![sign] + dice_text(dice[0]) + signed_dice(
            dice.drop_first(),
            sign,
        ));
    } else {
        lemma_signed_dice_front(dice.drop_last(), sign);
        assert(dice.drop_last().drop_first() =~= dice.drop_first().drop_last());
        assert(dice.drop_last()[0] == dice[0]);
        assert(dice.drop_first().last() == dice.last());
        assert(signed_dice(dice, sign) =~= seq![sign] + dice_text(dice[0]) + signed_dice(
            dice.drop_first(),
            sign,
        ));
    }
}

/// The signed text is written with digits, `d` and signs, and starts with a sign unless
/// it is empty.
pub proof fn lemma_signed_text_chars(v: NotationValue)
    ensures
        forall|i: int|
            0 <= i < signed_text(v).len() ==> is_notation_char(#[trigger] signed_text(v)[i]),
        signed_text(v).len() > 0 ==> is_operator(signed_text(v)[0]),
{
    let a = signed_dice(v.additions, '+');
    let b = signed_dice(v.subtractions, '-');
    let c = signed_constant(v.constant);
    lemma_signed_dice_chars(v.additions, '+');
    lemma_signed_dice_chars(v.subtractions, '-');
    if v.constant > 0 {
        lemma_decimal_text(v.constant as nat);
    } else if v.constant < 0 {
        lemma_decimal_text((-v.constant) as nat);
    }
    let all = signed_text(v);
    assert forall|i: int| 0 <= i < all.len() implies is_notation_char(#[trigger] all[i]) by {
        if i < a.len() {
            assert(all[i] == a[i]);
        } else if i < a.len() + b.len() {
            assert(all[i] == b[i - a.len()]);
        } else {
            let k = i - a.len() - b.len();
            assert(all[i] == c[k]);
            if k > 0 {
                if v.constant > 0 {
                    assert(c[k] == decimal_text(v.constant as nat)[k - 1]);
                } else {
                    assert(c[k] == decimal_text((-v.constant) as nat)[k - 1]);
                }
            }
        }
    }
    if all.len() > 0 {
        if a.len() > 0 {
            assert(all[0] == a[0]);
        } else if b.len() > 0 {
            assert(all[0] == b[0]);
        } else {
            assert(all[0] == c[0]);
        }
    }
}

/// A text that starts with a sign is read from behind the sign: the empty term in front
/// of the sign changes nothing.
pub proof fn lemma_terms_of_sign(s: Seq<char>, adding: bool, so_far: NotationValue)
    requires
        s.len() > 0,
        is_operator(s[0]),
    ensures
        terms_of(s, adding, so_far) == terms_of(s.skip(1), s[0] != '-', so_far),
{
    assert(term_end(s) == 0);
    assert(s.take(0) =~= Seq::<char>::empty());
    assert(!has_dice_letter(s.take(0)));
}

/// Reading one term, and what follows it, where the term holds no sign and what follows
/// is empty or starts with one.
pub proof fn lemma_terms_of_term(
    term: Seq<char>,
    rest: Seq<char>,
    adding: bool,
    so_far: NotationValue,
)
    requires
        term.len() > 0,
        forall|i: int| 0 <= i < term.len() ==> !is_operator(#[trigger] term[i]),
        rest.len() > 0 ==> is_operator(rest[0]),
        so_far.with_term(term, adding) is Some,
    ensures
        terms_of(term + rest, adding, so_far) == terms_of(
            rest,
            adding,
            so_far.with_term(term, adding).unwrap(),
        ),
{
    let s = term + rest;
    let next = so_far.with_term(term, adding).unwrap();
    assert forall|j: int| 0 <= j < term.len() implies !is_operator(#[trigger] s[j]) by {
        assert(s[j] == term[j]);
    }
    if rest.len() > 0 {
        assert(s[term.len() as int] == rest[0]);
    }
    lemma_term_end(s, term.len() as int);
    assert(s.take(term.len() as int) =~= term);
    if rest.len() > 0 {
        assert(s.skip(term.len() as int + 1) =~= rest.skip(1));
        lemma_terms_of_sign(rest, adding, next);
    } else {
        assert(terms_of(rest, adding, next) == Some(next));
    }
}

/// Reading signed dice, and what follows them: the dice join what was read before.
pub proof fn lemma_read_signed_dice(
    dice: Dice,
    adding: bool,
    rest: Seq<char>,
    before: bool,
    so_far: NotationValue,
)
    requires
        dice.quantity >= 1,
        rest.len() > 0 ==> is_operator(rest[0]),
    ensures
        terms_of(
            seq![if adding { '+' } else { '-' }] + dice_text(dice) + rest,
            before,
            so_far,
        ) == terms_of(rest, adding, so_far.with_dice(dice, adding)),
{
    let sign = if adding { '+' } else { '-' };
    let term = dice_text(dice);
    let text = seq![sign] + term + rest;
    lemma_dice_text(dice);
    assert(text[0] == sign);
    lemma_terms_of_sign(text, before, so_far);
    assert(text.skip(1) =~= term + rest);
    assert(has_dice_letter(term));
    assert forall|i: int| 0 <= i < term.len() implies !is_operator(#[trigger] term[i]) by {}
    lemma_terms_of_term(term, rest, adding, so_far);
}

/// Reading a signed constant at the end of a text: it is added to the constant.
pub proof fn lemma_read_signed_constant(constant: int, before: bool, so_far: NotationValue)
    requires
        fits_i32(so_far.constant + constant),
    ensures
        terms_of(signed_constant(constant), before, so_far) == Some(
            so_far.with_number(constant, true),
        ),
{
    let text = signed_constant(constant);
    if constant != 0 {
        let magnitude: nat = if constant > 0 {
            constant as nat
        } else {
            (-constant) as nat
        };
        let digits = decimal_text(magnitude);
        lemma_decimal_text(magnitude);
        assert(text[0] == if constant > 0 { '+' } else { '-' });
        lemma_terms_of_sign(text, before, so_far);
        assert(text.skip(1) =~= digits + Seq::<char>::empty());
        assert(!has_dice_letter(digits)) by {
            if has_dice_letter(digits) {
                let i = choose|i: int|
                    0 <= i < digits.len() && is_dice_letter(#[trigger] digits[i]);
                assert(is_digit(digits[i]));
            }
        }
        assert forall|i: int| 0 <= i < digits.len() implies !is_operator(
            #[trigger] digits[i],
        ) by {
            assert(is_digit(digits[i]));
        }
        lemma_terms_of_term(digits, Seq::<char>::empty(), constant > 0, so_far);
    }
}

/// The signed text of a value is read as that value, behind whatever was read before.
pub proof fn lemma_signed_text_read(v: NotationValue, before: bool, so_far: NotationValue)
    requires
        v.has_quantities(),
        fits_i32(so_far.constant + v.constant),
    ensures
        terms_of(signed_text(v), before, so_far) == Some(so_far.followed_by(v)),
    decreases v.additions.len() + v.subtractions.len(),
{
    let text = signed_text(v);
    if v.additions.len() > 0 {
        let d = v.additions[0];
        let rest_v = NotationValue { additions: v.additions.drop_first(), ..v };
        let rest = signed_text(rest_v);
        lemma_signed_dice_front(v.additions, '+');
        lemma_signed_text_chars(rest_v);
        assert(text =~= seq!['+'] + dice_text(d) + rest);
        lemma_read_signed_dice(d, true, rest, before, so_far);
        let next = so_far.with_dice(d, true);
        assert forall|i: int| 0 <= i < rest_v.additions.len() implies (
        #[trigger] rest_v.additions[i]).quantity >= 1 by {
            assert(rest_v.additions[i] == v.additions[i + 1]);
        }
        lemma_signed_text_read(rest_v, true, next);
        assert(next.followed_by(rest_v).additions =~= so_far.followed_by(v).additions);
    } else if v.subtractions.len() > 0 {
        let d = v.subtractions[0];
        let rest_v = NotationValue { subtractions: v.subtractions.drop_first(), ..v };
        let rest = signed_text(rest_v);
        lemma_signed_dice_front(v.subtractions, '-');
        lemma_signed_text_chars(rest_v);
        assert(text =~= seq!['-'] + dice_text(d) + rest);
        lemma_read_signed_dice(d, false, rest, before, so_far);
        let next = so_far.with_dice(d, false);
        assert forall|i: int| 0 <= i < rest_v.subtractions.len() implies (
        #[trigger] rest_v.subtractions[i]).quantity >= 1 by {
            assert(rest_v.subtractions[i] == v.subtractions[i + 1]);
        }
        lemma_signed_text_read(rest_v, false, next);
        assert(next.followed_by(rest_v).subtractions =~= so_far.followed_by(v).subtractions);
    } else {
        assert(so_far.followed_by(v).additions =~= so_far.additions);
        assert(so_far.followed_by(v).subtractions =~= so_far.subtractions);
        assert(text =~= signed_constant(v.constant));
        lemma_read_signed_constant(v.constant, before, so_far);
    }
}

/// Round trip: a notation that is written and read again is the same notation, as long
/// as each of its terms is at least one die.
pub proof fn lemma_text_round_trip(notation: DiceNotation)
    requires
        notation@.has_quantities(),
    ensures
        notation_of(notation_text(notation@)) == Some(notation@),
{
    let v = notation@;
    let text = signed_text(v);
    let written = notation_text(v);
    lemma_signed_text_chars(v);
    assert forall|i: int| 0 <= i < written.len() implies !is_whitespace(
        #[trigger] written[i],
    ) by {
        if text.len() > 0 && text[0] == '+' {
            assert(written[i] == text[i + 1]);
        }
        assert(is_notation_char(written[i]));
    }
    lemma_without_whitespace(written);
    lemma_signed_text_read(v, true, NotationValue::empty());
    assert(NotationValue::empty().followed_by(v).additions =~= v.additions);
    assert(NotationValue::empty().followed_by(v).subtractions =~= v.subtractions);
    if text.len() > 0 && text[0] == '+' {
        lemma_terms_of_sign(text, true, NotationValue::empty());
        assert(text.skip(1) =~= written);
    }
}

} // verus!
