//! Recognising digits and punctuation shapes in text.

use crate::digits::all_decimal;
use vstd::prelude::*;
use vstd::string::StringExecFns;

verus! {

/// Whether `c` is one of the ten decimal digit characters `0` to `9`.
pub open spec fn is_digit_char(c: char) -> bool {
    '0' <= c && c <= '9'
}

/// The value, 0 to 9, that the digit character `c` stands for.
pub open spec fn digit_value(c: char) -> u8
    recommends
        is_digit_char(c),
{
    (c as int - '0' as int) as u8
}

/// The character that writes the digit `d`.
pub open spec fn digit_char(d: u8) -> char
    recommends
        d <= 9,
{
    (d as int + '0' as int) as char
}

/// Whether `s` is non-empty and made of digit characters alone.
pub open spec fn only_digits(s: Seq<char>) -> bool {
    s.len() > 0 && forall|i: int| 0 <= i < s.len() ==> is_digit_char(#[trigger] s[i])
}

/// The values of the digit characters of `s`, in order; every other
/// character is passed over.
pub open spec fn digits_of(s: Seq<char>) -> Seq<u8>
    decreases s.len(),
{
    if s.len() == 0 {
        Seq::empty()
    } else if is_digit_char(s.last()) {
        digits_of(s.drop_last()).push(digit_value(s.last()))
    } else {
        digits_of(s.drop_last())
    }
}

/// The decimal writing of `number`, without leading zeros.
pub open spec fn decimal(number: u8) -> Seq<char> {
    if number < 10 {
        seq![digit_char(number)]
    } else if number < 100 {
        seq![digit_char(number / 10), digit_char(number % 10)]
    } else {
        seq![digit_char(number / 100), digit_char((number / 10) % 10), digit_char(number % 10)]
    }
}

/// The decimal writings of `numbers`, one after the other with nothing
/// between them.
pub open spec fn decimal_string(numbers: Seq<u8>) -> Seq<char>
    decreases numbers.len(),
{
    if numbers.len() == 0 {
        Seq::empty()
    } else {
        decimal_string(numbers.drop_last()) + decimal(numbers.last())
    }
}

/// Whether the character `c` may stand where a shape has `slot`: at `#` any
/// digit character may stand, anywhere else only the slot's own character.
pub open spec fn slot_accepts(slot: char, c: char) -> bool {
    if slot == '#' {
        is_digit_char(c)
    } else {
        c == slot
    }
}

/// Whether `text` is written in `shape` from its first character to its
/// last, position by position.
pub open spec fn fits_shape(text: Seq<char>, shape: Seq<char>) -> bool {
    &&& text.len() == shape.len()
    &&& forall|j: int| 0 <= j < shape.len() ==> slot_accepts(shape[j], #[trigger] text[j])
}

/// The characters of `text`, in order.
pub fn to_chars(text: &str) -> (chars: Vec<char>)
    ensures
        chars@ == text@,
{
    let mut chars: Vec<char> = Vec::new();
    for c in it: text.chars()
        invariant
            chars@ == it.seq().take(it.index() as int),
            it.seq() == text@,
    {
        chars.push(c);
    }
    chars
}

/// The digit that `c` writes, if it writes one.
pub fn char_to_digit(c: char) -> (digit: Option<u8>)
    ensures
        digit == (if is_digit_char(c) {
            Some(digit_value(c))
        } else {
            None
        }),
{
    match c {
        '0' => Some(0),
        '1' => Some(1),
        '2' => Some(2),
        '3' => Some(3),
        '4' => Some(4),
        '5' => Some(5),
        '6' => Some(6),
        '7' => Some(7),
        '8' => Some(8),
        '9' => Some(9),
        _ => None,
    }
}

/// Whether `chars` is non-empty and holds digit characters alone.
pub fn is_only_digits(chars: &[char]) -> (answer: bool)
    ensures
        answer == only_digits(chars@),
{
    if chars.len() == 0 {
        return false;
    }
    let mut i: usize = 0;
    while i < chars.len()
        invariant
            i <= chars.len(),
            forall|k: int| 0 <= k < i ==> is_digit_char(#[trigger] chars@[k]),
        decreases chars.len() - i,
    {
        if char_to_digit(chars[i]).is_none() {
            return false;
        }
        i += 1;
    }
    true
}

/// Drops every character that is not a digit and reads the rest as digit
/// values.
pub fn extract_digits(chars: &[char]) -> (digits: Vec<u8>)
    ensures
        digits@ == digits_of(chars@),
{
    let mut digits: Vec<u8> = Vec::new();
    let mut i: usize = 0;
    while i < chars.len()
        invariant
            i <= chars.len(),
            digits@ == digits_of(chars@.take(i as int)),
        decreases chars.len() - i,
    {
        proof {
            assert(chars@.take(i + 1).drop_last() == chars@.take(i as int));
        }
        match char_to_digit(chars[i]) {
            Some(d) => digits.push(d),
            None => {},
        }
        i += 1;
    }
    proof {
        assert(chars@.take(i as int) == chars@);
    }
    digits
}

/// Whether `chars` is written in `shape` from its first character to its
/// last.
pub fn has_shape(chars: &[char], shape: &[char]) -> (answer: bool)
    ensures
        answer == fits_shape(chars@, shape@),
{
    if chars.len() != shape.len() {
        return false;
    }
    let mut j: usize = 0;
    while j < shape.len()
        invariant
            j <= shape@.len(),
            chars@.len() == shape@.len(),
            forall|k: int| 0 <= k < j ==> slot_accepts(shape@[k], #[trigger] chars@[k]),
        decreases shape.len() - j,
    {
        let c = chars[j];
        let slot = shape[j];
        let accepted = if slot == '#' {
            char_to_digit(c).is_some()
        } else {
            c == slot
        };
        if !accepted {
            return false;
        }
        j += 1;
    }
    true
}

/// The one-character text that writes the digit `digit`.
fn digit_str(digit: u8) -> (text: &'static str)
    requires
        digit <= 9,
    ensures
        text@ == seq![digit_char(digit)],
{
    proof {
        reveal_strlit("0");
        reveal_strlit("1");
        reveal_strlit("2");
        reveal_strlit("3");
        reveal_strlit("4");
        reveal_strlit("5");
        reveal_strlit("6");
        reveal_strlit("7");
        reveal_strlit("8");
        reveal_strlit("9");
    }
    let text = match digit {
        0 => "0",
        1 => "1",
        2 => "2",
        3 => "3",
        4 => "4",
        5 => "5",
        6 => "6",
        7 => "7",
        8 => "8",
        _ => "9",
    };
    assert(text@ =~= seq![digit_char(digit)]);
    text
}

/// Writes `number` in decimal at the end of `out`.
pub fn push_decimal(out: &mut String, number: u8)
    ensures
        final(out)@ == old(out)@ + decimal(number),
{
    if number >= 100 {
        out.append(digit_str(number / 100));
    }
    if number >= 10 {
        out.append(digit_str((number / 10) % 10));
    }
    out.append(digit_str(number % 10));
    assert(out@ =~= old(out)@ + decimal(number));
}

/// Writes each of `numbers` in decimal at the end of `out`, with nothing
/// between them.
pub fn push_decimal_string(out: &mut String, numbers: &[u8])
    ensures
        final(out)@ == old(out)@ + decimal_string(numbers@),
{
    let mut i: usize = 0;
    assert(out@ =~= old(out)@ + decimal_string(numbers@.take(0)));
    while i < numbers.len()
        invariant
            i <= numbers.len(),
            out@ == old(out)@ + decimal_string(numbers@.take(i as int)),
        decreases numbers.len() - i,
    {
        proof {
            assert(numbers@.take(i + 1).drop_last() == numbers@.take(i as int));
        }
        push_decimal(out, numbers[i]);
        i += 1;
        assert(out@ =~= old(out)@ + decimal_string(numbers@.take(i as int)));
    }
    proof {
        assert(numbers@.take(i as int) == numbers@);
    }
}

/// The digits of two texts joined are the digits of the first followed by
/// the digits of the second.
pub proof fn lemma_digits_of_concat(front: Seq<char>, back: Seq<char>)
    ensures
        digits_of(front + back) == digits_of(front) + digits_of(back),
    decreases back.len(),
{
    if back.len() == 0 {
        assert(front + back == front);
        assert(digits_of(front) + digits_of(back) == digits_of(front));
    } else {
        lemma_digits_of_concat(front, back.drop_last());
        assert((front + back).drop_last() == front + back.drop_last());
        assert((front + back).last() == back.last());
        if is_digit_char(back.last()) {
            assert((digits_of(front) + digits_of(back.drop_last())).push(
                digit_value(back.last()),
            ) == digits_of(front) + digits_of(back.drop_last()).push(digit_value(back.last())));
        }
    }
}

/// A text without digit characters holds no digits.
pub proof fn lemma_digits_of_none(s: Seq<char>)
    requires
        forall|i: int| 0 <= i < s.len() ==> !is_digit_char(#[trigger] s[i]),
    ensures
        digits_of(s) == Seq::<u8>::empty(),
    decreases s.len(),
{
    if s.len() > 0 {
        lemma_digits_of_none(s.drop_last());
    }
}

/// Decimal digits written one after the other make a text of digit
/// characters, one for each digit, from which the same digits are read back.
pub proof fn lemma_decimal_string_of_digits(digits: Seq<u8>)
    requires
        all_decimal(digits),
    ensures
        decimal_string(digits).len() == digits.len(),
        forall|i: int|
            0 <= i < digits.len() ==> #[trigger] decimal_string(digits)[i] == digit_char(digits[i]),
        forall|i: int| 0 <= i < digits.len() ==> is_digit_char(#[trigger] decimal_string(digits)[i]),
        digits_of(decimal_string(digits)) == digits,
    decreases digits.len(),
{
    if digits.len() == 0 {
        assert(digits_of(decimal_string(digits)) == digits);
    } else {
        let front = digits.drop_last();
        let last = digits.last();
        lemma_decimal_string_of_digits(front);
        lemma_digits_of_concat(decimal_string(front), decimal(last));
        assert(decimal(last) == seq![digit_char(last)]);
        assert(decimal(last).drop_last() == Seq::<char>::empty());
        assert(is_digit_char(digit_char(last)));
        assert(digit_value(digit_char(last)) == last);
        assert(digits_of(decimal(last)) == seq![last]) by {
            assert(digits_of(decimal(last).drop_last()) == Seq::<u8>::empty());
            assert(Seq::<u8>::empty().push(last) == seq![last]);
        }
        assert(front + seq![last] == digits);
    }
}

} // verus!
