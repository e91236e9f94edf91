//! Unsigned decimal numbers as they stand in a frame.

use vstd::prelude::*;

verus! {

/// An ASCII decimal digit.
pub open spec fn is_digit(c: char) -> bool {
    '0' <= c && c <= '9'
}

/// Every character is a decimal digit.
pub open spec fn all_digits(text: Seq<char>) -> bool {
    forall|at: int| 0 <= at < text.len() ==> is_digit(#[trigger] text[at])
}

/// The number that a run of digits spells, most significant digit first.
pub open spec fn digits_value(text: Seq<char>) -> int
    decreases text.len(),
{
    if text.len() == 0 {
        0
    } else {
        digits_value(text.drop_last()) * 10 + (text.last() as int - 48)
    }
}

/// A number's text without the plus sign that may stand before it.
pub open spec fn unsigned_part(text: Seq<char>) -> Seq<char> {
    if text.len() > 0 && text[0] == '+' {
        text.skip(1)
    } else {
        text
    }
}

/// The 16-bit number that `text` spells: an optional plus sign, then one
/// or more decimal digits and nothing else, with a value of at most 65535.
/// `None` for every other text.
pub open spec fn parse_u16(text: Seq<char>) -> Option<u16> {
    let body = unsigned_part(text);
    if body.len() > 0 && all_digits(body) && digits_value(body) <= u16::MAX {
        Some(digits_value(body) as u16)
    } else {
        None
    }
}

/// The character of a digit below ten.
pub open spec fn digit_char(digit: int) -> char {
    (48 + digit) as u8 as char
}

/// A number in decimal, without sign or leading zeros.
pub open spec fn decimal(n: nat) -> Seq<char>
    decreases n,
{
    if n < 10 {
        seq![digit_char(n as int)]
    } else {
        decimal(n / 10).push(digit_char((n % 10) as int))
    }
}

/// Reading one digit more multiplies by ten and adds the digit.
proof fn lemma_digits_value_next(text: Seq<char>, upto: int)
    requires
        0 <= upto < text.len(),
    ensures
        digits_value(text.take(upto + 1)) == digits_value(text.take(upto)) * 10 + (text[upto] as int
            - 48),
{
    assert(text.take(upto + 1).drop_last() =~= text.take(upto));
}

/// A run of digits spells at least what any of its beginnings spells, and
/// never less than zero.
proof fn lemma_digits_value_grows(text: Seq<char>, upto: int)
    requires
        all_digits(text),
        0 <= upto <= text.len(),
    ensures
        0 <= digits_value(text.take(upto)) <= digits_value(text),
    decreases text.len(),
{
    if text.len() == 0 {
        assert(text.take(upto) =~= text);
    } else if upto == text.len() {
        assert(text.take(upto) =~= text);
        lemma_digits_value_grows(text.drop_last(), upto - 1);
        assert(is_digit(text.last()));
    } else {
        assert(text.drop_last().take(upto) =~= text.take(upto));
        lemma_digits_value_grows(text.drop_last(), upto);
        assert(is_digit(text.last()));
        lemma_digits_value_grows(text.drop_last(), text.len() - 1);
        assert(text.drop_last().take(text.len() - 1) =~= text.drop_last());
    }
}

/// The decimal form of a number is a non-empty run of digits that spells
/// the number.
pub proof fn lemma_decimal_spells(n: nat)
    ensures
        decimal(n).len() > 0,
        all_digits(decimal(n)),
        digits_value(decimal(n)) == n,
    decreases n,
{
    let text = decimal(n);
    if n < 10 {
        assert(text.drop_last() =~= Seq::<char>::empty());
        assert(digits_value(text.drop_last()) == 0);
        assert(text.last() == digit_char(n as int));
    } else {
        lemma_decimal_spells(n / 10);
        assert(text.drop_last() =~= decimal(n / 10));
        assert(text.last() == digit_char((n % 10) as int));
        assert forall|at: int| 0 <= at < text.len() implies is_digit(#[trigger] text[at]) by {
            if at < text.len() - 1 {
                assert(text[at] == decimal(n / 10)[at]);
            }
        }
    }
}

/// A 16-bit number takes between one and five digits.
pub proof fn lemma_decimal_length(n: u16)
    ensures
        1 <= decimal(n as nat).len() <= 5,
{
    reveal_with_fuel(decimal, 6);
}

/// A 16-bit number written in decimal is read back as itself.
pub proof fn lemma_parse_of_decimal(n: u16)
    ensures
        parse_u16(decimal(n as nat)) == Some(n),
{
    lemma_decimal_spells(n as nat);
    assert(is_digit(decimal(n as nat)[0]));
}

/// Reads a 16-bit number from its decimal text.
pub fn parse_decimal(text: &Vec<char>) -> (value: Option<u16>)
    ensures
        value == parse_u16(text@),
{
    let start: usize = if text.len() > 0 && text[0] == '+' {
        1
    } else {
        0
    };
    let ghost body = unsigned_part(text@);
    assert(body =~= text@.skip(start as int));
    if start == text.len() {
        return None;
    }
    let mut total: u32 = 0;
    let mut at: usize = start;
    assert(body.take(0) =~= Seq::<char>::empty());
    while at < text.len()
        invariant
            start <= at <= text.len(),
            body == text@.skip(start as int),
            body == unsigned_part(text@),
            all_digits(body.take(at - start)),
            total == digits_value(body.take(at - start)),
            total <= u16::MAX,
        decreases text.len() - at,
    {
        let c: char = text[at];
        proof {
            lemma_digits_value_next(body, at - start);
            assert(body[at - start] == c);
        }
        if !(c >= '0' && c <= '9') {
            assert(!is_digit(body[at - start]));
            return None;
        }
        let digit: u32 = (c as u32) - 48;
        total = total * 10 + digit;
        if total > 65535 {
            proof {
                if all_digits(body) {
                    lemma_digits_value_grows(body, at - start + 1);
                }
            }
            return None;
        }
        assert(all_digits(body.take(at - start + 1))) by {
            assert forall|k: int| 0 <= k < at - start + 1 implies is_digit(
                #[trigger] body.take(at - start + 1)[k],
            ) by {
                if k < at - start {
                    assert(body.take(at - start)[k] == body[k]);
                }
            }
        }
        at += 1;
    }
    assert(body.take(at - start) =~= body);
    Some(total as u16)
}

/// Appends the decimal form of `n` to `out`.
pub fn push_decimal(out: &mut String, n: u16)
    ensures
        final(out)@ == old(out)@ + decimal(n as nat),
    decreases n,
{
    if n >= 10 {
        push_decimal(out, n / 10);
    }
    let digit: u8 = (n % 10) as u8;
    out.push((48 + digit) as char);
    assert(out@ =~= old(out)@ + decimal(n as nat));
}

} // verus!
