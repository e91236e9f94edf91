//! Moving between strings and the characters they hold.

use vstd::prelude::*;

verus! {

/// `String::push` appends one character to the end of the string and
/// leaves what was there in place.
pub assume_specification[ String::push ](s: &mut String, c: char)
    ensures
        final(s)@ == old(s)@.push(c),
;

/// The characters of `text`, in order.
pub fn chars_of(text: &str) -> (out: Vec<char>)
    ensures
        out@ == text@,
{
    let mut out: Vec<char> = Vec::new();
    for c in it: text.chars()
        invariant
            it.seq() == text@,
            out@ == text@.take(it.index() as int),
    {
        out.push(c);
    }
    out
}

/// The string that holds exactly `chars`.
pub fn string_of(chars: &Vec<char>) -> (out: String)
    ensures
        out@ == chars@,
{
    let mut out = String::new();
    let mut i: usize = 0;
    while i < chars.len()
        invariant
            i <= chars.len(),
            out@ == chars@.take(i as int),
        decreases chars.len() - i,
    {
        out.push(chars[i]);
        i += 1;
    }
    out
}

/// A character that counts as white space: the code points that Unicode
/// marks as `White_Space`.
pub open spec fn is_space(c: char) -> bool {
    let code = c as u32;
    (0x09 <= code && code <= 0x0d) || code == 0x20 || code == 0x85 || code == 0xa0 || code
        == 0x1680 || (0x2000 <= code && code <= 0x200a) || code == 0x2028 || code == 0x2029 || code
        == 0x202f || code == 0x205f || code == 0x3000
}

/// The position of the first character at or after `from` that is no white
/// space, or the length of `text` if there is none.
pub open spec fn first_mark(text: Seq<char>, from: int) -> int
    decreases text.len() - from,
{
    if from < 0 || from >= text.len() {
        text.len() as int
    } else if !is_space(text[from]) {
        from
    } else {
        first_mark(text, from + 1)
    }
}

/// The position just behind the last character before `upto` that is no
/// white space, or zero if there is none.
pub open spec fn last_mark(text: Seq<char>, upto: int) -> int
    decreases upto,
{
    if upto <= 0 || upto > text.len() {
        0
    } else if !is_space(text[upto - 1]) {
        upto
    } else {
        last_mark(text, upto - 1)
    }
}

/// `text` without the white space at its beginning and at its end.
pub open spec fn trimmed(text: Seq<char>) -> Seq<char> {
    let start = first_mark(text, 0);
    if start >= text.len() {
        Seq::empty()
    } else {
        text.subrange(start, last_mark(text, text.len() as int))
    }
}

/// Where the marks of a text stand: before the first and behind the last
/// there is white space only, and they enclose at least one character if
/// the text holds any that is no white space.
pub proof fn lemma_marks(text: Seq<char>, from: int, upto: int)
    requires
        0 <= from <= text.len(),
        0 <= upto <= text.len(),
    ensures
        from <= first_mark(text, from) <= text.len(),
        forall|at: int| from <= at < first_mark(text, from) ==> is_space(#[trigger] text[at]),
        first_mark(text, from) < text.len() ==> !is_space(text[first_mark(text, from)]),
        0 <= last_mark(text, upto) <= upto,
        forall|at: int| last_mark(text, upto) <= at < upto ==> is_space(#[trigger] text[at]),
        last_mark(text, upto) > 0 ==> !is_space(text[last_mark(text, upto) - 1]),
    decreases text.len() - from + upto,
{
    if from < text.len() && is_space(text[from]) {
        lemma_marks(text, from + 1, 0);
    }
    if upto > 0 && is_space(text[upto - 1]) {
        lemma_marks(text, text.len() as int, upto - 1);
    }
}

/// A trimmed text neither begins nor ends with white space, and the text
/// it came from is that text with white space before and behind it.
pub proof fn lemma_trimmed(text: Seq<char>)
    ensures
        trimmed(text).len() > 0 ==> !is_space(trimmed(text).first()) && !is_space(
            trimmed(text).last(),
        ),
        exists|before: Seq<char>, behind: Seq<char>|
            #![trigger before + trimmed(text) + behind]
            text == before + trimmed(text) + behind && (forall|at: int|
                0 <= at < before.len() ==> is_space(#[trigger] before[at])) && (forall|at: int|
                0 <= at < behind.len() ==> is_space(#[trigger] behind[at])),
{
    let n = text.len() as int;
    let start = first_mark(text, 0);
    let end = last_mark(text, n);
    lemma_marks(text, 0, n);
    if start >= n {
        let before = text;
        let behind = Seq::<char>::empty();
        assert(text =~= before + trimmed(text) + behind);
    } else {
        assert(start < end) by {
            if end <= start {
                assert(is_space(text[start]));
            }
        }
        let before = text.subrange(0, start);
        let behind = text.subrange(end, n);
        assert(text =~= before + trimmed(text) + behind);
    }
}

/// Whether `c` counts as white space.
pub fn is_whitespace(c: char) -> (space: bool)
    ensures
        space == is_space(c),
{
    let code: u32 = c as u32;
    (0x09 <= code && code <= 0x0d) || code == 0x20 || code == 0x85 || code == 0xa0 || code
        == 0x1680 || (0x2000 <= code && code <= 0x200a) || code == 0x2028 || code == 0x2029 || code
        == 0x202f || code == 0x205f || code == 0x3000
}

/// `text` without the white space at its beginning and at its end.
pub fn trim(text: &str) -> (out: String)
    ensures
        out@ == trimmed(text@),
{
    let chars = chars_of(text);
    let mut start: usize = 0;
    while start < chars.len() && is_whitespace(chars[start])
        invariant
            start <= chars.len(),
            first_mark(chars@, 0) == first_mark(chars@, start as int),
        decreases chars.len() - start,
    {
        start += 1;
    }
    let mut out = String::new();
    if start >= chars.len() {
        return out;
    }
    let mut end: usize = chars.len();
    while end > 0 && is_whitespace(chars[end - 1])
        invariant
            end <= chars.len(),
            last_mark(chars@, chars@.len() as int) == last_mark(chars@, end as int),
        decreases end,
    {
        end -= 1;
    }
    proof {
        lemma_marks(chars@, 0, chars@.len() as int);
        if end <= start {
            assert(is_space(chars@[start as int]));
        }
    }
    let mut at: usize = start;
    while at < end
        invariant
            start <= at <= end <= chars.len(),
            out@ == chars@.subrange(start as int, at as int),
        decreases end - at,
    {
        out.push(chars[at]);
        assert(out@ =~= chars@.subrange(start as int, at + 1));
        at += 1;
    }
    out
}

} // verus!
