//! The shift cipher: every ASCII letter moves a fixed number of places
//! along its alphabet, everything else stays.

use vstd::prelude::*;

verus! {

/// An ASCII lowercase letter.
pub open spec fn is_lower(c: char) -> bool {
    'a' <= c && c <= 'z'
}

/// An ASCII uppercase letter.
pub open spec fn is_upper(c: char) -> bool {
    'A' <= c && c <= 'Z'
}

/// The letter `k mod 26` places after `c` in the alphabet that starts at
/// `first`, wrapping round at its end.
pub open spec fn rotate(c: char, first: char, k: nat) -> char {
    ((c as int - first as int + k % 26) % 26 + first as int) as u8 as char
}

/// One character under a shift of `k`: letters rotate within their case,
/// anything else passes through.
pub open spec fn shift_char(c: char, k: nat) -> char {
    if is_lower(c) {
        rotate(c, 'a', k)
    } else if is_upper(c) {
        rotate(c, 'A', k)
    } else {
        c
    }
}

/// A text under a shift of `k`: each character shifted, in place.
pub open spec fn shift_text(text: Seq<char>, k: nat) -> Seq<char> {
    Seq::new(text.len(), |i: int| shift_char(text[i], k))
}

/// A shift keeps lowercase letters lowercase and uppercase letters
/// uppercase, and does not touch any other character.
pub proof fn lemma_shift_keeps_class(c: char, k: nat)
    ensures
        is_lower(c) <==> is_lower(shift_char(c, k)),
        is_upper(c) <==> is_upper(shift_char(c, k)),
        !is_lower(c) && !is_upper(c) ==> shift_char(c, k) == c,
{
}

/// Two rotations of a place in the alphabet add up.
proof fn lemma_places_add(x: int, j: nat, k: nat)
    requires
        0 <= x < 26,
    ensures
        ((x + j % 26) % 26 + k % 26) % 26 == (x + (j + k) % 26) % 26,
{
}

/// A rotated letter lies in the same alphabet, at the rotated place.
proof fn lemma_rotate_place(c: char, first: char, k: nat)
    requires
        first == 'a' || first == 'A',
        (first as int) <= (c as int),
        (c as int) < (first as int) + 26,
    ensures
        (first as int) <= (rotate(c, first, k) as int),
        (rotate(c, first, k) as int) < (first as int) + 26,
        rotate(c, first, k) as int - first as int == (c as int - first as int + k % 26) % 26,
{
}

/// Shifting by `j` and then by `k` is shifting by `j + k`.
pub proof fn lemma_shift_char_adds(c: char, j: nat, k: nat)
    ensures
        shift_char(shift_char(c, j), k) == shift_char(c, j + k),
{
    if is_lower(c) {
        lemma_rotate_place(c, 'a', j);
        lemma_places_add(c as int - 'a' as int, j, k);
    } else if is_upper(c) {
        lemma_rotate_place(c, 'A', j);
        lemma_places_add(c as int - 'A' as int, j, k);
    }
}

/// A shift by a multiple of 26 changes nothing.
pub proof fn lemma_shift_char_full_turn(c: char, k: nat)
    requires
        k % 26 == 0,
    ensures
        shift_char(c, k) == c,
{
}

/// Shifting a text by `j` and then by `k` is shifting it by `j + k`.
pub proof fn lemma_shift_text_adds(text: Seq<char>, j: nat, k: nat)
    ensures
        shift_text(shift_text(text, j), k) == shift_text(text, j + k),
{
    assert forall|i: int| 0 <= i < text.len() implies shift_text(shift_text(text, j), k)[i]
        == shift_text(text, j + k)[i] by {
        lemma_shift_char_adds(text[i], j, k);
    }
    assert(shift_text(shift_text(text, j), k) =~= shift_text(text, j + k));
}

/// A text shifted by a multiple of 26, by 0 and by 26 among them, is the
/// text itself.
pub proof fn lemma_shift_text_full_turn(text: Seq<char>, k: nat)
    requires
        k % 26 == 0,
    ensures
        shift_text(text, k) == text,
{
    assert forall|i: int| 0 <= i < text.len() implies shift_text(text, k)[i] == text[i] by {
        lemma_shift_char_full_turn(text[i], k);
    }
    assert(shift_text(text, k) =~= text);
}

/// The shift is its own inverse with the complementary amount:
/// shifting by `k` and then by `26 - k mod 26` gives the text back.
pub proof fn lemma_shift_text_inverse(text: Seq<char>, k: nat)
    ensures
        shift_text(shift_text(text, k), (26 - k % 26) as nat) == text,
{
    lemma_shift_text_adds(text, k, (26 - k % 26) as nat);
    lemma_shift_text_full_turn(text, k + (26 - k % 26) as nat);
}

/// A shift keeps the length of a text, the case of each letter and every
/// character that is no ASCII letter.
pub proof fn lemma_shift_text_keeps_shape(text: Seq<char>, k: nat)
    ensures
        shift_text(text, k).len() == text.len(),
        forall|i: int|
            0 <= i < text.len() ==> (is_lower(text[i]) <==> is_lower(
                #[trigger] shift_text(text, k)[i],
            )),
        forall|i: int|
            0 <= i < text.len() ==> (is_upper(text[i]) <==> is_upper(
                #[trigger] shift_text(text, k)[i],
            )),
        forall|i: int|
            0 <= i < text.len() && !is_lower(text[i]) && !is_upper(text[i]) ==> #[trigger] shift_text(
                text,
                k,
            )[i] == text[i],
{
    assert forall|i: int| 0 <= i < text.len() implies (is_lower(text[i]) <==> is_lower(
        #[trigger] shift_text(text, k)[i],
    )) && (is_upper(text[i]) <==> is_upper(shift_text(text, k)[i])) && (!is_lower(text[i])
        && !is_upper(text[i]) ==> shift_text(text, k)[i] == text[i]) by {
        lemma_shift_keeps_class(text[i], k);
    }
}

/// Shifts one character by `shift mod 26` places.
pub fn shift_letter(c: char, shift: u16) -> (shifted: char)
    ensures
        shifted == shift_char(c, shift as nat),
{
    if c >= 'a' && c <= 'z' {
        let offset: u8 = (c as u8 - 97 + (shift % 26) as u8) % 26;
        (offset + 97) as char
    } else if c >= 'A' && c <= 'Z' {
        let offset: u8 = (c as u8 - 65 + (shift % 26) as u8) % 26;
        (offset + 65) as char
    } else {
        c
    }
}

/// Shifts every ASCII letter of `text` by `shift mod 26` places within its
/// case and copies every other character unchanged.
pub fn caesar_cipher(text: &str, shift: u16) -> (shifted: String)
    ensures
        shifted@ == shift_text(text@, shift as nat),
{
    let mut shifted = String::new();
    for c in it: text.chars()
        invariant
            it.seq() == text@,
            shifted@ == shift_text(text@.take(it.index() as int), shift as nat),
    {
        shifted.push(shift_letter(c, shift));
        assert(text@.take(it.index() + 1).len() == it.index() + 1);
        assert(shifted@ =~= shift_text(text@.take(it.index() + 1), shift as nat));
    }
    assert(text@.take(text@.len() as int) =~= text@);
    shifted
}

} // verus!
