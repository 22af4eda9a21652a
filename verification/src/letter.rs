use rand::Rng;
use vstd::prelude::*;

verus! {

/// The largest index that a glyph draw can produce; indices `0..=MAX_GLYPH_INDEX`
/// name the glyphs of the rain alphabet.
pub const MAX_GLYPH_INDEX: u8 = 58;

/// The glyph that index `r` names: digits first, then lower-case letters,
/// then upper-case letters.
pub open spec fn glyph_spec(r: int) -> char {
    if r <= 9 {
        ('0' as int + r) as char
    } else if r <= 33 {
        ('a' as int + r - 10) as char
    } else {
        ('A' as int + r - 34) as char
    }
}

/// The rain alphabet: `0`-`9`, `a`-`x` and `A`-`Y`.
pub open spec fn is_glyph(c: char) -> bool {
    ||| ('0' as int <= c as int && c as int <= '9' as int)
    ||| ('a' as int <= c as int && c as int <= 'x' as int)
    ||| ('A' as int <= c as int && c as int <= 'Y' as int)
}

/// Maps a glyph index to its character.
pub fn glyph_for_index(r: u8) -> (c: char)
    requires
        r <= MAX_GLYPH_INDEX,
    ensures
        c == glyph_spec(r as int),
{
    let code: u8 = if r <= 9 {
        '0' as u8 + r
    } else if r <= 33 {
        'a' as u8 + r - 10
    } else {
        'A' as u8 + r - 34
    };
    code as char
}

/// Draws with `rand::thread_rng().gen_range(low..=high)`. rand documents that
/// the value lies in the inclusive range and that an empty range panics;
/// which value of the range comes back is chance, so nothing more is stated.
/// Glyph draws are its only use, so it is only ever handed the whole index
/// range of the alphabet, and every glyph can come out.
#[verifier::external_body]
fn random_index_inclusive(low: u8, high: u8) -> (r: u8)
    requires
        low <= high,
        low == 0,
        high == MAX_GLYPH_INDEX,
    ensures
        low <= r <= high,
{
    rand::thread_rng().gen_range(low..=high)
}

/// `char::to_string`: the string that holds exactly the given character.
#[verifier::external_body]
fn char_to_string(c: char) -> (s: String)
    ensures
        s@ == seq![c],
{
    c.to_string()
}

/// A random glyph of the rain alphabet, as a one-character string. The index
/// is drawn over the whole range `0..=MAX_GLYPH_INDEX`, so each of the glyphs
/// (see `lemma_glyph_surjective`) can come out.
pub fn make_matrix_character() -> (s: String)
    ensures
        s@.len() == 1,
        is_glyph(s@[0]),
        exists|r: int| 0 <= r <= MAX_GLYPH_INDEX && s@[0] == glyph_spec(r),
{
    let r = random_index_inclusive(0, MAX_GLYPH_INDEX);
    let c = glyph_for_index(r);
    proof {
        lemma_glyph_in_alphabet(r as int);
    }
    char_to_string(c)
}

/// Every index of the alphabet names a glyph of the alphabet.
pub proof fn lemma_glyph_in_alphabet(r: int)
    requires
        0 <= r <= MAX_GLYPH_INDEX,
    ensures
        is_glyph(glyph_spec(r)),
{
}

/// Distinct indices name distinct glyphs.
pub proof fn lemma_glyph_injective(r1: int, r2: int)
    requires
        0 <= r1 <= MAX_GLYPH_INDEX,
        0 <= r2 <= MAX_GLYPH_INDEX,
        r1 != r2,
    ensures
        glyph_spec(r1) != glyph_spec(r2),
{
}

/// Every glyph of the alphabet is named by some index.
pub proof fn lemma_glyph_surjective(c: char)
    requires
        is_glyph(c),
    ensures
        exists|r: int| 0 <= r <= MAX_GLYPH_INDEX && glyph_spec(r) == c,
{
    let r = if c as int <= '9' as int {
        c as int - '0' as int
    } else if 'a' as int <= c as int {
        c as int - 'a' as int + 10
    } else {
        c as int - 'A' as int + 34
    };
    assert((c as int) as char == c);
    assert(glyph_spec(r) == c);
}

} // verus!
