use vstd::prelude::*;

verus! {

/// What the built-in 8x8 font renders a character as: eight bytes, one per
/// row from the top, the low bit of each byte being the leftmost column.
pub uninterp spec fn glyph_of(c: char) -> Seq<u8>;

/// Relies on font8x8's `BASIC_FONTS.get`: a lookup in a constant table
/// holding the glyphs of exactly the 128 characters below U+0080, a
/// function of the character alone.
#[verifier::external_body]
pub(crate) fn basic_glyph(c: char) -> (r: Option<[u8; 8]>)
    ensures
        r is Some <==> (c as u32) < 128,
        r matches Some(g) ==> g@ == glyph_of(c),
{
    font8x8::UnicodeFonts::get(&font8x8::BASIC_FONTS, c)
}

} // verus!
