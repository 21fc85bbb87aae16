//! Conversions from a bytestr: a sequence of font bytes.
use vstd::prelude::*;

use crate::charset::{ascii_fold, ascii_fold_spec};
use crate::chars::push_char;
use crate::unicode;
use crate::unicode::{utf8_glyph_spec, utf8_text};

verus! {

/// The ASCII rendering of `b`: each byte folded through the font table.
pub open spec fn ascii_text(b: Seq<u8>) -> Seq<char> {
    b.map_values(|x: u8| ascii_fold_spec(x) as char)
}

/// The unicode rendering of `b`: each byte lifted to the code point of the
/// same value.
pub open spec fn unicode_text(b: Seq<u8>) -> Seq<char> {
    b.map_values(|x: u8| x as char)
}

/// Converts a bytestr to ASCII, one character per byte.
pub fn to_ascii(bytes: &[u8]) -> (r: String)
    ensures
        r@ == ascii_text(bytes@),
{
    let mut r = String::new();
    for i in 0..bytes.len()
        invariant
            r@ == ascii_text(bytes@).take(i as int),
    {
        push_char(&mut r, ascii_fold(bytes[i]) as char);
        assert(r@ =~= ascii_text(bytes@).take(i + 1));
    }
    assert(r@ =~= ascii_text(bytes@));
    r
}

/// Converts a bytestr to unicode: code point `i` of the result equals byte `i`.
pub fn to_unicode(bytes: &[u8]) -> (r: String)
    ensures
        r@ == unicode_text(bytes@),
{
    let mut r = String::new();
    for i in 0..bytes.len()
        invariant
            r@ == unicode_text(bytes@).take(i as int),
    {
        push_char(&mut r, bytes[i] as char);
        assert(r@ =~= unicode_text(bytes@).take(i + 1));
    }
    assert(r@ =~= unicode_text(bytes@));
    r
}

/// Converts a bytestr to sanitised utf8, by way of its unicode rendering.
pub fn to_utf8(bytes: &[u8]) -> (r: String)
    ensures
        r@ == utf8_text(unicode_text(bytes@)),
        r@ == bytes@.map_values(|x: u8| utf8_glyph_spec(x)),
{
    let u = to_unicode(bytes);
    let r = unicode::to_utf8(u.as_str());
    proof {
        lemma_round_trip(bytes@);
        assert(r@ =~= bytes@.map_values(|x: u8| utf8_glyph_spec(x)));
    }
    r
}

/// Lifting a bytestr to unicode and reading the bytestr back gives the
/// bytes that were lifted.
pub proof fn lemma_round_trip(b: Seq<u8>)
    ensures
        unicode::bytestr_of(unicode_text(b)) == b,
{
    assert forall|i: int| 0 <= i < b.len() implies #[trigger] unicode::bytestr_of(
        unicode_text(b),
    )[i] == b[i] by {
        let x = b[i];
        assert((x as char) as u32 == x as u32);
    }
    assert(unicode::bytestr_of(unicode_text(b)) =~= b);
}

/// Every conversion from a bytestr gives one character per byte.
pub proof fn lemma_lengths(b: Seq<u8>)
    ensures
        ascii_text(b).len() == b.len(),
        unicode_text(b).len() == b.len(),
        utf8_text(unicode_text(b)).len() == b.len(),
{
}

} // verus!
