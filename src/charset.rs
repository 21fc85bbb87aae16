//! The font's character table: ASCII folding and colour classification.
use vstd::prelude::*;

verus! {

/// The glyph that font byte `b` folds to in plain ASCII, with `'_'` standing
/// for glyphs that have no printable equivalent. Both colour halves of the
/// font (`b < 128` and `b >= 128`) fold alike.
///
/// Within a half: 0..=15 give `'_'`, 16 and 17 give the brackets `'['` and
/// `']'`, 18..=27 give the digits `'0'..='9'`, 28..=31 give `'_'`, 32..=126
/// are themselves except the backtick (96), which the font draws as an
/// apostrophe, and 127 gives `'_'`.
pub open spec fn ascii_fold_spec(b: u8) -> u8 {
    let c = b % 128;
    if c == 16 {
        91u8
    } else if c == 17 {
        93u8
    } else if 18 <= c <= 27 {
        (c + 30) as u8
    } else if c == 96 {
        39u8
    } else if 32 <= c <= 126 {
        c
    } else {
        95u8
    }
}

/// Folds one font byte to its ASCII glyph (see [`ascii_fold_spec`]).
pub fn ascii_fold(b: u8) -> (r: u8)
    ensures
        r == ascii_fold_spec(b),
{
    let c = b % 128;
    if c == 16 {
        91
    } else if c == 17 {
        93
    } else if 18 <= c && c <= 27 {
        c + 30
    } else if c == 96 {
        39
    } else if 32 <= c && c <= 126 {
        c
    } else {
        95
    }
}

/// The whole folding table: entry `b` is the glyph that byte `b` folds to.
pub fn ascii_table() -> (r: Vec<u8>)
    ensures
        r@.len() == 256,
        forall|b: u8| #[trigger] r@[b as int] == ascii_fold_spec(b),
{
    let mut r: Vec<u8> = Vec::new();
    for i in 0u32..256u32
        invariant
            r@.len() == i,
            forall|b: u8| b < i ==> #[trigger] r@[b as int] == ascii_fold_spec(b),
    {
        r.push(ascii_fold(i as u8));
    }
    r
}

/// Every folded glyph is printable ASCII.
pub proof fn lemma_ascii_fold_printable(b: u8)
    ensures
        0x20 <= ascii_fold_spec(b) <= 0x7e,
{
}

/// The colour in which the engine draws a glyph.
#[derive(Debug, Clone, Copy, PartialEq, Eq, Structural)]
pub enum CharColor {
    Brown,
    Green,
    White,
}

/// The colour of font byte `b`, seen as the cell (`b / 16`, `b % 16`) of the
/// 16×16 font grid; `None` for cells that carry no colour.
pub open spec fn color_of(b: u8) -> Option<CharColor> {
    let row = b / 16;
    let col = b % 16;
    if 2 <= row <= 7 {
        Some(CharColor::White)
    } else if 10 <= row <= 15 {
        Some(CharColor::Brown)
    } else if (row == 1 || row == 9) && 2 <= col <= 11 {
        Some(CharColor::Green)
    } else if (row == 0 && (col == 0 || col == 5 || col == 11 || col == 14 || col == 15)) || (
    row == 1 && col == 12) {
        Some(CharColor::White)
    } else if (row == 0 && col == 13) || ((row == 1 || row == 9) && col <= 1) || (row == 8 && (
    col == 11 || col == 13)) {
        Some(CharColor::Brown)
    } else if (row == 8 && (col == 5 || col == 14 || col == 15)) || (row == 9 && col == 12) {
        Some(CharColor::Green)
    } else {
        None
    }
}

/// The font byte that code point `c` stands for: its low eight bits.
pub open spec fn low_byte(c: char) -> u8 {
    (c as u32 % 256) as u8
}

impl CharColor {
    /// The colour of the glyph that code point `c` stands for; only the low
    /// eight bits of `c` count.
    pub fn from_char(c: char) -> (r: Option<Self>)
        ensures
            r == color_of(low_byte(c)),
    {
        Self::from_byte((c as u32 % 256) as u8)
    }

    /// The colour of font byte `b`.
    pub fn from_byte(b: u8) -> (r: Option<Self>)
        ensures
            r == color_of(b),
    {
        let row = b / 16;
        let col = b % 16;

        // the letters, digits and punctuation of both halves
        if 2 <= row && row <= 7 {
            return Some(CharColor::White);
        }
        if 10 <= row && row <= 15 {
            return Some(CharColor::Brown);
        }
        if (row == 1 || row == 9) && 2 <= col && col <= 11 {
            return Some(CharColor::Green);
        }

        // the special glyphs, one cell at a time
        match row {
            0 if col == 0 || col == 5 || col == 11 || col == 14 || col == 15 => Some(
                CharColor::White,
            ),
            1 if col == 12 => Some(CharColor::White),
            0 if col == 13 => Some(CharColor::Brown),
            1 if col <= 1 => Some(CharColor::Brown),
            9 if col <= 1 => Some(CharColor::Brown),
            8 if col == 11 || col == 13 => Some(CharColor::Brown),
            8 if col == 5 || col == 14 || col == 15 => Some(CharColor::Green),
            9 if col == 12 => Some(CharColor::Green),
            _ => None,
        }
    }
}

} // verus!
