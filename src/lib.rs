//! Text codec for the character set of a classic first-person-shooter engine.
//!
//! Three representations are handled: a *bytestr* (one font byte per glyph,
//! the high bit selecting a colour variant), a *unicode* string (each byte
//! lifted to the code point of the same value) and a sanitised *utf8* string
//! (printable glyphs only, colour stripped).
pub mod charset;
pub mod lex;
mod chars;
pub mod bytestr;
pub mod unicode;
