//! Conversions from a unicode string, and case-insensitive collation.
use vstd::prelude::*;

use std::cmp::Ordering;

use crate::bytestr;
use crate::charset::low_byte;
use crate::chars::{chars_of, push_char, string_of};
use crate::lex::{
    lemma_lex_cmp_equal, lemma_lex_cmp_flip, lemma_lex_cmp_less, lemma_lex_cmp_trans, lex_cmp,
    lex_le, seq_less,
};

verus! {

/// The bytestr that `s` stands for: the low eight bits of each code point.
pub open spec fn bytestr_of(s: Seq<char>) -> Seq<u8> {
    s.map_values(|c: char| low_byte(c))
}

/// The printable glyph for font byte `b`, its colour bit stripped: the
/// brackets and digits as themselves, printable ASCII as itself, a bullet
/// (U+2022) for the marker bytes 0, 5, 14, 15 and 28, and a space for the rest.
pub open spec fn utf8_glyph_spec(b: u8) -> char {
    let c = b % 128;
    if c == 16 {
        '['
    } else if c == 17 {
        ']'
    } else if 18 <= c <= 27 {
        (c + 30) as char
    } else if 32 <= c <= 126 {
        c as char
    } else if c == 0 || c == 5 || c == 14 || c == 15 || c == 28 {
        '\u{2022}'
    } else {
        ' '
    }
}

/// The utf8 rendering of the unicode string `s`.
pub open spec fn utf8_text(s: Seq<char>) -> Seq<char> {
    s.map_values(|c: char| utf8_glyph_spec(low_byte(c)))
}

/// `c` with ASCII capitals made small; every other code point unchanged.
pub open spec fn ascii_lower(c: char) -> char {
    if 65 <= c as u32 <= 90 {
        ((c as u32) + 32) as char
    } else {
        c
    }
}

/// The collation key of `s`: its utf8 rendering in lower case.
pub open spec fn normalized(s: Seq<char>) -> Seq<char> {
    utf8_text(s).map_values(|c: char| ascii_lower(c))
}

/// Converts a unicode string to ASCII, by way of its bytestr.
pub fn to_ascii(ustr: &str) -> (r: String)
    ensures
        r@ == bytestr::ascii_text(bytestr_of(ustr@)),
{
    bytestr::to_ascii(to_bytestr(ustr).as_slice())
}

/// The glyph for one font byte (see [`utf8_glyph_spec`]).
fn utf8_glyph(b: u8) -> (r: char)
    ensures
        r == utf8_glyph_spec(b),
{
    let c = b % 128;
    if c == 16 {
        '['
    } else if c == 17 {
        ']'
    } else if 18 <= c && c <= 27 {
        (c + 30) as char
    } else if 32 <= c && c <= 126 {
        c as char
    } else if c == 0 || c == 5 || c == 14 || c == 15 || c == 28 {
        '\u{2022}'
    } else {
        ' '
    }
}

/// Converts a unicode string to sanitised utf8, one glyph per code point.
pub fn to_utf8(ustr: &str) -> (r: String)
    ensures
        r@ == utf8_text(ustr@),
{
    let bytes = to_bytestr(ustr);
    let mut r = String::new();
    for i in 0..bytes.len()
        invariant
            bytes@ == bytestr_of(ustr@),
            r@ == utf8_text(ustr@).take(i as int),
    {
        push_char(&mut r, utf8_glyph(bytes[i]));
        assert(r@ =~= utf8_text(ustr@).take(i + 1));
    }
    assert(r@ =~= utf8_text(ustr@));
    r
}

/// Converts a unicode string to a bytestr, keeping the low eight bits of each
/// code point.
pub fn to_bytestr(value: &str) -> (r: Vec<u8>)
    ensures
        r@ == bytestr_of(value@),
{
    let mut r: Vec<u8> = Vec::new();
    for c in it: value.chars()
        invariant
            it.seq() == value@,
            r@ == bytestr_of(value@).take(it.index() as int),
    {
        r.push((c as u32 % 256) as u8);
        assert(r@ =~= bytestr_of(value@).take(it.index() + 1));
    }
    assert(r@ =~= bytestr_of(value@));
    r
}

/// The collation key of `value`, as a vector of code points.
fn key_of(value: &str) -> (r: Vec<char>)
    ensures
        r@ == normalized(value@),
{
    let u = to_utf8(value);
    let glyphs = chars_of(u.as_str());
    let mut r: Vec<char> = Vec::new();
    for i in 0..glyphs.len()
        invariant
            glyphs@ == utf8_text(value@),
            r@ == normalized(value@).take(i as int),
    {
        let c = glyphs[i];
        let l = if 'A' <= c && c <= 'Z' {
            ((c as u32) + 32) as u8 as char
        } else {
            c
        };
        r.push(l);
        assert(r@ =~= normalized(value@).take(i + 1));
    }
    assert(r@ =~= normalized(value@));
    r
}

/// Normalises a unicode string for case-insensitive comparison: its utf8
/// rendering with ASCII capitals made small.
pub fn normalize(value: &str) -> (r: String)
    ensures
        r@ == normalized(value@),
{
    string_of(&key_of(value))
}

/// Compares two keys lexicographically.
fn compare_keys(a: &Vec<char>, b: &Vec<char>) -> (r: Ordering)
    ensures
        r == lex_cmp(a@, b@),
{
    let mut i: usize = 0;
    assert(a@.skip(0) =~= a@ && b@.skip(0) =~= b@);
    while i < a.len() && i < b.len()
        invariant
            i <= a.len(),
            i <= b.len(),
            lex_cmp(a@, b@) == lex_cmp(a@.skip(i as int), b@.skip(i as int)),
        decreases a.len() - i,
    {
        let x = a[i];
        let y = b[i];
        if x < y {
            return Ordering::Less;
        }
        if x > y {
            return Ordering::Greater;
        }
        assert(a@.skip(i as int).drop_first() =~= a@.skip(i + 1));
        assert(b@.skip(i as int).drop_first() =~= b@.skip(i + 1));
        i = i + 1;
    }
    if i < b.len() {
        Ordering::Less
    } else if i < a.len() {
        Ordering::Greater
    } else {
        Ordering::Equal
    }
}

/// Orders two unicode strings by their collation keys.
pub fn ord(a: &str, b: &str) -> (r: Ordering)
    ensures
        r == lex_cmp(normalized(a@), normalized(b@)),
{
    compare_keys(&key_of(a), &key_of(b))
}

/// `r` is `v` stably sorted by collation key, `r[i]` being `v[p[i]]`: `p` is
/// a permutation of the positions of `v`, the keys of `r` ascend, and strings
/// with equal keys keep the order they had in `v`.
pub open spec fn stably_sorted_from(r: Seq<String>, v: Seq<String>, p: Seq<int>) -> bool {
    &&& r.len() == v.len()
    &&& p.len() == v.len()
    &&& forall|i: int| 0 <= i < p.len() ==> 0 <= #[trigger] p[i] < v.len()
    &&& forall|i: int, j: int| 0 <= i < j < p.len() ==> p[i] != p[j]
    &&& forall|i: int| 0 <= i < r.len() ==> #[trigger] r[i] == v[p[i]]
    &&& forall|i: int, j: int|
        0 <= i < j < r.len() ==> lex_le(normalized(r[i]@), normalized(r[j]@))
    &&& forall|i: int, j: int|
        0 <= i < j < r.len() && normalized(r[i]@) == normalized(r[j]@) ==> p[i] < p[j]
}

/// Whether key `a` is not after key `b`.
fn key_le(a: &Vec<char>, b: &Vec<char>) -> (r: bool)
    ensures
        r == lex_le(a@, b@),
{
    match compare_keys(a, b) {
        Ordering::Greater => false,
        _ => true,
    }
}

/// Sorts unicode strings in ascending order of their collation keys, keeping
/// the input order among strings with equal keys. Each key is computed once.
pub fn sort(values: &[String]) -> (r: Vec<String>)
    ensures
        exists|p: Seq<int>| stably_sorted_from(r@, values@, p),
{
    let n = values.len();
    let mut keys: Vec<Vec<char>> = Vec::new();
    for i in 0..n
        invariant
            n == values@.len(),
            keys@.len() == i,
            forall|k: int| 0 <= k < i ==> (#[trigger] keys@[k])@ == normalized(values@[k]@),
    {
        keys.push(key_of(values[i].as_str()));
    }
    // positions of `values`, kept in sorted order
    let mut order: Vec<usize> = Vec::new();
    for i in 0..n
        invariant
            n == values@.len(),
            keys@.len() == n,
            forall|k: int| 0 <= k < n ==> (#[trigger] keys@[k])@ == normalized(values@[k]@),
            order@.len() == i,
            forall|a: int| 0 <= a < i ==> #[trigger] order@[a] < i,
            forall|a: int, b: int| 0 <= a < b < i ==> order@[a] != order@[b],
            forall|a: int, b: int|
                0 <= a < b < i ==> lex_le(keys@[order@[a] as int]@, keys@[order@[b] as int]@),
            forall|a: int, b: int|
                0 <= a < b < i && keys@[order@[a] as int]@ == keys@[order@[b] as int]@ ==> order@[a]
                    < order@[b],
    {
        let ghost k = keys@[i as int]@;
        let mut pos: usize = 0;
        while pos < order.len()
            invariant
                0 <= pos <= order@.len(),
                order@.len() == i,
                i < n,
                keys@.len() == n,
                forall|a: int| 0 <= a < i ==> #[trigger] order@[a] < i,
                k == keys@[i as int]@,
                forall|a: int| 0 <= a < pos ==> lex_le(#[trigger] keys@[order@[a] as int]@, k),
            ensures
                0 <= pos <= order@.len(),
                forall|a: int| 0 <= a < pos ==> lex_le(#[trigger] keys@[order@[a] as int]@, k),
                pos < order@.len() ==> !lex_le(keys@[order@[pos as int] as int]@, k),
            decreases order@.len() - pos,
        {
            if !key_le(&keys[order[pos]], &keys[i]) {
                break;
            }
            pos = pos + 1;
        }
        proof {
            // every key from `pos` on comes strictly after `k`
            assert forall|a: int| pos <= a < i implies lex_cmp(
                k,
                #[trigger] keys@[order@[a] as int]@,
            ) == Ordering::Less by {
                let kp = keys@[order@[pos as int] as int]@;
                lemma_lex_cmp_flip(k, kp);
                if a > pos {
                    lemma_lex_cmp_trans(k, kp, keys@[order@[a] as int]@);
                }
            }
            assert forall|a: int| pos <= a < i implies k != #[trigger] keys@[order@[a] as int]@ by {
                lemma_lex_cmp_equal(k, keys@[order@[a] as int]@);
            }
        }
        let ghost before = order@;
        order.insert(pos, i);
        assert(order@ == before.insert(pos as int, i));
    }
    let mut r: Vec<String> = Vec::new();
    for j in 0..n
        invariant
            n == values@.len(),
            order@.len() == n,
            forall|a: int| 0 <= a < n ==> #[trigger] order@[a] < n,
            r@.len() == j,
            forall|a: int| 0 <= a < j ==> #[trigger] r@[a] == values@[order@[a] as int],
    {
        r.push(values[order[j]].clone());
    }
    let ghost p = order@.map_values(|x: usize| x as int);
    assert(stably_sorted_from(r@, values@, p));
    r
}

/// Every conversion from a unicode string gives one character, or one byte,
/// per code point.
pub proof fn lemma_lengths(s: Seq<char>)
    ensures
        bytestr_of(s).len() == s.len(),
        bytestr::ascii_text(bytestr_of(s)).len() == s.len(),
        utf8_text(s).len() == s.len(),
        normalized(s).len() == s.len(),
{
}

/// Normalising a normalised string changes nothing, provided it holds no
/// bullet: the bullet (U+2022) has low byte `'"'`, so it does not survive a
/// second pass.
pub proof fn lemma_normalize_idempotent(s: Seq<char>)
    requires
        !normalized(s).contains('\u{2022}'),
    ensures
        normalized(normalized(s)) == normalized(s),
{
    let t = normalized(s);
    assert forall|i: int| 0 <= i < t.len() implies #[trigger] normalized(t)[i] == t[i] by {
        let b = low_byte(s[i]);
        assert(t[i] != '\u{2022}');
        assert(t[i] == ascii_lower(utf8_glyph_spec(b)));
        assert(32 <= t[i] as u32 <= 126);
        assert(low_byte(t[i]) == t[i] as u32);
    }
    assert(normalized(t) =~= t);
}

/// `ord` answers `Equal` exactly when the two keys are equal, and `Less`
/// exactly when the key of `a` comes before the key of `b` in dictionary
/// order.
pub proof fn lemma_ord_agrees_with_normalize(a: Seq<char>, b: Seq<char>)
    ensures
        (lex_cmp(normalized(a), normalized(b)) == Ordering::Equal) <==> normalized(a)
            == normalized(b),
        (lex_cmp(normalized(a), normalized(b)) == Ordering::Less) <==> seq_less(
            normalized(a),
            normalized(b),
        ),
{
    lemma_lex_cmp_equal(normalized(a), normalized(b));
    lemma_lex_cmp_less(normalized(a), normalized(b));
}

} // verus!
