//! The signing key as text: byte values separated by commas, optionally
//! inside brackets, as in `[12, 250, 7]`.
use vstd::prelude::*;
use crate::text::{
    Strip, decimal_of, find_comma, lemma_next_comma_bounds, next_comma, parse_decimal, strip,
    stripped,
};

verus! {

/// The byte that one field denotes, if any: its text without surrounding
/// white space must be a decimal number of at most 255.
pub open spec fn field_byte(field: Seq<char>) -> Seq<u8> {
    match decimal_of(stripped(field, Strip::Whitespace), 255) {
        Some(v) => seq![v as u8],
        None => Seq::empty(),
    }
}

/// The bytes of the comma-separated fields of `t` that start at `from`;
/// fields that are not bytes are left out.
pub open spec fn key_bytes_from(t: Seq<char>, from: int) -> Seq<u8>
    decreases t.len() - from,
    via key_bytes_from_decreases
{
    if from < 0 || from > t.len() {
        Seq::empty()
    } else {
        let c = next_comma(t, from);
        field_byte(t.subrange(from, c)) + if c < t.len() {
            key_bytes_from(t, c + 1)
        } else {
            Seq::empty()
        }
    }
}

#[via_fn]
proof fn key_bytes_from_decreases(t: Seq<char>, from: int) {
    if 0 <= from <= t.len() {
        lemma_next_comma_bounds(t, from);
    }
}

/// The key bytes that `text` lists: brackets at either end are dropped, and
/// the fields between commas that are not bytes are skipped.
pub open spec fn key_bytes(text: Seq<char>) -> Seq<u8> {
    key_bytes_from(stripped(text, Strip::Brackets), 0)
}

/// Reads the byte list of a signing key.
pub fn parse_key_bytes(text: &str) -> (r: Vec<u8>)
    ensures
        r@ == key_bytes(text@),
{
    let t = strip(text, Strip::Brackets);
    let n = t.unicode_len();
    let mut out: Vec<u8> = Vec::new();
    let mut from: usize = 0;
    loop
        invariant
            from <= n == t@.len(),
            t@ == stripped(text@, Strip::Brackets),
            out@ + key_bytes_from(t@, from as int) == key_bytes(text@),
        decreases n - from,
    {
        let c = find_comma(t, from);
        let field = strip(t.substring_char(from, c), Strip::Whitespace);
        let ghost before = out@;
        match parse_decimal(field, 255) {
            Some(v) => out.push(v as u8),
            None => {},
        }
        assert(out@ == before + field_byte(t@.subrange(from as int, c as int)));
        if c >= n {
            assert(out@ =~= out@ + Seq::<u8>::empty());
            assert(out@ == key_bytes(text@)) by {
                assert(before + key_bytes_from(t@, from as int) =~= out@);
            }
            return out;
        }
        assert(out@ + key_bytes_from(t@, c + 1) =~= before + key_bytes_from(t@, from as int));
        from = c + 1;
    }
}

} // verus!
