//! Bridging between ASCII strings and byte sequences.
//!
//! Token material is framed as ASCII bytes; the public API hands it around as
//! `String`. These helpers convert between the two and state the exact
//! correspondence, so every other module can reason in `Seq<u8>`.

use vstd::prelude::*;

verus! {

/// The bytes of an ASCII character sequence, character by character.
pub open spec fn byte_seq_of(s: Seq<char>) -> Seq<u8> {
    Seq::new(s.len(), |i: int| s[i] as u8)
}

/// The characters an ASCII byte sequence spells, byte by byte.
pub open spec fn char_seq_of(b: Seq<u8>) -> Seq<char> {
    Seq::new(b.len(), |i: int| b[i] as char)
}

/// Every byte of the sequence is ASCII.
pub open spec fn all_ascii_bytes(b: Seq<u8>) -> bool {
    forall|i: int| 0 <= i < b.len() ==> b[i] < 128
}

pub proof fn lemma_byte_seq_of_char_seq(b: Seq<u8>)
    requires
        all_ascii_bytes(b),
    ensures
        byte_seq_of(char_seq_of(b)) =~= b,
        vstd::utf8::is_ascii_chars(char_seq_of(b)),
{
}

/// Relies on String::from_utf8: a sequence of bytes below 128 is valid UTF-8
/// and becomes the string of exactly those characters.
#[verifier::external_body]
pub fn string_of_bytes(v: Vec<u8>) -> (r: String)
    requires
        all_ascii_bytes(v@),
    ensures
        r@ == char_seq_of(v@),
{
    match String::from_utf8(v) {
        Ok(s) => s,
        Err(_) => String::new(),
    }
}

/// The bytes of a string, provided it is pure ASCII; `None` otherwise.
pub fn bytes_of_str(s: &str) -> (r: Option<Vec<u8>>)
    ensures
        match r {
            Some(v) => vstd::utf8::is_ascii_chars(s@) && v@ == byte_seq_of(s@),
            None => !vstd::utf8::is_ascii_chars(s@),
        },
{
    broadcast use vstd::string::group_string_axioms;

    if s.is_ascii() {
        let v = s.as_bytes_vec();
        proof {
            assert(v@ =~= byte_seq_of(s@));
        }
        Some(v)
    } else {
        None
    }
}

} // verus!
