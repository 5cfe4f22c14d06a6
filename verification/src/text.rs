//! Decoding the byte strings of meta events into owned text.
//!
//! MIDI stores names as raw bytes with no declared encoding; they are
//! decoded as UTF-8 with the usual replacement of invalid sequences.

use vstd::prelude::*;

verus! {

/// The characters that lossy UTF-8 decoding gives for a byte sequence:
/// valid UTF-8 decoded as itself, invalid sequences replaced. A function
/// of the bytes alone.
pub uninterp spec fn lossy_utf8(bytes: Seq<u8>) -> Seq<char>;

/// Relies on `String::from_utf8_lossy`: decodes the bytes as UTF-8,
/// replacing invalid sequences with the replacement character. The result
/// depends on the bytes alone; bytes that are all ASCII are valid UTF-8
/// and decode to themselves, one character per byte.
#[verifier::external_body]
pub fn lossy_string(bytes: &Vec<u8>) -> (r: String)
    ensures
        r@ == lossy_utf8(bytes@),
        (forall|i: int| 0 <= i < bytes@.len() ==> bytes@[i] < 0x80) ==> r@ == bytes@.map(
            |i: int, b: u8| b as char,
        ),
{
    String::from_utf8_lossy(bytes.as_slice()).into_owned()
}

} // verus!
