//! Content identities.
use vstd::prelude::*;
use vstd::utf8::*;

verus! {

/// What the crate `blake3` gives for the hash of a byte sequence, written as
/// lower-case hexadecimal digits.
pub uninterp spec fn blake3_hex(bytes: Seq<u8>) -> Seq<char>;

/// `blake3::hash` and `Hash::to_hex` of the crate `blake3`: the hash of the
/// bytes, which depends on nothing else, as sixty-four hexadecimal digits.
#[verifier::external_body]
fn hash_hex(bytes: &[u8]) -> (hex: String)
    ensures
        hex@ == blake3_hex(bytes@),
        hex@.len() == 64,
{
    blake3::hash(bytes).to_hex().to_string()
}

/// The identity of a text: the hash of its UTF-8 bytes.
pub open spec fn text_identity(text: Seq<char>) -> Seq<char> {
    blake3_hex(encode_utf8(text))
}

/// The identity of file contents.
pub fn content_hash(bytes: &[u8]) -> (hex: String)
    ensures
        hex@ == blake3_hex(bytes@),
        hex@.len() == 64,
{
    hash_hex(bytes)
}

/// The identity of a text.
pub fn text_hash(text: &str) -> (hex: String)
    ensures
        hex@ == text_identity(text@),
        hex@.len() == 64,
{
    hash_hex(text.as_bytes())
}

} // verus!
