//! The BLAKE3 digest of a byte sequence, rendered as lowercase
//! hexadecimal.

use vstd::prelude::*;

verus! {

/// What the BLAKE3 digest of a byte sequence reads as in lowercase
/// hexadecimal; a function of the bytes alone.
pub uninterp spec fn blake3_hex_of(data: Seq<u8>) -> Seq<char>;

/// Relies on `blake3::hash` and `blake3::Hash::to_hex`: the digest of
/// the bytes as 64 lowercase hexadecimal characters, depending on the
/// input bytes alone.
#[verifier::external_body]
fn blake3_hex(data: &[u8]) -> (r: String)
    ensures
        r@ == blake3_hex_of(data@),
        r@.len() == 64,
{
    blake3::hash(data).to_hex().as_str().to_string()
}

/// The BLAKE3 digest of the given bytes, as a string of 64 lowercase
/// hexadecimal characters.
pub fn blake3_hash_bytes(data: &[u8]) -> (r: String)
    ensures
        r@ == blake3_hex_of(data@),
        r@.len() == 64,
{
    blake3_hex(data)
}

} // verus!
