use vstd::prelude::*;
use sha2::Digest;
use crate::text::{hex_of, hex_chars, string_of};

verus! {

/// The SHA-256 digest of a byte sequence.
pub uninterp spec fn sha256_digest(data: Seq<u8>) -> Seq<u8>;

/// Calls `sha2::Sha256` (`new`, `update`, `finalize`) on `data`. The digest
/// is named `sha256_digest` of the bytes; the crate fixes its output size
/// at 32 bytes. Nothing else is claimed of the digest.
#[verifier::external_body]
fn sha256(data: &[u8]) -> (r: Vec<u8>)
    ensures
        r@ == sha256_digest(data@),
        r@.len() == 32,
{
    let mut hasher = sha2::Sha256::new();
    hasher.update(data);
    hasher.finalize().to_vec()
}

/// The lowercase hexadecimal writing of the bytes, two digits per byte.
pub fn hex_bytes(bytes: &[u8]) -> (r: String)
    ensures
        r@ == hex_of(bytes@),
{
    let cs = hex_chars(bytes);
    string_of(cs.as_slice())
}

/// The text of a SHA-256 hash: the digest of the UTF-8 bytes of `s`, in hex.
pub open spec fn spec_hash_text(s: Seq<char>) -> Seq<char> {
    hex_of(sha256_digest(vstd::utf8::encode_utf8(s)))
}

/// The hexadecimal SHA-256 digest of the UTF-8 bytes of `value`.
pub fn hash_string(value: &str) -> (r: String)
    ensures
        r@ == spec_hash_text(value@),
        r@.len() == 64,
{
    let digest = sha256(value.as_bytes());
    hex_bytes(digest.as_slice())
}

/// The hash that binds an approval to its payload: the hash of the
/// payload's JSON text.
pub fn payload_hash(payload_text: &str) -> (r: String)
    ensures
        r@ == spec_hash_text(payload_text@),
        r@.len() == 64,
{
    hash_string(payload_text)
}

} // verus!
