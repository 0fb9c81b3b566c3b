//! SHA-256 digests.
use crate::text::{hex, hex_text};
use vstd::prelude::*;

verus! {

/// The SHA-256 digest of some bytes.
pub uninterp spec fn sha256(data: Seq<u8>) -> Seq<u8>;

/// `Sha256::digest`: 32 bytes that depend on the data alone. The hash function
/// is only named.
#[verifier::external_body]
fn digest_bytes(data: &[u8]) -> (r: Vec<u8>)
    ensures
        r@ == sha256(data@),
        r@.len() == 32,
{
    <sha2::Sha256 as sha2::Digest>::digest(data).to_vec()
}

/// The digest in lower-case hexadecimal.
pub open spec fn sha256_hex(data: Seq<u8>) -> Seq<char> {
    hex(sha256(data))
}

/// The SHA-256 digest of some bytes, in lower-case hexadecimal.
pub fn sha256_text(data: &[u8]) -> (r: String)
    ensures
        r@ == sha256_hex(data@),
        r@.len() == 64,
{
    let bytes = digest_bytes(data);
    hex_text(bytes.as_slice())
}

} // verus!
