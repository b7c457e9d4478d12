use vstd::prelude::*;

verus! {

/// The lowercase hexadecimal text of the SHA-256 digest of the UTF-8 bytes of `s`.
pub uninterp spec fn sha256_hex(s: Seq<char>) -> Seq<char>;

/// Relies on sha2's `Sha256::digest` and the `LowerHex` formatting of its
/// 32-byte output: two lowercase digits per byte, depending on `s` alone.
#[verifier::external_body]
fn sha256_lower_hex(s: &str) -> (r: String)
    ensures
        r@ == sha256_hex(s@),
        r@.len() == 64,
{
    format!("{:x}", <sha2::Sha256 as sha2::Digest>::digest(s.as_bytes()))
}

/// The group identifier for a shared secret: the SHA-256 digest of the
/// secret, as 64 lowercase hex digits.
pub fn hash_secret(secret: &str) -> (r: String)
    ensures
        r@ == sha256_hex(secret@),
        r@.len() == 64,
{
    sha256_lower_hex(secret)
}

} // verus!
