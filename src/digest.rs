//! One-way digests of passwords, so that credentials are compared without
//! the plaintext.

use vstd::prelude::*;

verus! {

/// The number of characters of every digest: 28 bytes as hex.
pub const DIGEST_LEN: usize = 56;

/// The lowercase hex text of the SHA-224 digest of a text's UTF-8 bytes.
pub uninterp spec fn sha224_hex(text: Seq<char>) -> Seq<char>;

/// Relies on crypto::sha2::Sha224 through crypto::digest::Digest's `input`
/// and `result_str`: the hex text of the 224-bit digest (28 bytes, two
/// characters each), which depends on the input text alone.
#[verifier::external_body]
fn sha224_hex_of(text: &str) -> (r: String)
    ensures
        r@ == sha224_hex(text@),
        r@.len() == DIGEST_LEN,
{
    let mut encoder = crypto::sha2::Sha224::new();
    crypto::digest::Digest::input(&mut encoder, text.as_bytes());
    crypto::digest::Digest::result_str(&mut encoder)
}

/// The digest of a password, as peers compute it.
pub fn digest(pass: &str) -> (r: String)
    ensures
        r@ == sha224_hex(pass@),
        r@.len() == DIGEST_LEN,
{
    sha224_hex_of(pass)
}

} // verus!
