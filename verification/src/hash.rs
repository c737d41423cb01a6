//! How a password is kept: as the SHA3-256 digest of its bytes, in
//! hexadecimal.

use crate::hex::{encode_hex, hex};
use sha3::Digest;
use vstd::prelude::*;
use vstd::utf8::encode_utf8;

verus! {

/// The SHA3-256 digest of bytes (FIPS 202), 32 bytes.
pub uninterp spec fn sha3_256(data: Seq<u8>) -> Seq<u8>;

/// `Sha3_256::digest`. Claimed: the result is `sha3_256` of the data, 32
/// bytes.
#[verifier::external_body]
fn digest(data: &[u8]) -> (r: Vec<u8>)
    ensures
        r@ == sha3_256(data@),
        r@.len() == 32,
{
    sha3::Sha3_256::digest(data).to_vec()
}

/// The form in which a password is stored and compared.
pub open spec fn hashed(password: Seq<char>) -> Seq<char> {
    hex(sha3_256(encode_utf8(password)))
}

pub fn hashed_password(password: &String) -> (r: String)
    ensures
        r@ == hashed(password@),
        r@.len() == 64,
{
    let d = digest(password.as_str().as_bytes());
    proof {
        crate::hex::lemma_hex_len(d@);
    }
    encode_hex(d.as_slice())
}

} // verus!
