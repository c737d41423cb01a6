//! NIST P-256 as this crate sees it: byte strings in, byte strings out.
//!
//! Nothing in this file is proved. Each function hands its arguments to the
//! `p256` crate and states, in its contract, what that crate's source and
//! documentation say of the result. The curve arithmetic itself has no model
//! here: what it computes is given a name, and the rest of the crate reasons
//! about the names.

use p256::ecdsa::signature::Signer;
use p256::ecdsa::signature::Verifier;
use p256::elliptic_curve::sec1::ToEncodedPoint;
use vstd::prelude::*;

verus! {

/// Whether `SecretKey::from_slice` accepts the bytes: a big-endian integer in
/// `1..n`, for `n` the order of the curve.
pub uninterp spec fn scalar_ok(bytes: Seq<u8>) -> bool;

/// Whether `PublicKey::from_sec1_bytes` accepts the bytes: a SEC1 encoding of
/// a point of the curve other than the identity.
pub uninterp spec fn point_ok(bytes: Seq<u8>) -> bool;

/// Whether `Signature::from_slice` accepts the bytes: `r` and `s`, each in
/// `1..n`.
pub uninterp spec fn signature_ok(bytes: Seq<u8>) -> bool;

/// The compressed SEC1 encoding of the generator multiplied by the scalar.
pub uninterp spec fn public_point(scalar: Seq<u8>) -> Seq<u8>;

/// The x-coordinate of the point multiplied by the scalar: what
/// `diffie_hellman` returns as raw secret bytes.
pub uninterp spec fn dh_secret(scalar: Seq<u8>, point: Seq<u8>) -> Seq<u8>;

/// The deterministic ECDSA signature (RFC 6979, SHA-256) of the message under
/// the scalar, `None` where `try_sign` gives up.
pub uninterp spec fn ecdsa_signature(scalar: Seq<u8>, msg: Seq<u8>) -> Option<Seq<u8>>;

/// Whether `verify` accepts the signature of the message under the point.
pub uninterp spec fn ecdsa_accepts(point: Seq<u8>, msg: Seq<u8>, sig: Seq<u8>) -> bool;

/// A private scalar as this crate stores it: 32 bytes that the curve accepts.
pub open spec fn valid_scalar(bytes: Seq<u8>) -> bool {
    bytes.len() == 32 && scalar_ok(bytes)
}

/// A public point as this crate stores and sends it: 33 bytes that the curve
/// accepts, in the compressed encoding, which starts with a 2 or a 3. The
/// curve would take other encodings too; this crate does not.
pub open spec fn valid_point(bytes: Seq<u8>) -> bool {
    bytes.len() == 33 && (bytes[0] == 2 || bytes[0] == 3) && point_ok(bytes)
}

/// A signature as this crate stores and sends it: 64 bytes that the curve
/// accepts.
pub open spec fn valid_signature(bytes: Seq<u8>) -> bool {
    bytes.len() == 64 && signature_ok(bytes)
}

/// An exchange against `point` comes out the same from both sides: whoever
/// holds another scalar and multiplies `point` by it gets what the holder of
/// `scalar` gets from that other scalar's public point.
pub open spec fn agrees(scalar: Seq<u8>, point: Seq<u8>) -> bool {
    forall|other: Seq<u8>|
        valid_scalar(other) ==> #[trigger] dh_secret(other, point) == dh_secret(
            scalar,
            public_point(other),
        )
}

/// A key pair: a valid scalar with the point that belongs to it.
pub open spec fn valid_pair(public: Seq<u8>, private: Seq<u8>) -> bool {
    &&& valid_scalar(private)
    &&& valid_point(public)
    &&& public == public_point(private)
    &&& agrees(private, public)
}

/// `SecretKey::random` on the operating system's generator, as 32 bytes.
/// Claimed: the bytes are a scalar that `SecretKey::from_slice` accepts.
/// Nothing is claimed of which scalar it is.
#[verifier::external_body]
pub(crate) fn random_scalar() -> (r: Vec<u8>)
    ensures
        valid_scalar(r@),
{
    p256::SecretKey::random(&mut rand::rngs::OsRng).to_bytes().to_vec()
}

/// `SecretKey::from_slice` on 32 bytes. Claimed: the answer is `scalar_ok`.
#[verifier::external_body]
pub(crate) fn check_scalar(bytes: &[u8]) -> (r: bool)
    requires
        bytes@.len() == 32,
    ensures
        r == scalar_ok(bytes@),
{
    p256::SecretKey::from_slice(bytes).is_ok()
}

/// `PublicKey::from_sec1_bytes`. Claimed: the answer is `point_ok`.
#[verifier::external_body]
pub(crate) fn check_point(bytes: &[u8]) -> (r: bool)
    ensures
        r == point_ok(bytes@),
{
    p256::PublicKey::from_sec1_bytes(bytes).is_ok()
}

/// `Signature::from_slice`. Claimed: the answer is `signature_ok`, and only
/// 64 bytes are accepted.
#[verifier::external_body]
pub(crate) fn check_signature(bytes: &[u8]) -> (r: bool)
    ensures
        r == signature_ok(bytes@),
        r ==> bytes@.len() == 64,
{
    p256::ecdsa::Signature::from_slice(bytes).is_ok()
}

/// `SecretKey::public_key`, encoded with `to_encoded_point(true)`. Claimed:
/// the result is `public_point` of the scalar: 33 bytes, the first a 2 or a 3,
/// that `PublicKey::from_sec1_bytes` accepts; and, because multiplying a point
/// by two scalars gives one point in either order, an exchange against the
/// result agrees with the one made from the other side.
#[verifier::external_body]
pub(crate) fn derive_public(scalar: &[u8]) -> (r: Vec<u8>)
    requires
        valid_scalar(scalar@),
    ensures
        r@ == public_point(scalar@),
        valid_point(r@),
        agrees(scalar@, r@),
{
    let secret = p256::SecretKey::from_slice(scalar).unwrap();
    secret.public_key().to_encoded_point(true).as_bytes().to_vec()
}

/// `p256::ecdh::diffie_hellman`, then `raw_secret_bytes`. Claimed: the result
/// is `dh_secret` of the arguments, 32 bytes.
#[verifier::external_body]
pub(crate) fn ecdh(scalar: &[u8], point: &[u8]) -> (r: Vec<u8>)
    requires
        valid_scalar(scalar@),
        valid_point(point@),
    ensures
        r@ == dh_secret(scalar@, point@),
        r@.len() == 32,
{
    let secret = p256::SecretKey::from_slice(scalar).unwrap();
    let public = p256::PublicKey::from_sec1_bytes(point).unwrap();
    let shared = p256::ecdh::diffie_hellman(secret.to_nonzero_scalar(), public.as_affine());
    shared.raw_secret_bytes().to_vec()
}

/// `SigningKey::try_sign`. Claimed: the result is `ecdsa_signature` of the
/// arguments; a signature that comes back is 64 bytes that
/// `Signature::from_slice` accepts, and `verify` accepts it for this message
/// under the scalar's public point.
#[verifier::external_body]
pub(crate) fn ecdsa_sign(scalar: &[u8], msg: &[u8]) -> (r: Option<Vec<u8>>)
    requires
        valid_scalar(scalar@),
    ensures
        r is Some <==> ecdsa_signature(scalar@, msg@) is Some,
        r matches Some(sig) ==> {
            &&& ecdsa_signature(scalar@, msg@) == Some(sig@)
            &&& valid_signature(sig@)
            &&& ecdsa_accepts(public_point(scalar@), msg@, sig@)
        },
{
    let key = p256::ecdsa::SigningKey::from_slice(scalar).unwrap();
    let signed: Result<p256::ecdsa::Signature, p256::ecdsa::Error> = key.try_sign(msg);
    match signed {
        Ok(sig) => Some(sig.to_vec()),
        Err(_) => None,
    }
}

/// `VerifyingKey::verify`. Claimed: the answer is `ecdsa_accepts`.
#[verifier::external_body]
pub(crate) fn ecdsa_verify(point: &[u8], msg: &[u8], sig: &[u8]) -> (r: bool)
    requires
        valid_point(point@),
        valid_signature(sig@),
    ensures
        r == ecdsa_accepts(point@, msg@, sig@),
{
    let key = p256::ecdsa::VerifyingKey::from_sec1_bytes(point).unwrap();
    let sig = p256::ecdsa::Signature::from_slice(sig).unwrap();
    key.verify(msg, &sig).is_ok()
}

} // verus!
