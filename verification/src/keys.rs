//! Keys by role. Each role is a type of its own, so that a key cannot stand
//! where one of another role is expected; all of them are points and scalars
//! of one curve, held as the bytes in which they are stored and sent.

use crate::curve::{
    check_point, check_scalar, check_signature, derive_public, dh_secret, ecdh,
    ecdsa_accepts, ecdsa_sign, ecdsa_signature, ecdsa_verify, public_point, random_scalar,
    valid_pair, valid_point, valid_scalar, valid_signature,
};
use crate::error::X3dhError;
use crate::wire::{
    bytes_eq, field, field_at, get_field, get_u16, le_at, le_bytes, lemma_field_at_exact,
    lemma_field_at_written, lemma_le_at_exact, lemma_le_at_written, lemma_le_bytes_len,
    lemma_radix_values, put_field, put_u16, radix,
};
use vstd::prelude::*;
use vstd::slice::slice_to_vec;

verus! {

/// The bytes of a key pair: the public point, then the private scalar, each a
/// field.
pub open spec fn encode_pair(public: Seq<u8>, private: Seq<u8>) -> Seq<u8> {
    field(public) + field(private)
}

/// The two fields that `s` is made of, where it is made of two fields and
/// nothing else.
pub open spec fn decode_pair(s: Seq<u8>) -> Option<(Seq<u8>, Seq<u8>)> {
    match field_at(s, 0) {
        Some((public, p)) => match field_at(s, p) {
            Some((private, q)) => if q == s.len() {
                Some((public, private))
            } else {
                None
            },
            None => None,
        },
        None => None,
    }
}

/// The bytes of a one-time key pair: those of a key pair, then the index in
/// two bytes.
pub open spec fn encode_indexed_pair(public: Seq<u8>, private: Seq<u8>, index: u16) -> Seq<u8> {
    field(public) + field(private) + le_bytes(index as nat, 2)
}

/// The two fields and the index that `s` is made of, where it is made of
/// these and nothing else.
pub open spec fn decode_indexed_pair(s: Seq<u8>) -> Option<(Seq<u8>, Seq<u8>, u16)> {
    match field_at(s, 0) {
        Some((public, p)) => match field_at(s, p) {
            Some((private, q)) => match le_at(s, q, 2) {
                Some((index, end)) => if end == s.len() {
                    Some((public, private, index as u16))
                } else {
                    None
                },
                None => None,
            },
            None => None,
        },
        None => None,
    }
}

/// A private scalar and the public point that it was read with belong
/// together.
pub open spec fn keys_match(public: Seq<u8>, private: Seq<u8>) -> bool {
    valid_scalar(private) && public == public_point(private)
}

/// Decoding the bytes of a key pair gives the pair back.
pub proof fn lemma_pair_round_trip(public: Seq<u8>, private: Seq<u8>)
    requires
        public.len() < radix(8),
        private.len() < radix(8),
    ensures
        decode_pair(encode_pair(public, private)) == Some((public, private)),
{
    let s = encode_pair(public, private);
    lemma_field_at_written(Seq::empty(), public, field(private));
    assert(s =~= Seq::<u8>::empty() + field(public) + field(private));
    lemma_field_at_written(field(public), private, Seq::empty());
    assert(s =~= field(public) + field(private) + Seq::<u8>::empty());
}

/// Bytes that decode as a key pair are the encoding of that pair: no pair has
/// two encodings, and nothing may follow one.
pub proof fn lemma_pair_exact(s: Seq<u8>)
    requires
        decode_pair(s) is Some,
    ensures
        encode_pair(decode_pair(s).unwrap().0, decode_pair(s).unwrap().1) == s,
{
    lemma_field_at_exact(s, 0);
    let (public, p) = field_at(s, 0).unwrap();
    lemma_field_at_exact(s, p);
    assert(s =~= s.subrange(0, p) + s.subrange(p, s.len() as int));
}

/// Decoding the bytes of a one-time key pair gives the pair and its index
/// back.
pub proof fn lemma_indexed_pair_round_trip(public: Seq<u8>, private: Seq<u8>, index: u16)
    requires
        public.len() < radix(8),
        private.len() < radix(8),
    ensures
        decode_indexed_pair(encode_indexed_pair(public, private, index)) == Some(
            (public, private, index),
        ),
{
    let s = encode_indexed_pair(public, private, index);
    let tail = le_bytes(index as nat, 2);
    lemma_radix_values();
    lemma_le_bytes_len(index as nat, 2);
    lemma_field_at_written(Seq::empty(), public, field(private) + tail);
    assert(s =~= Seq::<u8>::empty() + field(public) + (field(private) + tail));
    lemma_field_at_written(field(public), private, tail);
    lemma_le_at_written(field(public) + field(private), index as nat, 2, Seq::empty());
    assert(s =~= field(public) + field(private) + tail + Seq::<u8>::empty());
}

/// Bytes that decode as a one-time key pair are the encoding of what they
/// decode to.
pub proof fn lemma_indexed_pair_exact(s: Seq<u8>)
    requires
        decode_indexed_pair(s) is Some,
    ensures
        ({
            let (public, private, index) = decode_indexed_pair(s).unwrap();
            encode_indexed_pair(public, private, index) == s
        }),
{
    lemma_field_at_exact(s, 0);
    let (public, p) = field_at(s, 0).unwrap();
    lemma_field_at_exact(s, p);
    let (private, q) = field_at(s, p).unwrap();
    lemma_le_at_exact(s, q, 2);
    lemma_radix_values();
    assert(s =~= s.subrange(0, p) + s.subrange(p, q) + s.subrange(q, s.len() as int));
}

fn write_pair(public: &[u8], private: &[u8]) -> (r: Vec<u8>)
    ensures
        r@ == encode_pair(public@, private@),
{
    let mut out: Vec<u8> = Vec::new();
    put_field(&mut out, public);
    put_field(&mut out, private);
    assert(out@ =~= encode_pair(public@, private@));
    out
}

fn read_pair(bytes: &[u8]) -> (r: Option<(Vec<u8>, Vec<u8>)>)
    ensures
        r is Some <==> decode_pair(bytes@) is Some,
        r matches Some((public, private)) ==> decode_pair(bytes@) == Some((public@, private@)),
{
    match get_field(bytes, 0) {
        None => None,
        Some((public, p)) => match get_field(bytes, p) {
            None => None,
            Some((private, q)) => if q == bytes.len() {
                Some((public, private))
            } else {
                None
            },
        },
    }
}

/// An ECDSA signature: `r` and `s`, 64 bytes.
#[derive(Debug, PartialEq, Eq)]
pub struct Signature(Vec<u8>);

impl View for Signature {
    type V = Seq<u8>;

    closed spec fn view(&self) -> Seq<u8> {
        self.0@
    }
}

impl Clone for Signature {
    fn clone(&self) -> (r: Self)
        ensures
            r@ == self@,
    {
        proof {
            use_type_invariant(self);
        }
        Signature(self.0.clone())
    }
}

impl Signature {
    /// What every value of the type is: 64 bytes that the curve accepts.
    #[verifier::type_invariant]
    pub open spec fn wf(&self) -> bool {
        valid_signature(self@)
    }

    pub fn to_bytes(&self) -> (r: Vec<u8>)
        ensures
            r@ == self@,
            valid_signature(r@),
    {
        proof {
            use_type_invariant(self);
        }
        self.0.clone()
    }

    /// The signature that the 64 bytes spell; `MalformedBundle` for bytes that
    /// are no signature.
    pub fn from_bytes(bytes: &[u8]) -> (r: Result<Self, X3dhError>)
        ensures
            r is Ok <==> valid_signature(bytes@),
            r matches Ok(sig) ==> sig@ == bytes@,
            r matches Err(e) ==> e == X3dhError::MalformedBundle,
    {
        if check_signature(bytes) {
            Ok(Signature(slice_to_vec(bytes)))
        } else {
            Err(X3dhError::MalformedBundle)
        }
    }
}

/// A private scalar, 32 bytes, big-endian.
#[derive(Debug, PartialEq, Eq)]
pub struct PrivateKey(Vec<u8>);

impl View for PrivateKey {
    type V = Seq<u8>;

    closed spec fn view(&self) -> Seq<u8> {
        self.0@
    }
}

impl Clone for PrivateKey {
    fn clone(&self) -> (r: Self)
        ensures
            r@ == self@,
    {
        proof {
            use_type_invariant(self);
        }
        PrivateKey(self.0.clone())
    }
}

impl PrivateKey {
    /// What every value of the type is: a scalar of the curve.
    #[verifier::type_invariant]
    pub open spec fn wf(&self) -> bool {
        valid_scalar(self@)
    }

    /// A fresh scalar from the operating system's generator.
    pub fn generate() -> (r: Self)
        ensures
            valid_scalar(r@),
    {
        PrivateKey(random_scalar())
    }

    pub fn to_bytes(&self) -> (r: Vec<u8>)
        ensures
            r@ == self@,
            valid_scalar(r@),
    {
        proof {
            use_type_invariant(self);
        }
        self.0.clone()
    }

    /// The scalar that the 32 bytes spell; `MalformedKey` for bytes that are
    /// no scalar of the curve.
    pub fn from_bytes(bytes: &[u8]) -> (r: Result<Self, X3dhError>)
        ensures
            r is Ok <==> valid_scalar(bytes@),
            r matches Ok(key) ==> key@ == bytes@,
            r matches Err(e) ==> e == X3dhError::MalformedKey,
    {
        if bytes.len() == 32 && check_scalar(bytes) {
            Ok(PrivateKey(slice_to_vec(bytes)))
        } else {
            Err(X3dhError::MalformedKey)
        }
    }

    fn scalar(&self) -> (r: &[u8])
        ensures
            r@ == self@,
            valid_scalar(r@),
    {
        proof {
            use_type_invariant(self);
        }
        self.0.as_slice()
    }
}

/// What the public keys of all roles have in common. The view of a key is its
/// compressed SEC1 encoding, 33 bytes.
pub trait Key: Sized + View<V = Seq<u8>> {
    /// The public key that belongs to a private scalar.
    fn generate_for_private(private: &PrivateKey) -> (r: Self)
        ensures
            valid_pair(r@, private@),
    ;

    /// The point, as its compressed SEC1 encoding.
    fn key(&self) -> (r: &Vec<u8>)
        ensures
            r@ == self@,
            valid_point(r@),
    ;

    fn to_bytes(&self) -> (r: Vec<u8>)
        ensures
            r@ == self@,
            valid_point(r@),
    {
        self.key().clone()
    }

    /// The key that the 33 bytes spell; `MalformedKey` for bytes that are not
    /// the compressed encoding of a point of the curve, other encodings of a
    /// point among them.
    fn from_bytes(bytes: &[u8]) -> (r: Result<Self, X3dhError>)
        ensures
            r is Ok <==> valid_point(bytes@),
            r matches Ok(key) ==> key@ == bytes@,
            r matches Err(e) ==> e == X3dhError::MalformedKey,
    ;
}

fn public_for(private: &PrivateKey) -> (r: Vec<u8>)
    ensures
        valid_pair(r@, private@),
{
    derive_public(private.scalar())
}

fn point_from(bytes: &[u8]) -> (r: Option<Vec<u8>>)
    ensures
        r is Some <==> valid_point(bytes@),
        r matches Some(point) ==> point@ == bytes@,
{
    if bytes.len() == 33 && (bytes[0] == 2 || bytes[0] == 3) && check_point(bytes) {
        Some(slice_to_vec(bytes))
    } else {
        None
    }
}

/// The public half of an identity key.
#[derive(Debug, PartialEq, Eq)]
pub struct IdentityKeyPublic(Vec<u8>);

impl View for IdentityKeyPublic {
    type V = Seq<u8>;

    closed spec fn view(&self) -> Seq<u8> {
        self.0@
    }
}

impl Clone for IdentityKeyPublic {
    fn clone(&self) -> (r: Self)
        ensures
            r@ == self@,
    {
        proof {
            use_type_invariant(self);
        }
        IdentityKeyPublic(self.0.clone())
    }
}

impl IdentityKeyPublic {
    /// What every value of the type is: a point of the curve.
    #[verifier::type_invariant]
    pub open spec fn wf(&self) -> bool {
        valid_point(self@)
    }

    /// Whether `signature` is one of `msg` under this key: `SignatureInvalid`
    /// where it is not.
    pub fn verify(&self, msg: &[u8], signature: &Signature) -> (r: Result<(), X3dhError>)
        ensures
            r is Ok <==> ecdsa_accepts(self@, msg@, signature@),
            r matches Err(e) ==> e == X3dhError::SignatureInvalid,
    {
        proof {
            use_type_invariant(self);
            use_type_invariant(signature);
        }
        if ecdsa_verify(self.0.as_slice(), msg, signature.0.as_slice()) {
            Ok(())
        } else {
            Err(X3dhError::SignatureInvalid)
        }
    }
}

impl Key for IdentityKeyPublic {
    fn generate_for_private(private: &PrivateKey) -> (r: Self) {
        IdentityKeyPublic(public_for(private))
    }

    fn key(&self) -> (r: &Vec<u8>) {
        proof {
            use_type_invariant(self);
        }
        &self.0
    }

    fn from_bytes(bytes: &[u8]) -> (r: Result<Self, X3dhError>) {
        match point_from(bytes) {
            Some(point) => Ok(IdentityKeyPublic(point)),
            None => Err(X3dhError::MalformedKey),
        }
    }
}

/// The public half of an ephemeral key.
#[derive(Debug, PartialEq, Eq)]
pub struct EphemeralKeyPublic(Vec<u8>);

impl View for EphemeralKeyPublic {
    type V = Seq<u8>;

    closed spec fn view(&self) -> Seq<u8> {
        self.0@
    }
}

impl Clone for EphemeralKeyPublic {
    fn clone(&self) -> (r: Self)
        ensures
            r@ == self@,
    {
        proof {
            use_type_invariant(self);
        }
        EphemeralKeyPublic(self.0.clone())
    }
}

impl EphemeralKeyPublic {
    /// What every value of the type is: a point of the curve.
    #[verifier::type_invariant]
    pub open spec fn wf(&self) -> bool {
        valid_point(self@)
    }
}

impl Key for EphemeralKeyPublic {
    fn generate_for_private(private: &PrivateKey) -> (r: Self) {
        EphemeralKeyPublic(public_for(private))
    }

    fn key(&self) -> (r: &Vec<u8>) {
        proof {
            use_type_invariant(self);
        }
        &self.0
    }

    fn from_bytes(bytes: &[u8]) -> (r: Result<Self, X3dhError>) {
        match point_from(bytes) {
            Some(point) => Ok(EphemeralKeyPublic(point)),
            None => Err(X3dhError::MalformedKey),
        }
    }
}

/// The public half of a signed pre-key.
#[derive(Debug, PartialEq, Eq)]
pub struct SignedPreKeyPublic(Vec<u8>);

impl View for SignedPreKeyPublic {
    type V = Seq<u8>;

    closed spec fn view(&self) -> Seq<u8> {
        self.0@
    }
}

impl Clone for SignedPreKeyPublic {
    fn clone(&self) -> (r: Self)
        ensures
            r@ == self@,
    {
        proof {
            use_type_invariant(self);
        }
        SignedPreKeyPublic(self.0.clone())
    }
}

impl SignedPreKeyPublic {
    /// What every value of the type is: a point of the curve.
    #[verifier::type_invariant]
    pub open spec fn wf(&self) -> bool {
        valid_point(self@)
    }
}

impl Key for SignedPreKeyPublic {
    fn generate_for_private(private: &PrivateKey) -> (r: Self) {
        SignedPreKeyPublic(public_for(private))
    }

    fn key(&self) -> (r: &Vec<u8>) {
        proof {
            use_type_invariant(self);
        }
        &self.0
    }

    fn from_bytes(bytes: &[u8]) -> (r: Result<Self, X3dhError>) {
        match point_from(bytes) {
            Some(point) => Ok(SignedPreKeyPublic(point)),
            None => Err(X3dhError::MalformedKey),
        }
    }
}

/// The public half of a one-time pre-key.
#[derive(Debug, PartialEq, Eq)]
pub struct OneTimePreKeyPublic(Vec<u8>);

impl View for OneTimePreKeyPublic {
    type V = Seq<u8>;

    closed spec fn view(&self) -> Seq<u8> {
        self.0@
    }
}

impl Clone for OneTimePreKeyPublic {
    fn clone(&self) -> (r: Self)
        ensures
            r@ == self@,
    {
        proof {
            use_type_invariant(self);
        }
        OneTimePreKeyPublic(self.0.clone())
    }
}

impl OneTimePreKeyPublic {
    /// What every value of the type is: a point of the curve.
    #[verifier::type_invariant]
    pub open spec fn wf(&self) -> bool {
        valid_point(self@)
    }
}

impl Key for OneTimePreKeyPublic {
    fn generate_for_private(private: &PrivateKey) -> (r: Self) {
        OneTimePreKeyPublic(public_for(private))
    }

    fn key(&self) -> (r: &Vec<u8>) {
        proof {
            use_type_invariant(self);
        }
        &self.0
    }

    fn from_bytes(bytes: &[u8]) -> (r: Result<Self, X3dhError>) {
        match point_from(bytes) {
            Some(point) => Ok(OneTimePreKeyPublic(point)),
            None => Err(X3dhError::MalformedKey),
        }
    }
}

/// What one Diffie-Hellman exchange gives: the x-coordinate of the shared
/// point, 32 bytes, not hashed.
pub struct SharedSecret(Vec<u8>);

impl View for SharedSecret {
    type V = Seq<u8>;

    closed spec fn view(&self) -> Seq<u8> {
        self.0@
    }
}

impl SharedSecret {
    pub fn to_bytes(&self) -> (r: Vec<u8>)
        ensures
            r@ == self@,
    {
        self.0.clone()
    }
}

/// The secret that two parties share after a handshake: the key of their
/// message cipher.
#[derive(Debug, PartialEq, Eq)]
pub struct X3dhSharedSecret(Vec<u8>);

impl View for X3dhSharedSecret {
    type V = Seq<u8>;

    closed spec fn view(&self) -> Seq<u8> {
        self.0@
    }
}

impl Clone for X3dhSharedSecret {
    fn clone(&self) -> (r: Self)
        ensures
            r@ == self@,
    {
        X3dhSharedSecret(self.0.clone())
    }
}

impl X3dhSharedSecret {
    pub fn to_bytes(&self) -> (r: &[u8])
        ensures
            r@ == self@,
    {
        self.0.as_slice()
    }

    pub fn from_bytes(bytes: &[u8]) -> (r: Self)
        ensures
            r@ == bytes@,
    {
        X3dhSharedSecret(slice_to_vec(bytes))
    }
}

/// What the key pairs of all roles have in common.
pub trait KeyPair: Sized {
    type PairPublicKey: Key;

    /// The public point, as its compressed SEC1 encoding.
    spec fn public_view(&self) -> Seq<u8>;

    /// The private scalar, 32 bytes.
    spec fn private_view(&self) -> Seq<u8>;

    /// The bytes that `to_bytes` writes.
    spec fn encoding(&self) -> Seq<u8>;

    /// Whether `from_bytes` reads a pair from the bytes: they are the encoding
    /// of a scalar of the curve and of the point that belongs to it.
    spec fn decodes(bytes: Seq<u8>) -> bool;

    /// A fresh pair, its scalar from the operating system's generator.
    fn generate() -> (r: Self)
        ensures
            valid_pair(r.public_view(), r.private_view()),
    ;

    fn public(&self) -> (r: &Self::PairPublicKey)
        ensures
            r@ == self.public_view(),
            valid_pair(self.public_view(), self.private_view()),
    ;

    fn private(&self) -> (r: &PrivateKey)
        ensures
            r@ == self.private_view(),
            valid_pair(self.public_view(), self.private_view()),
    ;

    /// Raw ECDH between this pair's scalar and a public key of any role.
    fn diffie_hellman<K: Key>(&self, key: &K) -> (r: SharedSecret)
        ensures
            r@ == dh_secret(self.private_view(), key@),
            r@.len() == 32,
    {
        let scalar = self.private().scalar();
        let point = key.key();
        SharedSecret(ecdh(scalar, point.as_slice()))
    }

    /// The bytes of the pair, which `from_bytes` reads back as this pair.
    fn to_bytes(&self) -> (r: Vec<u8>)
        ensures
            r@ == self.encoding(),
            Self::decodes(r@),
    ;

    /// The pair that the bytes encode; `MalformedKey` where they encode none.
    fn from_bytes(bytes: &[u8]) -> (r: Result<Self, X3dhError>)
        ensures
            r is Ok <==> Self::decodes(bytes@),
            r matches Ok(pair) ==> pair.encoding() == bytes@ && valid_pair(
                pair.public_view(),
                pair.private_view(),
            ),
            r matches Err(e) ==> e == X3dhError::MalformedKey,
    ;
}

/// Reads a scalar and checks that the point stored with it is its own.
fn checked_pair(bytes: &[u8]) -> (r: Option<PrivateKey>)
    ensures
        r is Some <==> (decode_pair(bytes@) matches Some((public, private)) && keys_match(
            public,
            private,
        )),
        r matches Some(key) ==> {
            &&& encode_pair(public_point(key@), key@) == bytes@
            &&& valid_scalar(key@)
        },
{
    match read_pair(bytes) {
        None => None,
        Some((public, private)) => match PrivateKey::from_bytes(private.as_slice()) {
            Err(_) => None,
            Ok(key) => {
                let derived = public_for(&key);
                if bytes_eq(derived.as_slice(), public.as_slice()) {
                    proof {
                        lemma_pair_exact(bytes@);
                    }
                    Some(key)
                } else {
                    None
                }
            },
        },
    }
}

/// An identity key: long-term, the one key that signs.
#[derive(Debug, PartialEq, Eq)]
pub struct IdentityKeyPair(IdentityKeyPublic, PrivateKey);

impl Clone for IdentityKeyPair {
    fn clone(&self) -> (r: Self)
        ensures
            r.public_view() == self.public_view(),
            r.private_view() == self.private_view(),
    {
        proof {
            use_type_invariant(self);
        }
        IdentityKeyPair(self.0.clone(), self.1.clone())
    }
}

impl IdentityKeyPair {
    /// What every value of the type is: a scalar with its own point.
    #[verifier::type_invariant]
    pub open spec fn wf(&self) -> bool {
        valid_pair(self.public_view(), self.private_view())
    }

    /// The signature of `msg` under this key, deterministic; `None` in the one
    /// case where the curve gives none.
    pub fn sign(&self, msg: &[u8]) -> (r: Option<Signature>)
        ensures
            r is Some <==> ecdsa_signature(self.private_view(), msg@) is Some,
            r matches Some(sig) ==> {
                &&& ecdsa_signature(self.private_view(), msg@) == Some(sig@)
                &&& ecdsa_accepts(self.public_view(), msg@, sig@)
            },
    {
        proof {
            use_type_invariant(self);
        }
        match ecdsa_sign(self.1.scalar(), msg) {
            Some(sig) => Some(Signature(sig)),
            None => None,
        }
    }
}

impl KeyPair for IdentityKeyPair {
    type PairPublicKey = IdentityKeyPublic;

    closed spec fn public_view(&self) -> Seq<u8> {
        self.0@
    }

    closed spec fn private_view(&self) -> Seq<u8> {
        self.1@
    }

    open spec fn encoding(&self) -> Seq<u8> {
        encode_pair(self.public_view(), self.private_view())
    }

    open spec fn decodes(bytes: Seq<u8>) -> bool {
        decode_pair(bytes) matches Some((public, private)) && keys_match(public, private)
    }

    fn generate() -> (r: Self) {
        let private = PrivateKey::generate();
        IdentityKeyPair(IdentityKeyPublic::generate_for_private(&private), private)
    }

    fn public(&self) -> (r: &Self::PairPublicKey) {
        proof {
            use_type_invariant(self);
        }
        &self.0
    }

    fn private(&self) -> (r: &PrivateKey) {
        proof {
            use_type_invariant(self);
        }
        &self.1
    }

    fn to_bytes(&self) -> (r: Vec<u8>) {
        proof {
            use_type_invariant(self);
            lemma_radix_values();
            lemma_pair_round_trip(self.public_view(), self.private_view());
        }
        write_pair(self.0.key().as_slice(), self.1.scalar())
    }

    fn from_bytes(bytes: &[u8]) -> (r: Result<Self, X3dhError>) {
        match checked_pair(bytes) {
            Some(private) => Ok(
                IdentityKeyPair(IdentityKeyPublic::generate_for_private(&private), private),
            ),
            None => Err(X3dhError::MalformedKey),
        }
    }
}

/// An ephemeral key: made for one outbound handshake.
#[derive(Debug, PartialEq, Eq)]
pub struct EphemeralKeyPair(EphemeralKeyPublic, PrivateKey);

impl Clone for EphemeralKeyPair {
    fn clone(&self) -> (r: Self)
        ensures
            r.public_view() == self.public_view(),
            r.private_view() == self.private_view(),
    {
        proof {
            use_type_invariant(self);
        }
        EphemeralKeyPair(self.0.clone(), self.1.clone())
    }
}

impl EphemeralKeyPair {
    /// What every value of the type is: a scalar with its own point.
    #[verifier::type_invariant]
    pub open spec fn wf(&self) -> bool {
        valid_pair(self.public_view(), self.private_view())
    }
}

impl KeyPair for EphemeralKeyPair {
    type PairPublicKey = EphemeralKeyPublic;

    closed spec fn public_view(&self) -> Seq<u8> {
        self.0@
    }

    closed spec fn private_view(&self) -> Seq<u8> {
        self.1@
    }

    open spec fn encoding(&self) -> Seq<u8> {
        encode_pair(self.public_view(), self.private_view())
    }

    open spec fn decodes(bytes: Seq<u8>) -> bool {
        decode_pair(bytes) matches Some((public, private)) && keys_match(public, private)
    }

    fn generate() -> (r: Self) {
        let private = PrivateKey::generate();
        EphemeralKeyPair(EphemeralKeyPublic::generate_for_private(&private), private)
    }

    fn public(&self) -> (r: &Self::PairPublicKey) {
        proof {
            use_type_invariant(self);
        }
        &self.0
    }

    fn private(&self) -> (r: &PrivateKey) {
        proof {
            use_type_invariant(self);
        }
        &self.1
    }

    fn to_bytes(&self) -> (r: Vec<u8>) {
        proof {
            use_type_invariant(self);
            lemma_radix_values();
            lemma_pair_round_trip(self.public_view(), self.private_view());
        }
        write_pair(self.0.key().as_slice(), self.1.scalar())
    }

    fn from_bytes(bytes: &[u8]) -> (r: Result<Self, X3dhError>) {
        match checked_pair(bytes) {
            Some(private) => Ok(
                EphemeralKeyPair(EphemeralKeyPublic::generate_for_private(&private), private),
            ),
            None => Err(X3dhError::MalformedKey),
        }
    }
}

/// A signed pre-key: medium-term, published under the identity key's
/// signature.
#[derive(Debug, PartialEq, Eq)]
pub struct SignedPreKeyPair(SignedPreKeyPublic, PrivateKey);

impl Clone for SignedPreKeyPair {
    fn clone(&self) -> (r: Self)
        ensures
            r.public_view() == self.public_view(),
            r.private_view() == self.private_view(),
    {
        proof {
            use_type_invariant(self);
        }
        SignedPreKeyPair(self.0.clone(), self.1.clone())
    }
}

impl SignedPreKeyPair {
    /// What every value of the type is: a scalar with its own point.
    #[verifier::type_invariant]
    pub open spec fn wf(&self) -> bool {
        valid_pair(self.public_view(), self.private_view())
    }
}

impl KeyPair for SignedPreKeyPair {
    type PairPublicKey = SignedPreKeyPublic;

    closed spec fn public_view(&self) -> Seq<u8> {
        self.0@
    }

    closed spec fn private_view(&self) -> Seq<u8> {
        self.1@
    }

    open spec fn encoding(&self) -> Seq<u8> {
        encode_pair(self.public_view(), self.private_view())
    }

    open spec fn decodes(bytes: Seq<u8>) -> bool {
        decode_pair(bytes) matches Some((public, private)) && keys_match(public, private)
    }

    fn generate() -> (r: Self) {
        let private = PrivateKey::generate();
        SignedPreKeyPair(SignedPreKeyPublic::generate_for_private(&private), private)
    }

    fn public(&self) -> (r: &Self::PairPublicKey) {
        proof {
            use_type_invariant(self);
        }
        &self.0
    }

    fn private(&self) -> (r: &PrivateKey) {
        proof {
            use_type_invariant(self);
        }
        &self.1
    }

    fn to_bytes(&self) -> (r: Vec<u8>) {
        proof {
            use_type_invariant(self);
            lemma_radix_values();
            lemma_pair_round_trip(self.public_view(), self.private_view());
        }
        write_pair(self.0.key().as_slice(), self.1.scalar())
    }

    fn from_bytes(bytes: &[u8]) -> (r: Result<Self, X3dhError>) {
        match checked_pair(bytes) {
            Some(private) => Ok(
                SignedPreKeyPair(SignedPreKeyPublic::generate_for_private(&private), private),
            ),
            None => Err(X3dhError::MalformedKey),
        }
    }
}

/// A one-time pre-key: used for one inbound handshake, and found again by its
/// index.
#[derive(Debug, PartialEq, Eq)]
pub struct OneTimeKeyPair(OneTimePreKeyPublic, PrivateKey, u16);

impl Clone for OneTimeKeyPair {
    fn clone(&self) -> (r: Self)
        ensures
            r.public_view() == self.public_view(),
            r.private_view() == self.private_view(),
            r.index_view() == self.index_view(),
    {
        proof {
            use_type_invariant(self);
        }
        OneTimeKeyPair(self.0.clone(), self.1.clone(), self.2)
    }
}

impl OneTimeKeyPair {
    /// What every value of the type is: a scalar with its own point.
    #[verifier::type_invariant]
    pub open spec fn wf(&self) -> bool {
        valid_pair(self.public_view(), self.private_view())
    }

    /// The index under which the pair is published and found again.
    pub closed spec fn index_view(&self) -> u16 {
        self.2
    }

    /// The same pair under another index.
    pub fn with_index(self, index: u16) -> (r: Self)
        ensures
            r.public_view() == self.public_view(),
            r.private_view() == self.private_view(),
            r.index_view() == index,
    {
        proof {
            use_type_invariant(&self);
        }
        OneTimeKeyPair(self.0, self.1, index)
    }

    pub fn index(&self) -> (r: u16)
        ensures
            r == self.index_view(),
    {
        self.2
    }
}

impl KeyPair for OneTimeKeyPair {
    type PairPublicKey = OneTimePreKeyPublic;

    closed spec fn public_view(&self) -> Seq<u8> {
        self.0@
    }

    closed spec fn private_view(&self) -> Seq<u8> {
        self.1@
    }

    open spec fn encoding(&self) -> Seq<u8> {
        encode_indexed_pair(self.public_view(), self.private_view(), self.index_view())
    }

    open spec fn decodes(bytes: Seq<u8>) -> bool {
        decode_indexed_pair(bytes) matches Some((public, private, index)) && keys_match(
            public,
            private,
        )
    }

    /// A fresh pair under index 0.
    fn generate() -> (r: Self)
        ensures
            r.index_view() == 0,
    {
        let private = PrivateKey::generate();
        OneTimeKeyPair(OneTimePreKeyPublic::generate_for_private(&private), private, 0u16)
    }

    fn public(&self) -> (r: &Self::PairPublicKey) {
        proof {
            use_type_invariant(self);
        }
        &self.0
    }

    fn private(&self) -> (r: &PrivateKey) {
        proof {
            use_type_invariant(self);
        }
        &self.1
    }

    fn to_bytes(&self) -> (r: Vec<u8>) {
        let mut out: Vec<u8> = Vec::new();
        put_field(&mut out, self.0.key().as_slice());
        put_field(&mut out, self.1.scalar());
        put_u16(&mut out, self.2);
        proof {
            use_type_invariant(self);
            assert(out@ =~= self.encoding());
            lemma_indexed_pair_round_trip(self.public_view(), self.private_view(), self.2);
        }
        out
    }

    fn from_bytes(bytes: &[u8]) -> (r: Result<Self, X3dhError>) {
        let (public, p) = match get_field(bytes, 0) {
            Some(read) => read,
            None => { return Err(X3dhError::MalformedKey); },
        };
        let (private, q) = match get_field(bytes, p) {
            Some(read) => read,
            None => { return Err(X3dhError::MalformedKey); },
        };
        let (index, end) = match get_u16(bytes, q) {
            Some(read) => read,
            None => { return Err(X3dhError::MalformedKey); },
        };
        if end != bytes.len() {
            return Err(X3dhError::MalformedKey);
        }
        let key = match PrivateKey::from_bytes(private.as_slice()) {
            Ok(key) => key,
            Err(_) => { return Err(X3dhError::MalformedKey); },
        };
        let derived = OneTimePreKeyPublic::generate_for_private(&key);
        if !bytes_eq(derived.key().as_slice(), public.as_slice()) {
            return Err(X3dhError::MalformedKey);
        }
        proof {
            lemma_indexed_pair_exact(bytes@);
        }
        Ok(OneTimeKeyPair(derived, key, index))
    }
}

} // verus!
