//! What travels during a handshake: the bundle a user publishes, the bundle a
//! peer is handed, and the message that lets the responder follow.
//!
//! Each comes in two forms. The typed form holds keys and a signature that
//! have been checked against the curve. The binary form holds the same as
//! byte strings, as a directory stores them without looking inside.

use crate::curve::{valid_point, valid_signature};
use crate::error::X3dhError;
use crate::keys::{
    EphemeralKeyPublic, IdentityKeyPublic, Key, KeyPair, OneTimeKeyPair, OneTimePreKeyPublic,
    Signature, SignedPreKeyPublic,
};
use crate::wire::{
    field, field_at, get_field, get_u16, le_at, le_bytes, lemma_field_at_exact,
    lemma_field_at_written, lemma_le_at_exact, lemma_le_at_written, lemma_le_bytes_len,
    lemma_radix_values, put_field, put_u16, radix,
};
use vstd::prelude::*;

verus! {

/// The bytes of a one-time pre-key as it is published: the point as a field,
/// then the index in two bytes.
pub open spec fn encode_one_time(key: Seq<u8>, index: u16) -> Seq<u8> {
    field(key) + le_bytes(index as nat, 2)
}

/// The field and the index that `s` is made of, where it is made of these and
/// nothing else.
pub open spec fn decode_one_time(s: Seq<u8>) -> Option<(Seq<u8>, u16)> {
    match field_at(s, 0) {
        Some((key, p)) => match le_at(s, p, 2) {
            Some((index, end)) => if end == s.len() {
                Some((key, index as u16))
            } else {
                None
            },
            None => None,
        },
        None => None,
    }
}

/// What reading a published one-time pre-key gives: the key and its index;
/// `MalformedBundle` for bytes that are not framed as one, `MalformedKey` for
/// a frame around bytes that are no point of the curve.
pub open spec fn parse_one_time(s: Seq<u8>) -> Result<(Seq<u8>, u16), X3dhError> {
    match decode_one_time(s) {
        None => Err(X3dhError::MalformedBundle),
        Some((key, index)) => if valid_point(key) {
            Ok((key, index))
        } else {
            Err(X3dhError::MalformedKey)
        },
    }
}

/// What reading a list of published one-time pre-keys gives: all of them in
/// order, or the error of the first that cannot be read.
pub open spec fn parse_one_times(blobs: Seq<Seq<u8>>) -> Result<Seq<(Seq<u8>, u16)>, X3dhError>
    decreases blobs.len(),
{
    if blobs.len() == 0 {
        Ok(Seq::empty())
    } else {
        match parse_one_times(blobs.drop_last()) {
            Err(e) => Err(e),
            Ok(front) => match parse_one_time(blobs.last()) {
                Err(e) => Err(e),
                Ok(key) => Ok(front.push(key)),
            },
        }
    }
}

/// The published form of each one-time pre-key of a list.
pub open spec fn encode_one_times(keys: Seq<(Seq<u8>, u16)>) -> Seq<Seq<u8>> {
    keys.map_values(|k: (Seq<u8>, u16)| encode_one_time(k.0, k.1))
}

/// Every key of the list is a point of the curve.
pub open spec fn valid_one_times(keys: Seq<(Seq<u8>, u16)>) -> bool {
    forall|i: int| 0 <= i < keys.len() ==> valid_point(#[trigger] keys[i].0)
}

/// Decoding a published one-time pre-key gives the key and its index back.
pub proof fn lemma_one_time_round_trip(key: Seq<u8>, index: u16)
    requires
        key.len() < radix(8),
    ensures
        decode_one_time(encode_one_time(key, index)) == Some((key, index)),
{
    let s = encode_one_time(key, index);
    let tail = le_bytes(index as nat, 2);
    lemma_radix_values();
    lemma_le_bytes_len(index as nat, 2);
    lemma_field_at_written(Seq::empty(), key, tail);
    assert(s =~= Seq::<u8>::empty() + field(key) + tail);
    lemma_le_at_written(field(key), index as nat, 2, Seq::empty());
    assert(s =~= field(key) + tail + Seq::<u8>::empty());
}

/// Bytes that decode as a one-time pre-key are the encoding of what they
/// decode to.
pub proof fn lemma_one_time_exact(s: Seq<u8>)
    requires
        decode_one_time(s) is Some,
    ensures
        encode_one_time(decode_one_time(s).unwrap().0, decode_one_time(s).unwrap().1) == s,
{
    lemma_field_at_exact(s, 0);
    let (key, p) = field_at(s, 0).unwrap();
    lemma_le_at_exact(s, p, 2);
    lemma_radix_values();
    assert(s =~= s.subrange(0, p) + s.subrange(p, s.len() as int));
}

/// Reading the published form of valid one-time pre-keys gives them back.
pub proof fn lemma_one_times_round_trip(keys: Seq<(Seq<u8>, u16)>)
    requires
        valid_one_times(keys),
    ensures
        parse_one_times(encode_one_times(keys)) == Ok::<_, X3dhError>(keys),
    decreases keys.len(),
{
    let blobs = encode_one_times(keys);
    if keys.len() == 0 {
        assert(keys =~= Seq::empty());
    } else {
        let front = keys.drop_last();
        let last = keys.last();
        assert(valid_one_times(front)) by {
            assert forall|i: int| 0 <= i < front.len() implies valid_point(
                #[trigger] front[i].0,
            ) by {
                assert(front[i] == keys[i]);
            }
        }
        lemma_one_times_round_trip(front);
        assert(blobs.drop_last() =~= encode_one_times(front));
        assert(blobs.last() == encode_one_time(last.0, last.1));
        assert(valid_point(keys[keys.len() - 1].0));
        lemma_radix_values();
        lemma_one_time_round_trip(last.0, last.1);
        assert(front.push(last) =~= keys);
    }
}

/// A one-time pre-key as it is published: the public key and its index.
#[derive(Debug, PartialEq, Eq)]
pub struct OneTimePreKeyPublicBundle(OneTimePreKeyPublic, u16);

impl View for OneTimePreKeyPublicBundle {
    type V = (Seq<u8>, u16);

    closed spec fn view(&self) -> (Seq<u8>, u16) {
        (self.0@, self.1)
    }
}

impl Clone for OneTimePreKeyPublicBundle {
    fn clone(&self) -> (r: Self)
        ensures
            r@ == self@,
    {
        OneTimePreKeyPublicBundle(self.0.clone(), self.1)
    }
}

impl OneTimePreKeyPublicBundle {
    /// The public half of a one-time key pair, under the pair's index.
    pub fn from_pair(key: &OneTimeKeyPair) -> (r: Self)
        ensures
            r@ == (key.public_view(), key.index_view()),
    {
        OneTimePreKeyPublicBundle(key.public().clone(), key.index())
    }

    pub fn key(&self) -> (r: &OneTimePreKeyPublic)
        ensures
            r@ == self@.0,
            valid_point(r@),
    {
        proof {
            use_type_invariant(&self.0);
        }
        &self.0
    }

    pub fn index(&self) -> (r: u16)
        ensures
            r == self@.1,
    {
        self.1
    }

    pub fn to_bytes(&self) -> (r: Vec<u8>)
        ensures
            r@ == encode_one_time(self@.0, self@.1),
            valid_point(self@.0),
    {
        let mut out: Vec<u8> = Vec::new();
        put_field(&mut out, self.0.key().as_slice());
        put_u16(&mut out, self.1);
        assert(out@ =~= encode_one_time(self@.0, self@.1));
        out
    }

    pub fn from_bytes(bytes: &[u8]) -> (r: Result<Self, X3dhError>)
        ensures
            r matches Ok(key) ==> parse_one_time(bytes@) == Ok::<_, X3dhError>(key@),
            r matches Err(e) ==> parse_one_time(bytes@) == Err::<(Seq<u8>, u16), _>(e),
    {
        let (key, p) = match get_field(bytes, 0) {
            Some(read) => read,
            None => { return Err(X3dhError::MalformedBundle); },
        };
        let (index, end) = match get_u16(bytes, p) {
            Some(read) => read,
            None => { return Err(X3dhError::MalformedBundle); },
        };
        if end != bytes.len() {
            return Err(X3dhError::MalformedBundle);
        }
        match OneTimePreKeyPublic::from_bytes(key.as_slice()) {
            Ok(key) => Ok(OneTimePreKeyPublicBundle(key, index)),
            Err(_) => Err(X3dhError::MalformedKey),
        }
    }
}

/// The model of a register bundle: each key and the signature as bytes, each
/// one-time pre-key with its index.
pub struct RegisterBundleView {
    pub identity: Seq<u8>,
    pub signed_pre: Seq<u8>,
    pub signature: Seq<u8>,
    pub one_time_pres: Seq<(Seq<u8>, u16)>,
}

/// The model of a register bundle in binary form.
pub struct RegisterBundleBinaryView {
    pub identity: Seq<u8>,
    pub signed_pre: Seq<u8>,
    pub signature: Seq<u8>,
    pub one_time_pres: Seq<Seq<u8>>,
}

impl RegisterBundleView {
    /// Every part is what its place asks for: points of the curve, and a
    /// signature.
    pub open spec fn wf(self) -> bool {
        &&& valid_point(self.identity)
        &&& valid_point(self.signed_pre)
        &&& valid_signature(self.signature)
        &&& valid_one_times(self.one_time_pres)
    }

    /// The binary form of the bundle.
    pub open spec fn binary(self) -> RegisterBundleBinaryView {
        RegisterBundleBinaryView {
            identity: self.identity,
            signed_pre: self.signed_pre,
            signature: self.signature,
            one_time_pres: encode_one_times(self.one_time_pres),
        }
    }
}

impl RegisterBundleBinaryView {
    /// What reading the binary form gives: the bundle, or the error of the
    /// first part, in the order identity, signed pre-key, signature, one-time
    /// pre-keys, that cannot be read. A key that is no point of the curve is
    /// `MalformedKey`; anything else is `MalformedBundle`.
    pub open spec fn parse(self) -> Result<RegisterBundleView, X3dhError> {
        if !valid_point(self.identity) {
            Err(X3dhError::MalformedKey)
        } else if !valid_point(self.signed_pre) {
            Err(X3dhError::MalformedKey)
        } else if !valid_signature(self.signature) {
            Err(X3dhError::MalformedBundle)
        } else {
            match parse_one_times(self.one_time_pres) {
                Err(e) => Err(e),
                Ok(keys) => Ok(
                    RegisterBundleView {
                        identity: self.identity,
                        signed_pre: self.signed_pre,
                        signature: self.signature,
                        one_time_pres: keys,
                    },
                ),
            }
        }
    }
}

/// Reading the binary form of a register bundle gives the bundle back.
pub proof fn lemma_register_bundle_round_trip(bundle: RegisterBundleView)
    requires
        bundle.wf(),
    ensures
        bundle.binary().parse() == Ok::<_, X3dhError>(bundle),
{
    lemma_one_times_round_trip(bundle.one_time_pres);
}

/// What a user publishes at first login.
#[derive(Debug, PartialEq, Eq)]
pub struct RegisterBundle {
    pub identity: IdentityKeyPublic,
    pub signed_pre: SignedPreKeyPublic,
    pub signature: Signature,
    pub one_time_pres: Vec<OneTimePreKeyPublicBundle>,
}

impl View for RegisterBundle {
    type V = RegisterBundleView;

    open spec fn view(&self) -> RegisterBundleView {
        RegisterBundleView {
            identity: self.identity@,
            signed_pre: self.signed_pre@,
            signature: self.signature@,
            one_time_pres: self.one_time_pres@.map_values(|k: OneTimePreKeyPublicBundle| k@),
        }
    }
}

fn clone_one_times(keys: &Vec<OneTimePreKeyPublicBundle>) -> (r: Vec<OneTimePreKeyPublicBundle>)
    ensures
        r@.map_values(|k: OneTimePreKeyPublicBundle| k@) == keys@.map_values(
            |k: OneTimePreKeyPublicBundle| k@,
        ),
{
    let mut out: Vec<OneTimePreKeyPublicBundle> = Vec::new();
    let mut i: usize = 0;
    while i < keys.len()
        invariant
            i <= keys.len(),
            out@.len() == i,
            forall|j: int| 0 <= j < i ==> (#[trigger] out@[j])@ == keys@[j]@,
        decreases keys.len() - i,
    {
        out.push(keys[i].clone());
        i = i + 1;
    }
    assert(out@.map_values(|k: OneTimePreKeyPublicBundle| k@) =~= keys@.map_values(
        |k: OneTimePreKeyPublicBundle| k@,
    ));
    out
}

impl Clone for RegisterBundle {
    fn clone(&self) -> (r: Self)
        ensures
            r@ == self@,
    {
        RegisterBundle {
            identity: self.identity.clone(),
            signed_pre: self.signed_pre.clone(),
            signature: self.signature.clone(),
            one_time_pres: clone_one_times(&self.one_time_pres),
        }
    }
}

impl RegisterBundle {
    /// The bundle in binary form. Every part of a bundle is valid, so the
    /// result reads back as this bundle.
    pub fn serialize(&self) -> (r: RegisterBundleBinary)
        ensures
            r@ == self@.binary(),
            self@.wf(),
            r@.parse() == Ok::<_, X3dhError>(self@),
    {
        let mut blobs: Vec<Vec<u8>> = Vec::new();
        let mut i: usize = 0;
        while i < self.one_time_pres.len()
            invariant
                i <= self.one_time_pres.len(),
                blobs@.len() == i,
                forall|j: int|
                    0 <= j < i ==> (#[trigger] blobs@[j])@ == encode_one_time(
                        self.one_time_pres@[j]@.0,
                        self.one_time_pres@[j]@.1,
                    ),
                forall|j: int| 0 <= j < i ==> valid_point(#[trigger] self.one_time_pres@[j]@.0),
            decreases self.one_time_pres.len() - i,
        {
            blobs.push(self.one_time_pres[i].to_bytes());
            i = i + 1;
        }
        let r = RegisterBundleBinary {
            identity: self.identity.to_bytes(),
            signed_pre: self.signed_pre.to_bytes(),
            signature: self.signature.to_bytes(),
            one_time_pres: blobs,
        };
        proof {
            assert(r@.one_time_pres =~= self@.binary().one_time_pres);
            assert(valid_one_times(self@.one_time_pres));
            lemma_register_bundle_round_trip(self@);
        }
        r
    }
}

/// A register bundle as a directory holds it: byte strings that nobody has
/// yet looked into.
#[derive(Debug, PartialEq, Eq)]
pub struct RegisterBundleBinary {
    pub identity: Vec<u8>,
    pub signed_pre: Vec<u8>,
    pub signature: Vec<u8>,
    pub one_time_pres: Vec<Vec<u8>>,
}

impl View for RegisterBundleBinary {
    type V = RegisterBundleBinaryView;

    open spec fn view(&self) -> RegisterBundleBinaryView {
        RegisterBundleBinaryView {
            identity: self.identity@,
            signed_pre: self.signed_pre@,
            signature: self.signature@,
            one_time_pres: self.one_time_pres@.map_values(|b: Vec<u8>| b@),
        }
    }
}

impl Clone for RegisterBundleBinary {
    fn clone(&self) -> (r: Self)
        ensures
            r@ == self@,
    {
        let mut blobs: Vec<Vec<u8>> = Vec::new();
        let mut i: usize = 0;
        while i < self.one_time_pres.len()
            invariant
                i <= self.one_time_pres.len(),
                blobs@.len() == i,
                forall|j: int| 0 <= j < i ==> (#[trigger] blobs@[j])@ == self.one_time_pres@[j]@,
            decreases self.one_time_pres.len() - i,
        {
            blobs.push(self.one_time_pres[i].clone());
            i = i + 1;
        }
        let r = RegisterBundleBinary {
            identity: self.identity.clone(),
            signed_pre: self.signed_pre.clone(),
            signature: self.signature.clone(),
            one_time_pres: blobs,
        };
        assert(r@.one_time_pres =~= self@.one_time_pres);
        r
    }
}

impl RegisterBundleBinary {
    /// Checks every part against the curve and gives the typed bundle.
    pub fn deserialize(self) -> (r: Result<RegisterBundle, X3dhError>)
        ensures
            r matches Ok(bundle) ==> self@.parse() == Ok::<_, X3dhError>(bundle@),
            r matches Err(e) ==> self@.parse() == Err::<RegisterBundleView, _>(e),
    {
        let identity = match IdentityKeyPublic::from_bytes(self.identity.as_slice()) {
            Ok(key) => key,
            Err(_) => { return Err(X3dhError::MalformedKey); },
        };
        let signed_pre = match SignedPreKeyPublic::from_bytes(self.signed_pre.as_slice()) {
            Ok(key) => key,
            Err(_) => { return Err(X3dhError::MalformedKey); },
        };
        let signature = match Signature::from_bytes(self.signature.as_slice()) {
            Ok(sig) => sig,
            Err(_) => { return Err(X3dhError::MalformedBundle); },
        };
        let ghost blobs = self@.one_time_pres;
        let mut keys: Vec<OneTimePreKeyPublicBundle> = Vec::new();
        let mut i: usize = 0;
        assert(keys@.map_values(|k: OneTimePreKeyPublicBundle| k@) =~= Seq::empty());
        while i < self.one_time_pres.len()
            invariant
                i <= self.one_time_pres.len(),
                blobs == self@.one_time_pres,
                valid_point(self@.identity),
                valid_point(self@.signed_pre),
                valid_signature(self@.signature),
                parse_one_times(blobs.take(i as int)) == Ok::<_, X3dhError>(
                    keys@.map_values(|k: OneTimePreKeyPublicBundle| k@),
                ),
            decreases self.one_time_pres.len() - i,
        {
            let ghost before = keys@.map_values(|k: OneTimePreKeyPublicBundle| k@);
            proof {
                assert(blobs.take(i + 1).drop_last() =~= blobs.take(i as int));
                assert(blobs.take(i + 1).last() == self.one_time_pres@[i as int]@);
            }
            match OneTimePreKeyPublicBundle::from_bytes(self.one_time_pres[i].as_slice()) {
                Ok(key) => {
                    keys.push(key);
                    assert(keys@.map_values(|k: OneTimePreKeyPublicBundle| k@) =~= before.push(
                        key@,
                    ));
                },
                Err(e) => {
                    proof {
                        assert(parse_one_times(blobs.take(i + 1)) == Err::<
                            Seq<(Seq<u8>, u16)>,
                            _,
                        >(e));
                        lemma_parse_one_times_fails(blobs, i as int);
                    }
                    return Err(e);
                },
            }
            i = i + 1;
        }
        assert(blobs.take(i as int) =~= blobs);
        Ok(RegisterBundle { identity, signed_pre, signature, one_time_pres: keys })
    }
}

/// A list whose front fails to read fails with the same error.
proof fn lemma_parse_one_times_fails(blobs: Seq<Seq<u8>>, i: int)
    requires
        0 <= i < blobs.len(),
        parse_one_times(blobs.take(i + 1)) is Err,
    ensures
        parse_one_times(blobs) == parse_one_times(blobs.take(i + 1)),
    decreases blobs.len() - i,
{
    if i + 1 == blobs.len() {
        assert(blobs.take(i + 1) =~= blobs);
    } else {
        assert(blobs.take(i + 2).drop_last() =~= blobs.take(i + 1));
        lemma_parse_one_times_fails(blobs, i + 1);
    }
}

/// The model of a peer bundle.
pub struct PeerBundleView {
    pub identity: Seq<u8>,
    pub signed_pre: Seq<u8>,
    pub signature: Seq<u8>,
    pub one_time_pre: (Seq<u8>, u16),
}

/// The model of a peer bundle in binary form.
pub struct PeerBundleBinaryView {
    pub identity: Seq<u8>,
    pub signed_pre: Seq<u8>,
    pub signature: Seq<u8>,
    pub one_time_pre: Seq<u8>,
}

impl PeerBundleView {
    /// Every part is what its place asks for.
    pub open spec fn wf(self) -> bool {
        &&& valid_point(self.identity)
        &&& valid_point(self.signed_pre)
        &&& valid_signature(self.signature)
        &&& valid_point(self.one_time_pre.0)
    }

    /// The binary form of the bundle.
    pub open spec fn binary(self) -> PeerBundleBinaryView {
        PeerBundleBinaryView {
            identity: self.identity,
            signed_pre: self.signed_pre,
            signature: self.signature,
            one_time_pre: encode_one_time(self.one_time_pre.0, self.one_time_pre.1),
        }
    }
}

impl PeerBundleBinaryView {
    /// What reading the binary form gives: the bundle, or the error of the
    /// first part, in the order identity, signed pre-key, signature, one-time
    /// pre-key, that cannot be read.
    pub open spec fn parse(self) -> Result<PeerBundleView, X3dhError> {
        if !valid_point(self.identity) {
            Err(X3dhError::MalformedKey)
        } else if !valid_point(self.signed_pre) {
            Err(X3dhError::MalformedKey)
        } else if !valid_signature(self.signature) {
            Err(X3dhError::MalformedBundle)
        } else {
            match parse_one_time(self.one_time_pre) {
                Err(e) => Err(e),
                Ok(key) => Ok(
                    PeerBundleView {
                        identity: self.identity,
                        signed_pre: self.signed_pre,
                        signature: self.signature,
                        one_time_pre: key,
                    },
                ),
            }
        }
    }
}

/// Reading the binary form of a peer bundle gives the bundle back.
pub proof fn lemma_peer_bundle_round_trip(bundle: PeerBundleView)
    requires
        bundle.wf(),
    ensures
        bundle.binary().parse() == Ok::<_, X3dhError>(bundle),
{
    lemma_radix_values();
    lemma_one_time_round_trip(bundle.one_time_pre.0, bundle.one_time_pre.1);
}

/// What the directory hands to a user who wants to open a chat: the peer's
/// keys, with one of its one-time pre-keys.
#[derive(Debug, PartialEq, Eq)]
pub struct PeerBundle {
    pub identity: IdentityKeyPublic,
    pub signed_pre: SignedPreKeyPublic,
    pub signature: Signature,
    pub one_time_pre: OneTimePreKeyPublicBundle,
}

impl View for PeerBundle {
    type V = PeerBundleView;

    open spec fn view(&self) -> PeerBundleView {
        PeerBundleView {
            identity: self.identity@,
            signed_pre: self.signed_pre@,
            signature: self.signature@,
            one_time_pre: self.one_time_pre@,
        }
    }
}

impl Clone for PeerBundle {
    fn clone(&self) -> (r: Self)
        ensures
            r@ == self@,
    {
        PeerBundle {
            identity: self.identity.clone(),
            signed_pre: self.signed_pre.clone(),
            signature: self.signature.clone(),
            one_time_pre: self.one_time_pre.clone(),
        }
    }
}

impl PeerBundle {
    /// The bundle in binary form, which reads back as this bundle.
    pub fn serialize(&self) -> (r: PeerBundleBinary)
        ensures
            r@ == self@.binary(),
            self@.wf(),
            r@.parse() == Ok::<_, X3dhError>(self@),
    {
        let r = PeerBundleBinary {
            identity: self.identity.to_bytes(),
            signed_pre: self.signed_pre.to_bytes(),
            signature: self.signature.to_bytes(),
            one_time_pre: self.one_time_pre.to_bytes(),
        };
        proof {
            lemma_peer_bundle_round_trip(self@);
        }
        r
    }
}

/// A peer bundle as byte strings.
#[derive(Debug, PartialEq, Eq)]
pub struct PeerBundleBinary {
    pub identity: Vec<u8>,
    pub signed_pre: Vec<u8>,
    pub signature: Vec<u8>,
    pub one_time_pre: Vec<u8>,
}

impl View for PeerBundleBinary {
    type V = PeerBundleBinaryView;

    open spec fn view(&self) -> PeerBundleBinaryView {
        PeerBundleBinaryView {
            identity: self.identity@,
            signed_pre: self.signed_pre@,
            signature: self.signature@,
            one_time_pre: self.one_time_pre@,
        }
    }
}

impl Clone for PeerBundleBinary {
    fn clone(&self) -> (r: Self)
        ensures
            r@ == self@,
    {
        PeerBundleBinary {
            identity: self.identity.clone(),
            signed_pre: self.signed_pre.clone(),
            signature: self.signature.clone(),
            one_time_pre: self.one_time_pre.clone(),
        }
    }
}

impl PeerBundleBinary {
    /// Checks every part against the curve and gives the typed bundle.
    pub fn deserialize(self) -> (r: Result<PeerBundle, X3dhError>)
        ensures
            r matches Ok(bundle) ==> self@.parse() == Ok::<_, X3dhError>(bundle@),
            r matches Err(e) ==> self@.parse() == Err::<PeerBundleView, _>(e),
    {
        let identity = match IdentityKeyPublic::from_bytes(self.identity.as_slice()) {
            Ok(key) => key,
            Err(_) => { return Err(X3dhError::MalformedKey); },
        };
        let signed_pre = match SignedPreKeyPublic::from_bytes(self.signed_pre.as_slice()) {
            Ok(key) => key,
            Err(_) => { return Err(X3dhError::MalformedKey); },
        };
        let signature = match Signature::from_bytes(self.signature.as_slice()) {
            Ok(sig) => sig,
            Err(_) => { return Err(X3dhError::MalformedBundle); },
        };
        match OneTimePreKeyPublicBundle::from_bytes(self.one_time_pre.as_slice()) {
            Ok(one_time_pre) => Ok(PeerBundle { identity, signed_pre, signature, one_time_pre }),
            Err(e) => Err(e),
        }
    }
}

/// The model of an initial message, in either form.
pub struct InitialMessageView {
    pub identity: Seq<u8>,
    pub ephemeral: Seq<u8>,
    pub one_time_idx: u16,
}

impl InitialMessageView {
    /// Both keys are points of the curve.
    pub open spec fn wf(self) -> bool {
        valid_point(self.identity) && valid_point(self.ephemeral)
    }

    /// What reading the binary form gives: the message, or `MalformedKey`
    /// where a key is no point of the curve.
    pub open spec fn parse(self) -> Result<InitialMessageView, X3dhError> {
        if self.wf() {
            Ok(self)
        } else {
            Err(X3dhError::MalformedKey)
        }
    }
}

/// What the initiator leaves for the responder: its identity key, the
/// ephemeral key of this handshake, and the index of the one-time pre-key it
/// was handed.
#[derive(Debug, PartialEq, Eq)]
pub struct InitialMessage {
    pub identity: IdentityKeyPublic,
    pub ephemeral: EphemeralKeyPublic,
    pub one_time_idx: u16,
}

impl View for InitialMessage {
    type V = InitialMessageView;

    open spec fn view(&self) -> InitialMessageView {
        InitialMessageView {
            identity: self.identity@,
            ephemeral: self.ephemeral@,
            one_time_idx: self.one_time_idx,
        }
    }
}

impl Clone for InitialMessage {
    fn clone(&self) -> (r: Self)
        ensures
            r@ == self@,
    {
        InitialMessage {
            identity: self.identity.clone(),
            ephemeral: self.ephemeral.clone(),
            one_time_idx: self.one_time_idx,
        }
    }
}

impl InitialMessage {
    /// The message in binary form, which reads back as this message.
    pub fn serialize(&self) -> (r: InitialMessageBinary)
        ensures
            r@ == self@,
            self@.wf(),
            r@.parse() == Ok::<_, X3dhError>(self@),
    {
        InitialMessageBinary {
            identity: self.identity.to_bytes(),
            ephemeral: self.ephemeral.to_bytes(),
            one_time_idx: self.one_time_idx,
        }
    }
}

/// An initial message as byte strings.
#[derive(Debug, PartialEq, Eq)]
pub struct InitialMessageBinary {
    pub identity: Vec<u8>,
    pub ephemeral: Vec<u8>,
    pub one_time_idx: u16,
}

impl View for InitialMessageBinary {
    type V = InitialMessageView;

    open spec fn view(&self) -> InitialMessageView {
        InitialMessageView {
            identity: self.identity@,
            ephemeral: self.ephemeral@,
            one_time_idx: self.one_time_idx,
        }
    }
}

impl Clone for InitialMessageBinary {
    fn clone(&self) -> (r: Self)
        ensures
            r@ == self@,
    {
        InitialMessageBinary {
            identity: self.identity.clone(),
            ephemeral: self.ephemeral.clone(),
            one_time_idx: self.one_time_idx,
        }
    }
}

impl InitialMessageBinary {
    /// Checks both keys against the curve and gives the typed message.
    pub fn deserialize(self) -> (r: Result<InitialMessage, X3dhError>)
        ensures
            r matches Ok(message) ==> self@.parse() == Ok::<_, X3dhError>(message@),
            r matches Err(e) ==> self@.parse() == Err::<InitialMessageView, _>(e),
    {
        let identity = match IdentityKeyPublic::from_bytes(self.identity.as_slice()) {
            Ok(key) => key,
            Err(_) => { return Err(X3dhError::MalformedKey); },
        };
        let ephemeral = match EphemeralKeyPublic::from_bytes(self.ephemeral.as_slice()) {
            Ok(key) => key,
            Err(_) => { return Err(X3dhError::MalformedKey); },
        };
        Ok(InitialMessage { identity, ephemeral, one_time_idx: self.one_time_idx })
    }
}

} // verus!
