//! The key agreement itself: four Diffie-Hellman exchanges between the keys
//! of two parties, combined by HKDF into the secret that both then hold.

use crate::curve::{dh_secret, ecdsa_accepts, valid_pair};
use crate::error::X3dhError;
use crate::keys::{
    EphemeralKeyPair, EphemeralKeyPublic, IdentityKeyPair, IdentityKeyPublic, Key, KeyPair,
    OneTimeKeyPair, OneTimePreKeyPublic, SharedSecret, Signature, SignedPreKeyPair,
    SignedPreKeyPublic, X3dhSharedSecret,
};
use vstd::prelude::*;

verus! {

/// The 32 bytes that HKDF with SHA-512 (RFC 5869, extract then expand) derives
/// from a salt, input key material and an info string.
pub uninterp spec fn hkdf_sha512(salt: Seq<u8>, ikm: Seq<u8>, info: Seq<u8>) -> Seq<u8>;

/// `Hkdf::<Sha512>::new` with the salt, then `expand` into 32 bytes. Claimed:
/// the result is `hkdf_sha512` of the arguments, 32 bytes. `expand` refuses
/// only outputs longer than 255 hashes, which 32 bytes are not.
#[verifier::external_body]
fn derive_key(salt: &[u8], ikm: &[u8], info: &[u8]) -> (r: Vec<u8>)
    ensures
        r@ == hkdf_sha512(salt@, ikm@, info@),
        r@.len() == 32,
{
    let mut okm = [0u8; 32];
    hkdf::Hkdf::<sha2::Sha512>::new(Some(salt), ikm).expand(info, &mut okm).unwrap();
    okm.to_vec()
}

/// `n` zero bytes.
pub open spec fn zeros(n: nat) -> Seq<u8> {
    Seq::new(n, |i: int| 0u8)
}

/// The info string of the derivation: `x3dh` in ASCII.
pub open spec fn info_label() -> Seq<u8> {
    seq![0x78u8, 0x33u8, 0x64u8, 0x68u8]
}

/// The shared secret that four exchanges give: HKDF under a salt of 32 zero
/// bytes, over 32 zero bytes followed by the four exchanges in order.
pub open spec fn combine(dh1: Seq<u8>, dh2: Seq<u8>, dh3: Seq<u8>, dh4: Seq<u8>) -> Seq<u8> {
    hkdf_sha512(zeros(32), zeros(32) + dh1 + dh2 + dh3 + dh4, info_label())
}

/// What the initiator derives from its own identity and ephemeral scalars and
/// the peer's identity key, signed pre-key and one-time pre-key.
pub open spec fn initiator_secret(
    identity_me: Seq<u8>,
    ephemeral_me: Seq<u8>,
    identity_you: Seq<u8>,
    signed_pre_you: Seq<u8>,
    one_time_pre_you: Seq<u8>,
) -> Seq<u8> {
    combine(
        dh_secret(identity_me, signed_pre_you),
        dh_secret(ephemeral_me, identity_you),
        dh_secret(ephemeral_me, signed_pre_you),
        dh_secret(ephemeral_me, one_time_pre_you),
    )
}

/// What the responder derives from the initiator's identity and ephemeral
/// keys and its own identity, signed pre-key and one-time pre-key scalars.
pub open spec fn responder_secret(
    identity_you: Seq<u8>,
    ephemeral_you: Seq<u8>,
    identity_me: Seq<u8>,
    signed_pre_me: Seq<u8>,
    one_time_pre_me: Seq<u8>,
) -> Seq<u8> {
    combine(
        dh_secret(signed_pre_me, identity_you),
        dh_secret(identity_me, ephemeral_you),
        dh_secret(signed_pre_me, ephemeral_you),
        dh_secret(one_time_pre_me, ephemeral_you),
    )
}

/// Initiator and responder derive the same secret: for any key pairs of the
/// two parties, what the initiator computes from its scalars and the
/// responder's public keys is what the responder computes from its scalars
/// and the initiator's public keys.
pub proof fn lemma_x3dh_agreement(
    identity_a: IdentityKeyPair,
    ephemeral_a: EphemeralKeyPair,
    identity_b: IdentityKeyPair,
    signed_pre_b: SignedPreKeyPair,
    one_time_b: OneTimeKeyPair,
)
    requires
        identity_a.wf(),
        ephemeral_a.wf(),
        identity_b.wf(),
        signed_pre_b.wf(),
        one_time_b.wf(),
    ensures
        initiator_secret(
            identity_a.private_view(),
            ephemeral_a.private_view(),
            identity_b.public_view(),
            signed_pre_b.public_view(),
            one_time_b.public_view(),
        ) == responder_secret(
            identity_a.public_view(),
            ephemeral_a.public_view(),
            identity_b.private_view(),
            signed_pre_b.private_view(),
            one_time_b.private_view(),
        ),
{
    let ia = identity_a.private_view();
    let ea = ephemeral_a.private_view();
    assert(dh_secret(signed_pre_b.private_view(), identity_a.public_view()) == dh_secret(
        ia,
        signed_pre_b.public_view(),
    ));
    assert(dh_secret(identity_b.private_view(), ephemeral_a.public_view()) == dh_secret(
        ea,
        identity_b.public_view(),
    ));
    assert(dh_secret(signed_pre_b.private_view(), ephemeral_a.public_view()) == dh_secret(
        ea,
        signed_pre_b.public_view(),
    ));
    assert(dh_secret(one_time_b.private_view(), ephemeral_a.public_view()) == dh_secret(
        ea,
        one_time_b.public_view(),
    ));
}

fn push_zeros(out: &mut Vec<u8>, n: usize)
    ensures
        final(out)@ == old(out)@ + zeros(n as nat),
{
    let mut i: usize = 0;
    while i < n
        invariant
            i <= n,
            out@ == old(out)@ + zeros(i as nat),
        decreases n - i,
    {
        out.push(0u8);
        i = i + 1;
        assert(out@ =~= old(out)@ + zeros(i as nat));
    }
}

/// Combines four exchanges into the shared secret.
pub fn dh_to_shared(
    dh1: &SharedSecret,
    dh2: &SharedSecret,
    dh3: &SharedSecret,
    dh4: &SharedSecret,
) -> (r: X3dhSharedSecret)
    ensures
        r@ == combine(dh1@, dh2@, dh3@, dh4@),
        r@.len() == 32,
{
    let mut data: Vec<u8> = Vec::new();
    push_zeros(&mut data, 32);
    data.extend_from_slice(dh1.to_bytes().as_slice());
    data.extend_from_slice(dh2.to_bytes().as_slice());
    data.extend_from_slice(dh3.to_bytes().as_slice());
    data.extend_from_slice(dh4.to_bytes().as_slice());
    assert(data@ =~= zeros(32) + dh1@ + dh2@ + dh3@ + dh4@);
    let mut salt: Vec<u8> = Vec::new();
    push_zeros(&mut salt, 32);
    assert(salt@ =~= zeros(32));
    let mut info: Vec<u8> = Vec::new();
    info.push(0x78u8);
    info.push(0x33u8);
    info.push(0x64u8);
    info.push(0x68u8);
    assert(info@ =~= info_label());
    let okm = derive_key(salt.as_slice(), data.as_slice(), info.as_slice());
    X3dhSharedSecret::from_bytes(okm.as_slice())
}

/// The initiator's side. The peer's signed pre-key must carry the signature of
/// the peer's identity key, or nothing is derived: `SignatureInvalid`.
pub fn x3dh_sig(
    signature: &Signature,
    identity_me: &IdentityKeyPair,
    signed_pre_you: &SignedPreKeyPublic,
    ephemeral_me: &EphemeralKeyPair,
    identity_you: &IdentityKeyPublic,
    one_time_pre_you: &OneTimePreKeyPublic,
) -> (r: Result<X3dhSharedSecret, X3dhError>)
    ensures
        r is Ok <==> ecdsa_accepts(identity_you@, signed_pre_you@, signature@),
        r matches Ok(secret) ==> {
            &&& secret@.len() == 32
            &&& secret@ == initiator_secret(
                identity_me.private_view(),
                ephemeral_me.private_view(),
                identity_you@,
                signed_pre_you@,
                one_time_pre_you@,
            )
        },
        r matches Err(e) ==> e == X3dhError::SignatureInvalid,
{
    match identity_you.verify(signed_pre_you.key().as_slice(), signature) {
        Err(_) => Err(X3dhError::SignatureInvalid),
        Ok(_) => {
            let dh1 = identity_me.diffie_hellman(signed_pre_you);
            let dh2 = ephemeral_me.diffie_hellman(identity_you);
            let dh3 = ephemeral_me.diffie_hellman(signed_pre_you);
            let dh4 = ephemeral_me.diffie_hellman(one_time_pre_you);
            Ok(dh_to_shared(&dh1, &dh2, &dh3, &dh4))
        },
    }
}

/// The responder's side, from what the initiator left and the responder's own
/// keys.
pub fn x3dh(
    identity_you: &IdentityKeyPublic,
    signed_pre_me: &SignedPreKeyPair,
    ephemeral_you: &EphemeralKeyPublic,
    identity_me: &IdentityKeyPair,
    one_time_pre_me: &OneTimeKeyPair,
) -> (r: X3dhSharedSecret)
    ensures
        r@.len() == 32,
        r@ == responder_secret(
            identity_you@,
            ephemeral_you@,
            identity_me.private_view(),
            signed_pre_me.private_view(),
            one_time_pre_me.private_view(),
        ),
{
    let dh1 = signed_pre_me.diffie_hellman(identity_you);
    let dh2 = identity_me.diffie_hellman(ephemeral_you);
    let dh3 = signed_pre_me.diffie_hellman(ephemeral_you);
    let dh4 = one_time_pre_me.diffie_hellman(ephemeral_you);
    dh_to_shared(&dh1, &dh2, &dh3, &dh4)
}

} // verus!
