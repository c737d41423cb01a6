//! What a client keeps and does so that each of its chats has a secret: the
//! keys it makes at first login, the bundle it publishes from them, and the
//! steps by which a chat goes from no secret to an established one.

use crate::cipher::{Cipher, CipherError};
use crate::curve::{ecdsa_accepts, ecdsa_signature};
use crate::error::X3dhError;
use crate::handshake::{
    InitialMessage, InitialMessageView, OneTimePreKeyPublicBundle, PeerBundle, RegisterBundle,
    RegisterBundleView,
};
use crate::keyring::Keyring;
use crate::keys::{
    EphemeralKeyPair, IdentityKeyPair, Key, KeyPair, OneTimeKeyPair, Signature, SignedPreKeyPair,
    X3dhSharedSecret,
};
use crate::model::ObjectId;
use crate::table::Table;
use crate::x3dh::{initiator_secret, responder_secret, x3dh, x3dh_sig};
use vstd::prelude::*;
use vstd::string::StringExecFns;

verus! {

/// Why a step of an account's life failed.
#[derive(Debug, Clone, Copy, PartialEq, Eq, Structural)]
pub enum PlasmaError {
    /// A key that must be on the device is not there.
    StorageError,
    MessageCipherError(CipherError),
    X3dhLibError(X3dhError),
}

/// How many one-time pre-keys a first login makes.
pub const ONE_TIME_COUNT: u16 = 50;

/// The keys of an account as a first login makes them.
pub struct KeyPack {
    identity: IdentityKeyPair,
    signed: SignedPreKeyPair,
    one_time: Vec<OneTimeKeyPair>,
    signature: Signature,
}

/// The public half and the index of each one-time key pair.
pub open spec fn published(one_time: Seq<OneTimeKeyPair>) -> Seq<(Seq<u8>, u16)> {
    one_time.map_values(|k: OneTimeKeyPair| (k.public_view(), k.index_view()))
}

/// The indices of the pairs count up from `first`.
pub open spec fn indexed_from(one_time: Seq<OneTimeKeyPair>, first: int) -> bool {
    forall|i: int| 0 <= i < one_time.len() ==> (#[trigger] one_time[i]).index_view() == first + i
}

/// Whether the curve gives no signature for some identity key over some
/// signed pre-key. No such keys are known; the curve's signing does not rule
/// them out.
pub open spec fn no_signature() -> bool {
    exists|identity: IdentityKeyPair, signed: SignedPreKeyPair|
        identity.wf() && signed.wf() && ecdsa_signature(
            #[trigger] identity.private_view(),
            #[trigger] signed.public_view(),
        ) is None
}

impl KeyPack {
    /// What every pack is: the signature is the identity key's over the
    /// signed pre-key, and the one-time pre-keys count up from the first.
    #[verifier::type_invariant]
    pub open spec fn wf(&self) -> bool {
        &&& ecdsa_accepts(
            self.identity_view().public_view(),
            self.signed_view().public_view(),
            self.signature_view(),
        )
        &&& self.one_time_view().len() == ONE_TIME_COUNT
        &&& indexed_from(self.one_time_view(), self.first_index() as int)
    }

    pub closed spec fn identity_view(&self) -> IdentityKeyPair {
        self.identity
    }

    pub closed spec fn signed_view(&self) -> SignedPreKeyPair {
        self.signed
    }

    pub closed spec fn one_time_view(&self) -> Seq<OneTimeKeyPair> {
        self.one_time@
    }

    pub closed spec fn signature_view(&self) -> Seq<u8> {
        self.signature@
    }

    /// The index of the first one-time pre-key.
    pub open spec fn first_index(&self) -> u16 {
        self.one_time_view()[0].index_view()
    }

    /// The bundle that the pack publishes.
    pub open spec fn bundle_view(&self) -> RegisterBundleView {
        RegisterBundleView {
            identity: self.identity_view().public_view(),
            signed_pre: self.signed_view().public_view(),
            signature: self.signature_view(),
            one_time_pres: published(self.one_time_view()),
        }
    }

    /// Makes a pack of given keys: signs the signed pre-key with the identity
    /// key and numbers the one-time pre-keys from `first_index`. `None` where
    /// the keys are not fifty, their indices would pass the last index there
    /// is, or the curve gives no signature.
    pub fn assemble(
        identity: IdentityKeyPair,
        signed: SignedPreKeyPair,
        one_time: Vec<OneTimeKeyPair>,
        first_index: u16,
    ) -> (r: Option<KeyPack>)
        ensures
            r is Some <==> {
                &&& one_time@.len() == ONE_TIME_COUNT
                &&& first_index + ONE_TIME_COUNT <= 0x1_0000
                &&& ecdsa_signature(identity.private_view(), signed.public_view()) is Some
            },
            r matches Some(pack) ==> {
                &&& pack.identity_view() == identity
                &&& pack.signed_view() == signed
                &&& Some(pack.signature_view()) == ecdsa_signature(
                    identity.private_view(),
                    signed.public_view(),
                )
                &&& pack.first_index() == first_index
                &&& pack.one_time_view().len() == one_time@.len()
                &&& forall|i: int|
                    0 <= i < one_time@.len() ==> {
                        &&& (#[trigger] pack.one_time_view()[i]).public_view()
                            == one_time@[i].public_view()
                        &&& pack.one_time_view()[i].private_view() == one_time@[i].private_view()
                    }
            },
    {
        if one_time.len() != ONE_TIME_COUNT as usize || first_index > u16::MAX - (ONE_TIME_COUNT
            - 1) {
            return None;
        }
        let signature = match identity.sign(signed.public().key().as_slice()) {
            Some(signature) => signature,
            None => { return None; },
        };
        let mut numbered: Vec<OneTimeKeyPair> = Vec::new();
        let mut i: u16 = 0;
        while i < ONE_TIME_COUNT
            invariant
                i <= ONE_TIME_COUNT,
                first_index + ONE_TIME_COUNT <= 0x1_0000,
                one_time@.len() == ONE_TIME_COUNT,
                numbered@.len() == i,
                forall|j: int|
                    0 <= j < i ==> {
                        &&& (#[trigger] numbered@[j]).index_view() == first_index + j
                        &&& numbered@[j].public_view() == one_time@[j].public_view()
                        &&& numbered@[j].private_view() == one_time@[j].private_view()
                    },
            decreases ONE_TIME_COUNT - i,
        {
            numbered.push(one_time[i as usize].clone().with_index(first_index + i));
            i = i + 1;
        }
        assert(indexed_from(numbered@, first_index as int));
        Some(KeyPack { identity, signed, one_time: numbered, signature })
    }

    /// Fresh keys for a first login: an identity key, a signed pre-key under
    /// its signature, and fifty one-time pre-keys numbered from `first_index`.
    /// No pack is made where the indices would pass the last index there is,
    /// and where the curve gives no signature for the keys drawn; in every
    /// other case one is.
    pub fn generate(first_index: u16) -> (r: Option<KeyPack>)
        ensures
            first_index + ONE_TIME_COUNT > 0x1_0000 ==> r is None,
            r is None ==> first_index + ONE_TIME_COUNT > 0x1_0000 || no_signature(),
            r matches Some(pack) ==> {
                &&& pack.wf()
                &&& pack.first_index() == first_index
                &&& pack.identity_view().wf()
                &&& pack.signed_view().wf()
                &&& Some(pack.signature_view()) == ecdsa_signature(
                    pack.identity_view().private_view(),
                    pack.signed_view().public_view(),
                )
                &&& forall|i: int|
                    0 <= i < ONE_TIME_COUNT ==> (#[trigger] pack.one_time_view()[i]).wf()
            },
    {
        let identity = IdentityKeyPair::generate();
        let signed = SignedPreKeyPair::generate();
        let mut one_time: Vec<OneTimeKeyPair> = Vec::new();
        let mut i: u16 = 0;
        while i < ONE_TIME_COUNT
            invariant
                i <= ONE_TIME_COUNT,
                one_time@.len() == i,
                forall|j: int| 0 <= j < i ==> (#[trigger] one_time@[j]).wf(),
            decreases ONE_TIME_COUNT - i,
        {
            one_time.push(OneTimeKeyPair::generate());
            i = i + 1;
        }
        let ghost drawn_identity = identity;
        let ghost drawn_signed = signed;
        let r = KeyPack::assemble(identity, signed, one_time, first_index);
        proof {
            match &r {
                Some(pack) => {
                    use_type_invariant(pack);
                },
                None => {
                    if first_index + ONE_TIME_COUNT <= 0x1_0000 {
                        assert(drawn_identity.wf() && drawn_signed.wf() && ecdsa_signature(
                            drawn_identity.private_view(),
                            drawn_signed.public_view(),
                        ) is None);
                    }
                },
            }
        }
        r
    }

    pub fn identity(&self) -> (r: &IdentityKeyPair)
        ensures
            *r == self.identity_view(),
    {
        &self.identity
    }

    pub fn signed(&self) -> (r: &SignedPreKeyPair)
        ensures
            *r == self.signed_view(),
    {
        &self.signed
    }

    pub fn one_time(&self) -> (r: &Vec<OneTimeKeyPair>)
        ensures
            r@ == self.one_time_view(),
    {
        &self.one_time
    }

    pub fn signature(&self) -> (r: &Signature)
        ensures
            r@ == self.signature_view(),
    {
        &self.signature
    }

    /// The register bundle of the pack: the public halves, the signature, and
    /// each one-time pre-key with its index.
    pub fn bundle(&self) -> (r: RegisterBundle)
        ensures
            r@ == self.bundle_view(),
    {
        let mut one_time_pres: Vec<OneTimePreKeyPublicBundle> = Vec::new();
        let mut i: usize = 0;
        while i < self.one_time.len()
            invariant
                i <= self.one_time.len(),
                one_time_pres@.len() == i,
                forall|j: int|
                    0 <= j < i ==> (#[trigger] one_time_pres@[j])@ == (
                        self.one_time@[j].public_view(),
                        self.one_time@[j].index_view(),
                    ),
            decreases self.one_time.len() - i,
        {
            one_time_pres.push(OneTimePreKeyPublicBundle::from_pair(&self.one_time[i]));
            i = i + 1;
        }
        let r = RegisterBundle {
            identity: self.identity.public().clone(),
            signed_pre: self.signed.public().clone(),
            signature: self.signature.clone(),
            one_time_pres,
        };
        assert(r@.one_time_pres =~= published(self.one_time@));
        r
    }
}

/// Where a chat stands on its way to a shared secret.
#[derive(Debug, Clone, Copy, PartialEq, Eq, Structural)]
pub enum ChatState {
    /// No secret is held for the peer.
    NoSecret,
    /// A secret was derived from the peer's bundle; the initial message that
    /// lets the peer follow is not yet known to be deposited.
    InitiatorPending,
    /// Both sides can hold the secret. The directory is not asked again.
    Established,
}

/// What is to be done next for a chat. The one who holds the connection to the
/// directory does it and reports back.
#[derive(Debug, PartialEq, Eq)]
pub enum Directive {
    /// Nothing: the chat is established.
    Nothing,
    /// Ask the directory for the initial message of the chat.
    FetchInitialMessage,
    /// Ask the directory for the peer's bundle.
    FetchPeerBundle,
    /// Hand the directory this initial message for the chat.
    DepositInitialMessage(InitialMessage),
}

/// Whether a key pair of the list carries the index.
pub open spec fn has_index(keys: Seq<OneTimeKeyPair>, index: u16) -> bool {
    exists|i: int| 0 <= i < keys.len() && (#[trigger] keys[i]).index_view() == index
}

/// Whether `i` is the first place of the list that carries the index.
pub open spec fn first_at(keys: Seq<OneTimeKeyPair>, index: u16, i: int) -> bool {
    &&& 0 <= i < keys.len()
    &&& keys[i].index_view() == index
    &&& forall|j: int| 0 <= j < i ==> (#[trigger] keys[j]).index_view() != index
}

/// The first place of the list that carries the index.
pub open spec fn slot(keys: Seq<OneTimeKeyPair>, index: u16) -> int {
    choose|i: int| first_at(keys, index, i)
}

/// The first place that carries an index is one place.
proof fn lemma_slot(keys: Seq<OneTimeKeyPair>, index: u16, i: int)
    requires
        first_at(keys, index, i),
    ensures
        slot(keys, index) == i,
        has_index(keys, index),
{
    let s = slot(keys, index);
    assert(first_at(keys, index, s));
    if s < i {
        assert(keys[s].index_view() != index);
    }
    if i < s {
        assert(keys[i].index_view() != index);
    }
}

/// The keys that a device holds, and the secret it shares with each peer.
pub struct KeyStore {
    identity: Option<IdentityKeyPair>,
    signed: Option<SignedPreKeyPair>,
    one_time: Vec<OneTimeKeyPair>,
    secrets: Table<X3dhSharedSecret>,
    pending: Table<InitialMessage>,
    quarantine: Vec<InitialMessage>,
}

impl KeyStore {
    pub closed spec fn identity_view(&self) -> Option<IdentityKeyPair> {
        self.identity
    }

    pub closed spec fn signed_view(&self) -> Option<SignedPreKeyPair> {
        self.signed
    }

    pub closed spec fn one_time_view(&self) -> Seq<OneTimeKeyPair> {
        self.one_time@
    }

    /// The secret shared with each peer.
    pub closed spec fn secrets_view(&self) -> Map<Seq<char>, Seq<u8>> {
        self.secrets@.map_values(|s: X3dhSharedSecret| s@)
    }

    /// The initial message that is still to be deposited, for each peer for
    /// whom one is.
    pub closed spec fn pending_view(&self) -> Map<Seq<char>, InitialMessageView> {
        self.pending@.map_values(|m: InitialMessage| m@)
    }

    /// The initial messages that named a one-time pre-key which the device
    /// does not hold, kept for whoever looks into it.
    pub closed spec fn quarantine_view(&self) -> Seq<InitialMessageView> {
        self.quarantine@.map_values(|m: InitialMessage| m@)
    }

    /// Where the chat with a peer stands.
    pub open spec fn state_of(&self, peer: Seq<char>) -> ChatState {
        if self.pending_view().contains_key(peer) {
            ChatState::InitiatorPending
        } else if self.secrets_view().contains_key(peer) {
            ChatState::Established
        } else {
            ChatState::NoSecret
        }
    }

    /// Nothing but the secrets and the pending messages differs.
    pub open spec fn same_keys(&self, other: &KeyStore) -> bool {
        &&& self.identity_view() == other.identity_view()
        &&& self.signed_view() == other.signed_view()
        &&& self.one_time_view() == other.one_time_view()
    }

    /// Nothing differs but, maybe, what is in quarantine.
    pub open spec fn same_but_quarantine(&self, other: &KeyStore) -> bool {
        &&& self.same_keys(other)
        &&& self.secrets_view() == other.secrets_view()
        &&& self.pending_view() == other.pending_view()
    }

    /// Nothing differs at all.
    pub open spec fn same(&self, other: &KeyStore) -> bool {
        &&& self.same_but_quarantine(other)
        &&& self.quarantine_view() == other.quarantine_view()
    }

    /// A store with no key and no secret in it.
    pub fn new() -> (r: Self)
        ensures
            r.identity_view() is None,
            r.signed_view() is None,
            r.one_time_view().len() == 0,
            r.secrets_view() == Map::<Seq<char>, Seq<u8>>::empty(),
            r.pending_view() == Map::<Seq<char>, InitialMessageView>::empty(),
            r.quarantine_view().len() == 0,
    {
        let r = KeyStore {
            identity: None,
            signed: None,
            one_time: Vec::new(),
            secrets: Table::new(),
            pending: Table::new(),
            quarantine: Vec::new(),
        };
        assert(r.secrets_view() =~= Map::<Seq<char>, Seq<u8>>::empty());
        assert(r.pending_view() =~= Map::<Seq<char>, InitialMessageView>::empty());
        r
    }

    pub fn save_identity(&mut self, key: IdentityKeyPair)
        ensures
            final(self).identity_view() == Some(key),
            final(self).signed_view() == old(self).signed_view(),
            final(self).one_time_view() == old(self).one_time_view(),
            final(self).secrets_view() == old(self).secrets_view(),
            final(self).pending_view() == old(self).pending_view(),
            final(self).quarantine_view() == old(self).quarantine_view(),
    {
        self.identity = Some(key);
    }

    pub fn save_signed(&mut self, key: SignedPreKeyPair)
        ensures
            final(self).signed_view() == Some(key),
            final(self).identity_view() == old(self).identity_view(),
            final(self).one_time_view() == old(self).one_time_view(),
            final(self).secrets_view() == old(self).secrets_view(),
            final(self).pending_view() == old(self).pending_view(),
            final(self).quarantine_view() == old(self).quarantine_view(),
    {
        self.signed = Some(key);
    }

    /// Adds a one-time key pair behind those that are held.
    pub fn save_onetime(&mut self, key: OneTimeKeyPair)
        ensures
            final(self).one_time_view() == old(self).one_time_view().push(key),
            final(self).identity_view() == old(self).identity_view(),
            final(self).signed_view() == old(self).signed_view(),
            final(self).secrets_view() == old(self).secrets_view(),
            final(self).pending_view() == old(self).pending_view(),
            final(self).quarantine_view() == old(self).quarantine_view(),
    {
        self.one_time.push(key);
    }

    /// Puts the secret shared with a peer in its place, whatever stood there.
    pub fn save_secret(&mut self, username: &str, secret: X3dhSharedSecret)
        ensures
            final(self).secrets_view() == old(self).secrets_view().insert(username@, secret@),
            final(self).same_keys(old(self)),
            final(self).pending_view() == old(self).pending_view(),
            final(self).quarantine_view() == old(self).quarantine_view(),
    {
        self.secrets.put(String::from_str(username), secret);
        assert(self.secrets_view() =~= old(self).secrets_view().insert(username@, secret@));
    }

    pub fn read_identity(&self) -> (r: Option<&IdentityKeyPair>)
        ensures
            r is Some <==> self.identity_view() is Some,
            r matches Some(key) ==> Some(*key) == self.identity_view(),
    {
        self.identity.as_ref()
    }

    pub fn read_signed(&self) -> (r: Option<&SignedPreKeyPair>)
        ensures
            r is Some <==> self.signed_view() is Some,
            r matches Some(key) ==> Some(*key) == self.signed_view(),
    {
        self.signed.as_ref()
    }

    fn find_onetime(&self, idx: u16) -> (r: Option<usize>)
        ensures
            r is Some <==> has_index(self.one_time@, idx),
            r matches Some(i) ==> first_at(self.one_time@, idx, i as int) && i == slot(
                self.one_time@,
                idx,
            ),
    {
        let mut i: usize = 0;
        while i < self.one_time.len()
            invariant
                i <= self.one_time.len(),
                forall|j: int| 0 <= j < i ==> (#[trigger] self.one_time@[j]).index_view() != idx,
            decreases self.one_time.len() - i,
        {
            if self.one_time[i].index() == idx {
                proof {
                    lemma_slot(self.one_time@, idx, i as int);
                }
                return Some(i);
            }
            i = i + 1;
        }
        None
    }

    /// The initial messages in quarantine, oldest first.
    pub fn quarantined(&self) -> (r: &Vec<InitialMessage>)
        ensures
            r@.map_values(|m: InitialMessage| m@) == self.quarantine_view(),
    {
        &self.quarantine
    }

    /// The one-time key pairs that are held, in the order in which they came.
    pub fn one_time(&self) -> (r: &Vec<OneTimeKeyPair>)
        ensures
            r@ == self.one_time_view(),
    {
        &self.one_time
    }

    /// The first one-time key pair that carries the index.
    pub fn read_onetime(&self, idx: u16) -> (r: Option<&OneTimeKeyPair>)
        ensures
            r is Some <==> has_index(self.one_time_view(), idx),
            r matches Some(key) ==> *key == self.one_time_view()[slot(self.one_time_view(), idx)],
    {
        match self.find_onetime(idx) {
            Some(i) => Some(&self.one_time[i]),
            None => None,
        }
    }

    /// The secret shared with a peer.
    pub fn read_secret(&self, username: &str) -> (r: Option<&X3dhSharedSecret>)
        ensures
            r is Some <==> self.secrets_view().contains_key(username@),
            r matches Some(secret) ==> secret@ == self.secrets_view()[username@],
    {
        self.secrets.get(username)
    }

    /// The cipher of the chat with a peer, where a secret is held for the
    /// peer.
    pub fn get_cipher(&self, username: &str) -> (r: Option<Cipher>)
        ensures
            r is Some <==> self.secrets_view().contains_key(username@),
            r matches Some(cipher) ==> cipher@ == self.secrets_view()[username@],
    {
        match self.secrets.get(username) {
            Some(secret) => Some(Cipher::new(secret.clone())),
            None => None,
        }
    }

    /// Where the chat with a peer stands.
    pub fn chat_state(&self, username: &str) -> (r: ChatState)
        ensures
            r == self.state_of(username@),
    {
        if self.pending.contains(username) {
            ChatState::InitiatorPending
        } else if self.secrets.contains(username) {
            ChatState::Established
        } else {
            ChatState::NoSecret
        }
    }

    /// Why the responder's step fails on the keys held, if it does: a missing
    /// identity key or signed pre-key is `StorageError`, a one-time pre-key
    /// index that no held pair carries is `UnknownOneTimeIndex`.
    pub open spec fn responder_fault(&self, index: u16) -> Option<PlasmaError> {
        if self.identity_view() is None || self.signed_view() is None {
            Some(PlasmaError::StorageError)
        } else if !has_index(self.one_time_view(), index) {
            Some(PlasmaError::X3dhLibError(X3dhError::UnknownOneTimeIndex))
        } else {
            None
        }
    }

    /// Why the initiator's step fails on the keys held and the bundle given,
    /// if it does: a missing identity key is `StorageError`, a signed pre-key
    /// that does not carry the signature of the bundle's identity key is
    /// `SignatureInvalid`.
    pub open spec fn initiator_fault(&self, bundle: &PeerBundle) -> Option<PlasmaError> {
        if self.identity_view() is None {
            Some(PlasmaError::StorageError)
        } else if !ecdsa_accepts(bundle@.identity, bundle@.signed_pre, bundle@.signature) {
            Some(PlasmaError::X3dhLibError(X3dhError::SignatureInvalid))
        } else {
            None
        }
    }

    /// What the responder's step does. It fails exactly where
    /// `responder_fault` says, and then changes nothing, but that a message
    /// which names a one-time pre-key that the device does not hold goes into
    /// quarantine. Where it does not fail, the secret derived from the message
    /// and the device's keys stands under the member's name, the one-time
    /// pre-key that the message names is gone, and the chat is established.
    pub open spec fn responded(
        before: &KeyStore,
        after: &KeyStore,
        member: Seq<char>,
        message: InitialMessageView,
        failure: Option<PlasmaError>,
    ) -> bool {
        &&& failure == before.responder_fault(message.one_time_idx)
        &&& after.identity_view() == before.identity_view()
        &&& after.signed_view() == before.signed_view()
        &&& match failure {
            Some(e) => {
                &&& after.same_but_quarantine(before)
                &&& after.quarantine_view() == if e == PlasmaError::X3dhLibError(
                    X3dhError::UnknownOneTimeIndex,
                ) {
                    before.quarantine_view().push(message)
                } else {
                    before.quarantine_view()
                }
            },
            None => {
                let at = slot(before.one_time_view(), message.one_time_idx);
                &&& after.quarantine_view() == before.quarantine_view()
                &&& after.one_time_view() == before.one_time_view().remove(at)
                &&& after.secrets_view() == before.secrets_view().insert(
                    member,
                    responder_secret(
                        message.identity,
                        message.ephemeral,
                        before.identity_view().unwrap().private_view(),
                        before.signed_view().unwrap().private_view(),
                        before.one_time_view()[at].private_view(),
                    ),
                )
                &&& after.pending_view() == before.pending_view().remove(member)
                &&& after.state_of(member) == ChatState::Established
            },
        }
    }

    /// The responder's step: derives the secret shared with `member` from the
    /// initial message that the member left, and gives up the one-time pre-key
    /// that the message names.
    pub fn make_secret_from_initial_messsage(
        &mut self,
        member: &str,
        message: &InitialMessage,
    ) -> (r: Result<(), PlasmaError>)
        ensures
            Self::responded(old(self), final(self), member@, message@, r.err()),
    {
        let at = match self.find_onetime(message.one_time_idx) {
            Some(at) => at,
            None => {
                if self.identity.is_none() || self.signed.is_none() {
                    return Err(PlasmaError::StorageError);
                }
                self.quarantine.push(message.clone());
                assert(self.quarantine_view() =~= old(self).quarantine_view().push(message@));
                return Err(PlasmaError::X3dhLibError(X3dhError::UnknownOneTimeIndex));
            },
        };
        let secret = match (&self.identity, &self.signed) {
            (Some(identity), Some(signed)) => x3dh(
                &message.identity,
                signed,
                &message.ephemeral,
                identity,
                &self.one_time[at],
            ),
            _ => { return Err(PlasmaError::StorageError); },
        };
        self.one_time.remove(at);
        self.secrets.put(String::from_str(member), secret);
        self.pending.take(member);
        proof {
            assert(self.secrets_view() =~= old(self).secrets_view().insert(member@, secret@));
            assert(self.pending_view() =~= old(self).pending_view().remove(member@));
        }
        Ok(())
    }

    /// The initiator's step: checks the peer's bundle, derives the secret
    /// shared with `member` from it and a fresh ephemeral key, and gives the
    /// initial message that is to be deposited for the peer. On failure
    /// nothing changes.
    pub fn make_secret_from_peer_bundle(
        &mut self,
        bundle: &PeerBundle,
        member: &str,
        ephemeral: &EphemeralKeyPair,
    ) -> (r: Result<InitialMessage, PlasmaError>)
        ensures
            r is Ok <==> old(self).initiator_fault(bundle) is None,
            r matches Err(e) ==> Some(e) == old(self).initiator_fault(bundle) && final(self).same(
                old(self),
            ),
            r matches Ok(message) ==> {
                let identity = old(self).identity_view().unwrap();
                &&& message@ == InitialMessageView {
                    identity: identity.public_view(),
                    ephemeral: ephemeral.public_view(),
                    one_time_idx: bundle@.one_time_pre.1,
                }
                &&& final(self).same_keys(old(self))
                &&& final(self).secrets_view() == old(self).secrets_view().insert(
                    member@,
                    initiator_secret(
                        identity.private_view(),
                        ephemeral.private_view(),
                        bundle@.identity,
                        bundle@.signed_pre,
                        bundle@.one_time_pre.0,
                    ),
                )
                &&& final(self).pending_view() == old(self).pending_view().insert(
                    member@,
                    message@,
                )
                &&& final(self).quarantine_view() == old(self).quarantine_view()
                &&& final(self).state_of(member@) == ChatState::InitiatorPending
            },
    {
        let (secret, message) = match &self.identity {
            None => { return Err(PlasmaError::StorageError); },
            Some(identity) => {
                let secret = match x3dh_sig(
                    &bundle.signature,
                    identity,
                    &bundle.signed_pre,
                    ephemeral,
                    &bundle.identity,
                    bundle.one_time_pre.key(),
                ) {
                    Ok(secret) => secret,
                    Err(e) => { return Err(PlasmaError::X3dhLibError(e)); },
                };
                let message = InitialMessage {
                    identity: identity.public().clone(),
                    ephemeral: ephemeral.public().clone(),
                    one_time_idx: bundle.one_time_pre.index(),
                };
                (secret, message)
            },
        };
        self.secrets.put(String::from_str(member), secret);
        self.pending.put(String::from_str(member), message.clone());
        proof {
            assert(self.secrets_view() =~= old(self).secrets_view().insert(member@, secret@));
            assert(self.pending_view() =~= old(self).pending_view().insert(member@, message@));
        }
        Ok(message)
    }

    /// What is to be done when a chat is opened. For an established chat,
    /// nothing; for one whose initial message may not have arrived, the
    /// deposit once more; else the directory is asked whether the peer left an
    /// initial message.
    pub fn ensure_secret(&self, username: &str) -> (r: Directive)
        ensures
            self.state_of(username@) == ChatState::Established ==> r == Directive::Nothing,
            self.state_of(username@) == ChatState::NoSecret ==> r
                == Directive::FetchInitialMessage,
            self.state_of(username@) == ChatState::InitiatorPending ==> (
            r matches Directive::DepositInitialMessage(message) && message@
                == self.pending_view()[username@]),
    {
        match self.pending.get(username) {
            Some(message) => Directive::DepositInitialMessage(message.clone()),
            None => {
                if self.secrets.contains(username) {
                    Directive::Nothing
                } else {
                    Directive::FetchInitialMessage
                }
            },
        }
    }

    /// The directory has answered the question for the initial message of a
    /// chat. Where the peer left one, this device is the responder and the
    /// chat is established by it; where none is there, this device is the
    /// initiator and asks for the peer's bundle.
    pub fn initial_message_fetched(
        &mut self,
        username: &str,
        message: Option<InitialMessage>,
    ) -> (r: Result<Directive, PlasmaError>)
        ensures
            message is None ==> {
                &&& r == Ok::<_, PlasmaError>(Directive::FetchPeerBundle)
                &&& final(self).same(old(self))
            },
            message matches Some(m) ==> {
                &&& Self::responded(old(self), final(self), username@, m@, r.err())
                &&& r is Ok ==> r == Ok::<_, PlasmaError>(Directive::Nothing)
            },
    {
        match message {
            None => Ok(Directive::FetchPeerBundle),
            Some(m) => match self.make_secret_from_initial_messsage(username, &m) {
                Ok(()) => Ok(Directive::Nothing),
                Err(e) => Err(e),
            },
        }
    }

    /// The directory has handed out the peer's bundle. The secret is derived
    /// from it, and what is left to do is the deposit of the initial message.
    pub fn peer_bundle_fetched(
        &mut self,
        username: &str,
        bundle: &PeerBundle,
        ephemeral: &EphemeralKeyPair,
    ) -> (r: Result<Directive, PlasmaError>)
        ensures
            r is Ok <==> old(self).initiator_fault(bundle) is None,
            r matches Err(e) ==> Some(e) == old(self).initiator_fault(bundle) && final(self).same(
                old(self),
            ),
            r is Ok ==> {
                &&& r matches Ok(Directive::DepositInitialMessage(message)) && message@
                    == final(self).pending_view()[username@]
                &&& final(self).state_of(username@) == ChatState::InitiatorPending
            },
    {
        match self.make_secret_from_peer_bundle(bundle, username, ephemeral) {
            Ok(message) => Ok(Directive::DepositInitialMessage(message)),
            Err(e) => Err(e),
        }
    }

    /// The directory has taken the initial message of a chat: the chat is
    /// established.
    pub fn initial_message_deposited(&mut self, username: &str)
        ensures
            final(self).same_keys(old(self)),
            final(self).secrets_view() == old(self).secrets_view(),
            final(self).pending_view() == old(self).pending_view().remove(username@),
            final(self).quarantine_view() == old(self).quarantine_view(),
            old(self).state_of(username@) == ChatState::InitiatorPending
                && old(self).secrets_view().contains_key(username@)
                ==> final(self).state_of(username@) == ChatState::Established,
    {
        self.pending.take(username);
        assert(self.pending_view() =~= old(self).pending_view().remove(username@));
    }

    /// Puts the keys of a pack in the place of whatever keys are held.
    pub fn save_key_pack(&mut self, key_pack: &KeyPack)
        ensures
            final(self).identity_view() matches Some(identity) && identity.public_view()
                == key_pack.identity_view().public_view() && identity.private_view()
                == key_pack.identity_view().private_view(),
            final(self).signed_view() matches Some(signed) && signed.public_view()
                == key_pack.signed_view().public_view() && signed.private_view()
                == key_pack.signed_view().private_view(),
            final(self).one_time_view().len() == key_pack.one_time_view().len(),
            forall|i: int|
                0 <= i < key_pack.one_time_view().len() ==> {
                    let mine = #[trigger] final(self).one_time_view()[i];
                    let from = key_pack.one_time_view()[i];
                    &&& mine.public_view() == from.public_view()
                    &&& mine.private_view() == from.private_view()
                    &&& mine.index_view() == from.index_view()
                },
            final(self).secrets_view() == old(self).secrets_view(),
            final(self).pending_view() == old(self).pending_view(),
            final(self).quarantine_view() == old(self).quarantine_view(),
    {
        self.identity = Some(key_pack.identity().clone());
        self.signed = Some(key_pack.signed().clone());
        let mut one_time: Vec<OneTimeKeyPair> = Vec::new();
        let from = key_pack.one_time();
        let mut i: usize = 0;
        while i < from.len()
            invariant
                i <= from.len(),
                one_time@.len() == i,
                forall|j: int|
                    0 <= j < i ==> {
                        &&& (#[trigger] one_time@[j]).public_view() == from@[j].public_view()
                        &&& one_time@[j].private_view() == from@[j].private_view()
                        &&& one_time@[j].index_view() == from@[j].index_view()
                    },
            decreases from.len() - i,
        {
            one_time.push(from[i].clone());
            i = i + 1;
        }
        self.one_time = one_time;
    }

    /// The bundle that a pack publishes.
    pub fn upload_bundle(key_pack: &KeyPack) -> (r: RegisterBundle)
        ensures
            r@ == key_pack.bundle_view(),
    {
        key_pack.bundle()
    }

    /// What a first login leaves: the store holds an identity key and a
    /// signed pre-key, whose public halves the bundle carries under the
    /// identity key's signature over the signed pre-key, and fifty one-time
    /// pre-keys with the indices 0 to 49, which the bundle carries in that
    /// order. The secrets, the pending messages and the quarantine are as
    /// they were.
    pub open spec fn registered(
        before: &KeyStore,
        after: &KeyStore,
        bundle: RegisterBundleView,
    ) -> bool {
        &&& after.identity_view() is Some
        &&& after.signed_view() is Some
        &&& after.identity_view().unwrap().public_view() == bundle.identity
        &&& after.signed_view().unwrap().public_view() == bundle.signed_pre
        &&& Some(bundle.signature) == ecdsa_signature(
            after.identity_view().unwrap().private_view(),
            bundle.signed_pre,
        )
        &&& ecdsa_accepts(bundle.identity, bundle.signed_pre, bundle.signature)
        &&& published(after.one_time_view()) == bundle.one_time_pres
        &&& bundle.one_time_pres.len() == ONE_TIME_COUNT
        &&& forall|i: int| 0 <= i < ONE_TIME_COUNT ==> (#[trigger] bundle.one_time_pres[i]).1 == i
        &&& after.secrets_view() == before.secrets_view()
        &&& after.pending_view() == before.pending_view()
        &&& after.quarantine_view() == before.quarantine_view()
    }

    /// Makes the keys of an account, puts them in the place of whatever keys
    /// are held, and gives the bundle to publish. No keys are made only where
    /// the curve gives no signature for the keys drawn, and then nothing
    /// changes.
    pub fn register_bundle(&mut self) -> (r: Option<RegisterBundle>)
        ensures
            r is None ==> final(self).same(old(self)) && no_signature(),
            r matches Some(bundle) ==> Self::registered(old(self), final(self), bundle@),
    {
        match KeyPack::generate(0) {
            None => None,
            Some(key_pack) => {
                self.save_key_pack(&key_pack);
                let bundle = Self::upload_bundle(&key_pack);
                assert(published(self.one_time_view()) =~= bundle@.one_time_pres);
                Some(bundle)
            },
        }
    }

    /// Makes and publishes keys only where the device holds no identity key.
    /// A device that holds one keeps it, and everything else, as it is. A
    /// device that holds none gets its keys as `register_bundle` makes them.
    pub fn check_first_login(&mut self) -> (r: Option<RegisterBundle>)
        ensures
            old(self).identity_view() is Some ==> r is None,
            r is None ==> final(self).same(old(self)) && (old(self).identity_view() is Some
                || no_signature()),
            r matches Some(bundle) ==> old(self).identity_view() is None && Self::registered(
                old(self),
                final(self),
                bundle@,
            ),
    {
        if self.identity.is_some() {
            None
        } else {
            self.register_bundle()
        }
    }
}

/// What an account is, as far as the server has confirmed it.
pub trait AccountState {
    /// Whether the server has taken the account's token.
    spec fn authorized() -> bool;
}

/// The state of an account whose token the server has taken.
#[derive(Debug)]
pub struct Authorized;

/// The state of an account of which only the mail address is known.
#[derive(Debug)]
pub struct NotAuthorized;

impl AccountState for Authorized {
    open spec fn authorized() -> bool {
        true
    }
}

impl AccountState for NotAuthorized {
    open spec fn authorized() -> bool {
        false
    }
}

/// An account. What can be asked of it depends on its state: only an
/// authorized account has a token, a username and an identifier.
pub struct Account<State: AccountState = NotAuthorized> {
    mail: String,
    username: Option<String>,
    id: Option<ObjectId>,
    token: Option<String>,
    state: State,
    keyring: Keyring,
}

impl<State: AccountState> Account<State> {
    /// What every account is: an authorized one has its token, its username
    /// and its identifier, and every one has the keyring of its mail address.
    #[verifier::type_invariant]
    pub closed spec fn wf(&self) -> bool {
        &&& State::authorized() ==> self.token is Some && self.username is Some && self.id
            is Some
        &&& self.keyring@ == self.mail@
    }

    pub closed spec fn mail_view(&self) -> Seq<char> {
        self.mail@
    }

    pub closed spec fn token_view(&self) -> Option<Seq<char>> {
        match self.token {
            Some(token) => Some(token@),
            None => None,
        }
    }

    pub closed spec fn username_view(&self) -> Option<Seq<char>> {
        match self.username {
            Some(username) => Some(username@),
            None => None,
        }
    }

    pub closed spec fn id_view(&self) -> Option<Seq<u8>> {
        match self.id {
            Some(id) => Some(id@),
            None => None,
        }
    }

    pub fn mail(&self) -> (r: &String)
        ensures
            r@ == self.mail_view(),
    {
        &self.mail
    }

    /// The keyring of the account, rooted at its mail address.
    pub fn keyring(&self) -> (r: &Keyring)
        ensures
            r@ == self.mail_view(),
    {
        proof {
            use_type_invariant(self);
        }
        &self.keyring
    }
}

impl Account<NotAuthorized> {
    pub fn new(mail: String) -> (r: Self)
        ensures
            r.mail_view() == mail@,
            r.token_view() is None,
            r.username_view() is None,
            r.id_view() is None,
    {
        let keyring = Keyring::new(mail.as_str());
        Account { mail, username: None, id: None, token: None, state: NotAuthorized, keyring }
    }

    /// The account once the server has taken its token and told its username
    /// and identifier.
    pub fn try_login_token(self, token: String, username: String, id: ObjectId) -> (r: Account<
        Authorized,
    >)
        ensures
            r.mail_view() == self.mail_view(),
            r.token_view() == Some(token@),
            r.username_view() == Some(username@),
            r.id_view() == Some(id@),
    {
        let keyring = Keyring::new(self.mail.as_str());
        Account {
            mail: self.mail,
            username: Some(username),
            id: Some(id),
            token: Some(token),
            state: Authorized,
            keyring,
        }
    }
}

impl Account<Authorized> {
    pub fn token(&self) -> (r: &str)
        ensures
            Some(r@) == self.token_view(),
    {
        proof {
            use_type_invariant(self);
        }
        self.token.as_ref().unwrap().as_str()
    }

    pub fn username(&self) -> (r: &String)
        ensures
            Some(r@) == self.username_view(),
    {
        proof {
            use_type_invariant(self);
        }
        self.username.as_ref().unwrap()
    }

    pub fn id(&self) -> (r: &ObjectId)
        ensures
            Some(r@) == self.id_view(),
    {
        proof {
            use_type_invariant(self);
        }
        self.id.as_ref().unwrap()
    }
}

} // verus!
