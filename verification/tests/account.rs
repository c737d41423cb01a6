use plasma::account::{ChatState, Directive, KeyPack, KeyStore, PlasmaError, ONE_TIME_COUNT};
use plasma::cipher::{Cipher, CipherError};
use plasma::directory::{DirectoryError, KeyDirectory};
use plasma::envelope::WsMessage;
use plasma::error::X3dhError;
use plasma::handshake::{InitialMessage, OneTimePreKeyPublicBundle, PeerBundle};
use plasma::keys::{
    EphemeralKeyPair, IdentityKeyPair, Key, KeyPair, OneTimeKeyPair, SignedPreKeyPair,
};
use plasma::pipeline::{Outbox, ReceiveError, ReplayFilter};
use plasma::relay::Relay;

fn logged_in(directory: &mut KeyDirectory, user_id: &str) -> KeyStore {
    let mut store = KeyStore::new();
    let bundle = store.check_first_login().expect("first login makes a bundle");
    directory.publish_bundle(user_id, bundle.serialize()).unwrap();
    store
}

/// Opens the chat with `peer` as the lifecycle asks, against the directory.
fn open_chat(
    store: &mut KeyStore,
    directory: &mut KeyDirectory,
    chat_id: &str,
    peer: &str,
    peer_id: &str,
) -> Result<(), PlasmaError> {
    let mut directive = store.ensure_secret(peer);
    loop {
        directive = match directive {
            Directive::Nothing => return Ok(()),
            Directive::FetchInitialMessage => {
                let message = directory
                    .fetch_initial_message(chat_id)
                    .map(|m| m.deserialize().unwrap());
                store.initial_message_fetched(peer, message)?
            }
            Directive::FetchPeerBundle => {
                let bundle =
                    directory.fetch_peer_bundle(peer_id).unwrap().deserialize().unwrap();
                store.peer_bundle_fetched(peer, &bundle, &EphemeralKeyPair::generate())?
            }
            Directive::DepositInitialMessage(message) => {
                directory.deposit_initial_message(chat_id, message.serialize());
                store.initial_message_deposited(peer);
                Directive::Nothing
            }
        }
    }
}

#[test]
fn key_pack_has_fifty_numbered_one_time_keys() {
    assert_eq!(ONE_TIME_COUNT, 50);
    let pack = KeyPack::generate(0).unwrap();
    assert_eq!(pack.one_time().len(), 50);
    for (i, key) in pack.one_time().iter().enumerate() {
        assert_eq!(key.index() as usize, i);
    }
    let bundle = pack.bundle();
    assert_eq!(bundle.identity, *pack.identity().public());
    assert_eq!(bundle.signed_pre, *pack.signed().public());
    assert_eq!(bundle.signature, *pack.signature());
    assert!(bundle.identity.verify(&bundle.signed_pre.to_bytes(), &bundle.signature).is_ok());
    assert_eq!(bundle.one_time_pres.len(), 50);
    for (i, key) in bundle.one_time_pres.iter().enumerate() {
        assert_eq!(key.index() as usize, i);
        assert_eq!(key.key(), pack.one_time()[i].public());
    }
}

#[test]
fn key_pack_indices_start_where_asked_and_must_fit() {
    let pack = KeyPack::generate(100).unwrap();
    assert_eq!(pack.one_time()[0].index(), 100);
    assert_eq!(pack.one_time()[49].index(), 149);
    assert!(KeyPack::generate(65486).is_some());
    assert!(KeyPack::generate(65487).is_none());
    assert!(KeyPack::generate(u16::MAX).is_none());
}

#[test]
fn key_pack_is_assembled_from_fifty_keys() {
    let identity = IdentityKeyPair::generate();
    let signed = SignedPreKeyPair::generate();
    let keys: Vec<OneTimeKeyPair> = (0..50).map(|_| OneTimeKeyPair::generate()).collect();
    let publics: Vec<Vec<u8>> = keys.iter().map(|k| k.public().to_bytes()).collect();
    let pack = KeyPack::assemble(identity.clone(), signed.clone(), keys, 7).unwrap();
    assert_eq!(*pack.identity(), identity);
    assert_eq!(*pack.signed(), signed);
    assert_eq!(Some(pack.signature().clone()), identity.sign(&signed.public().to_bytes()));
    for (i, key) in pack.one_time().iter().enumerate() {
        assert_eq!(key.index() as usize, 7 + i);
        assert_eq!(key.public().to_bytes(), publics[i]);
    }
    let few: Vec<OneTimeKeyPair> = (0..49).map(|_| OneTimeKeyPair::generate()).collect();
    assert!(KeyPack::assemble(identity.clone(), signed.clone(), few, 0).is_none());
}

#[test]
fn first_login_keeps_an_existing_identity() {
    let mut store = KeyStore::new();
    assert!(store.read_identity().is_none());
    let bundle = store.check_first_login().unwrap();
    let identity = store.read_identity().unwrap().clone();
    assert_eq!(*identity.public(), bundle.identity);
    assert_eq!(store.read_signed().unwrap().public(), &bundle.signed_pre);
    assert!(store.read_onetime(0).is_some());
    assert!(store.read_onetime(49).is_some());
    assert!(store.read_onetime(50).is_none());
    for _ in 0..3 {
        assert!(store.check_first_login().is_none());
        assert_eq!(store.read_identity(), Some(&identity));
    }
}

#[test]
fn handshake_and_first_message() {
    let mut directory = KeyDirectory::new();
    let mut relay = Relay::new();
    let mut alice = logged_in(&mut directory, "a@x");
    let mut bob = logged_in(&mut directory, "b@x");
    assert_eq!(directory.one_time_left("b@x"), Some(50));

    // Alice opens the chat.
    assert_eq!(alice.chat_state("bob"), ChatState::NoSecret);
    open_chat(&mut alice, &mut directory, "C", "bob", "b@x").unwrap();
    assert_eq!(alice.chat_state("bob"), ChatState::Established);
    let deposited = directory.fetch_initial_message("C").unwrap().deserialize().unwrap();
    assert_eq!(deposited.one_time_idx, 0);
    assert_eq!(deposited.identity, *alice.read_identity().unwrap().public());
    assert_eq!(directory.one_time_left("b@x"), Some(49));

    // Alice sends.
    relay.user_connected("a@x");
    let members = vec![String::from("a@x"), String::from("b@x")];
    let cipher_a = Cipher::new(alice.read_secret("bob").unwrap().clone());
    let mut outbox = Outbox::new();
    let envelope =
        outbox.make_message(&cipher_a, "hi", "C", "a@x", 1_700_000_000_000_000).unwrap();
    assert_eq!(envelope.timestamp, 1_700_000_000_000_000);
    let sent = WsMessage::from_bytes(&envelope.to_bytes()).unwrap();
    relay.user_message("a@x", &sent, &members);

    // Bob logs in to the chat.
    assert!(bob.read_onetime(0).is_some());
    open_chat(&mut bob, &mut directory, "C", "alice", "a@x").unwrap();
    assert_eq!(bob.chat_state("alice"), ChatState::Established);
    // The one-time pre-key that was used is gone.
    assert!(bob.read_onetime(0).is_none());
    assert!(bob.read_onetime(1).is_some());
    // Bob asked the directory for nothing but the initial message.
    assert_eq!(directory.one_time_left("a@x"), Some(50));

    assert_eq!(alice.read_secret("bob"), bob.read_secret("alice"));
    assert_eq!(alice.read_secret("bob").unwrap().to_bytes().len(), 32);

    let cipher_b = Cipher::new(bob.read_secret("alice").unwrap().clone());
    let history: Vec<WsMessage> =
        relay.history("C").iter().map(|f| WsMessage::from_bytes(f).unwrap()).collect();
    let mut filter = ReplayFilter::new();
    assert_eq!(filter.receive_history(&cipher_b, &history), vec![Ok(String::from("hi"))]);

    // The same envelope once more is a replay.
    assert_eq!(filter.receive(&cipher_b, &history[0]), Err(ReceiveError::Replay));

    // Established chats ask the directory for nothing.
    assert_eq!(alice.ensure_secret("bob"), Directive::Nothing);
    assert_eq!(bob.ensure_secret("alice"), Directive::Nothing);
}

#[test]
fn initiator_is_pending_until_the_deposit() {
    let mut directory = KeyDirectory::new();
    let mut alice = logged_in(&mut directory, "a@x");
    let _bob = logged_in(&mut directory, "b@x");
    assert_eq!(alice.ensure_secret("bob"), Directive::FetchInitialMessage);
    assert_eq!(alice.initial_message_fetched("bob", None), Ok(Directive::FetchPeerBundle));
    assert_eq!(alice.chat_state("bob"), ChatState::NoSecret);
    let bundle = directory.fetch_peer_bundle("b@x").unwrap().deserialize().unwrap();
    let ephemeral = EphemeralKeyPair::generate();
    let directive = alice.peer_bundle_fetched("bob", &bundle, &ephemeral).unwrap();
    let expected = InitialMessage {
        identity: alice.read_identity().unwrap().public().clone(),
        ephemeral: ephemeral.public().clone(),
        one_time_idx: 0,
    };
    assert_eq!(directive, Directive::DepositInitialMessage(expected.clone()));
    assert_eq!(alice.chat_state("bob"), ChatState::InitiatorPending);
    assert!(alice.read_secret("bob").is_some());
    // Opened again before the deposit went through: the deposit is due again.
    assert_eq!(alice.ensure_secret("bob"), Directive::DepositInitialMessage(expected));
    alice.initial_message_deposited("bob");
    assert_eq!(alice.chat_state("bob"), ChatState::Established);
}

#[test]
fn unknown_one_time_index_leaves_the_chat_without_secret() {
    let mut directory = KeyDirectory::new();
    let mut bob = logged_in(&mut directory, "b@x");
    let message = InitialMessage {
        identity: IdentityKeyPair::generate().public().clone(),
        ephemeral: EphemeralKeyPair::generate().public().clone(),
        one_time_idx: 50,
    };
    assert_eq!(
        bob.initial_message_fetched("alice", Some(message.clone())),
        Err(PlasmaError::X3dhLibError(X3dhError::UnknownOneTimeIndex))
    );
    assert_eq!(
        bob.make_secret_from_initial_messsage("alice", &message),
        Err(PlasmaError::X3dhLibError(X3dhError::UnknownOneTimeIndex))
    );
    assert_eq!(bob.chat_state("alice"), ChatState::NoSecret);
    assert!(bob.read_secret("alice").is_none());
    assert!(bob.read_onetime(49).is_some());
    // The message is kept for whoever looks into it, once for each time it came.
    assert_eq!(bob.quarantined(), &vec![message.clone(), message]);
}

#[test]
fn one_time_index_is_used_once() {
    let mut directory = KeyDirectory::new();
    let mut bob = logged_in(&mut directory, "b@x");
    let message = InitialMessage {
        identity: IdentityKeyPair::generate().public().clone(),
        ephemeral: EphemeralKeyPair::generate().public().clone(),
        one_time_idx: 5,
    };
    assert_eq!(bob.make_secret_from_initial_messsage("alice", &message), Ok(()));
    assert_eq!(
        bob.make_secret_from_initial_messsage("carol", &message),
        Err(PlasmaError::X3dhLibError(X3dhError::UnknownOneTimeIndex))
    );
}

#[test]
fn store_without_keys_is_a_storage_error() {
    let mut store = KeyStore::new();
    let message = InitialMessage {
        identity: IdentityKeyPair::generate().public().clone(),
        ephemeral: EphemeralKeyPair::generate().public().clone(),
        one_time_idx: 0,
    };
    assert_eq!(
        store.make_secret_from_initial_messsage("alice", &message),
        Err(PlasmaError::StorageError)
    );
    assert!(store.quarantined().is_empty());
    let mut directory = KeyDirectory::new();
    let _bob = logged_in(&mut directory, "b@x");
    let bundle = directory.fetch_peer_bundle("b@x").unwrap().deserialize().unwrap();
    assert_eq!(
        store.make_secret_from_peer_bundle(&bundle, "bob", &EphemeralKeyPair::generate()),
        Err(PlasmaError::StorageError)
    );
}

#[test]
fn forged_bundle_fails_the_handshake() {
    let mut directory = KeyDirectory::new();
    let mut initiator = logged_in(&mut directory, "i@x");
    // Carol offers Eve's signed pre-key under Alice's signature over Bob's.
    let alice = IdentityKeyPair::generate();
    let bob_signed = SignedPreKeyPair::generate();
    let carol = IdentityKeyPair::generate();
    let eve_signed = SignedPreKeyPair::generate();
    let forged = PeerBundle {
        identity: carol.public().clone(),
        signed_pre: eve_signed.public().clone(),
        signature: alice.sign(&bob_signed.public().to_bytes()).unwrap(),
        one_time_pre: OneTimePreKeyPublicBundle::from_pair(&OneTimeKeyPair::generate()),
    };
    let forged = forged.serialize().deserialize().unwrap();
    assert_eq!(
        initiator.peer_bundle_fetched("carol", &forged, &EphemeralKeyPair::generate()),
        Err(PlasmaError::X3dhLibError(X3dhError::SignatureInvalid))
    );
    assert_eq!(initiator.chat_state("carol"), ChatState::NoSecret);
    assert!(initiator.read_secret("carol").is_none());
}

#[test]
fn chats_are_isolated() {
    let mut directory = KeyDirectory::new();
    let mut alice = logged_in(&mut directory, "a@x");
    let _bob = logged_in(&mut directory, "b@x");
    let _dave = logged_in(&mut directory, "d@x");
    open_chat(&mut alice, &mut directory, "AB", "bob", "b@x").unwrap();
    open_chat(&mut alice, &mut directory, "AD", "dave", "d@x").unwrap();
    let with_bob = Cipher::new(alice.read_secret("bob").unwrap().clone());
    let with_dave = Cipher::new(alice.read_secret("dave").unwrap().clone());
    let sealed = with_bob.encrypt("for bob", 1).unwrap();
    assert_eq!(with_dave.decrypt(&sealed, 1), Err(CipherError::DecryptionError));
}

#[test]
fn exhausted_directory_stops_the_second_initiator() {
    let mut directory = KeyDirectory::new();
    let identity = IdentityKeyPair::generate();
    let signed = SignedPreKeyPair::generate();
    let bundle = plasma::handshake::RegisterBundle {
        identity: identity.public().clone(),
        signed_pre: signed.public().clone(),
        signature: identity.sign(&signed.public().to_bytes()).unwrap(),
        one_time_pres: vec![OneTimePreKeyPublicBundle::from_pair(&OneTimeKeyPair::generate())],
    };
    directory.publish_bundle("b@x", bundle.serialize()).unwrap();
    let first = directory.fetch_peer_bundle("b@x").unwrap().deserialize().unwrap();
    assert_eq!(first.one_time_pre.index(), 0);
    assert_eq!(directory.fetch_peer_bundle("b@x"), Err(DirectoryError::NoOneTimeLeft));
}

#[test]
fn saved_keys_are_read_back() {
    let mut store = KeyStore::new();
    let identity = IdentityKeyPair::generate();
    let signed = SignedPreKeyPair::generate();
    store.save_identity(identity.clone());
    store.save_signed(signed.clone());
    store.save_onetime(OneTimeKeyPair::generate().with_index(3));
    let second = OneTimeKeyPair::generate().with_index(3);
    store.save_onetime(second);
    assert_eq!(store.read_identity(), Some(&identity));
    assert_eq!(store.read_signed(), Some(&signed));
    assert_eq!(store.read_onetime(3).unwrap().index(), 3);
    assert!(store.read_onetime(4).is_none());
    store.save_secret("bob", plasma::keys::X3dhSharedSecret::from_bytes(&[7u8; 32]));
    assert_eq!(store.read_secret("bob").unwrap().to_bytes(), &[7u8; 32]);
    assert_eq!(store.chat_state("bob"), ChatState::Established);
    assert!(store.check_first_login().is_none());
}

#[test]
fn first_login_publishes_what_the_store_holds() {
    let mut store = KeyStore::new();
    store.save_secret("bob", plasma::keys::X3dhSharedSecret::from_bytes(&[7u8; 32]));
    let bundle = store.register_bundle().unwrap();
    let identity = store.read_identity().unwrap();
    let signed = store.read_signed().unwrap();
    assert_eq!(bundle.identity, *identity.public());
    assert_eq!(bundle.signed_pre, *signed.public());
    assert_eq!(Some(bundle.signature.clone()), identity.sign(&signed.public().to_bytes()));
    assert!(bundle.identity.verify(&bundle.signed_pre.to_bytes(), &bundle.signature).is_ok());
    assert_eq!(bundle.one_time_pres.len(), 50);
    assert_eq!(store.one_time().len(), 50);
    for (i, key) in bundle.one_time_pres.iter().enumerate() {
        assert_eq!(key.index() as usize, i);
        assert_eq!(key.key(), store.one_time()[i].public());
    }
    // What is not a key stays as it was.
    assert_eq!(store.read_secret("bob").unwrap().to_bytes(), &[7u8; 32]);
    assert!(store.quarantined().is_empty());
    // Registering once more puts new keys in the place of the old.
    let old_identity = identity.clone();
    let again = store.register_bundle().unwrap();
    assert_ne!(again.identity, *old_identity.public());
    assert_eq!(store.one_time().len(), 50);
}
