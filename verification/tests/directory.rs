use plasma::directory::{DirectoryError, KeyDirectory};
use plasma::handshake::{
    InitialMessage, InitialMessageBinary, OneTimePreKeyPublicBundle, RegisterBundle,
    RegisterBundleBinary,
};
use plasma::keys::{
    EphemeralKeyPair, IdentityKeyPair, Key, KeyPair, OneTimeKeyPair, SignedPreKeyPair,
};

fn bundle_with(n: u16) -> RegisterBundleBinary {
    let identity = IdentityKeyPair::generate();
    let signed_pre = SignedPreKeyPair::generate();
    let signature = identity.sign(&signed_pre.public().to_bytes()).unwrap();
    RegisterBundle {
        identity: identity.public().clone(),
        signed_pre: signed_pre.public().clone(),
        signature,
        one_time_pres: (0..n)
            .map(|i| OneTimePreKeyPublicBundle::from_pair(&OneTimeKeyPair::generate().with_index(i)))
            .collect(),
    }
    .serialize()
}

fn initial_message(idx: u16) -> InitialMessageBinary {
    InitialMessage {
        identity: IdentityKeyPair::generate().public().clone(),
        ephemeral: EphemeralKeyPair::generate().public().clone(),
        one_time_idx: idx,
    }
    .serialize()
}

#[test]
fn publish_once() {
    let mut directory = KeyDirectory::new();
    let first = bundle_with(2);
    assert_eq!(directory.publish_bundle("alice", first.clone()), Ok(()));
    assert_eq!(
        directory.publish_bundle("alice", bundle_with(2)),
        Err(DirectoryError::AlreadyPublished)
    );
    // The first bundle stands.
    let peer = directory.fetch_peer_bundle("alice").unwrap();
    assert_eq!(peer.identity, first.identity);
    assert_eq!(peer.one_time_pre, first.one_time_pres[0]);
    assert_eq!(directory.publish_bundle("bob", bundle_with(1)), Ok(()));
}

#[test]
fn fetch_of_unknown_user() {
    let mut directory = KeyDirectory::new();
    assert_eq!(directory.fetch_peer_bundle("nobody"), Err(DirectoryError::UnknownUser));
    assert_eq!(directory.one_time_left("nobody"), None);
}

#[test]
fn one_time_pre_key_exhaustion() {
    let mut directory = KeyDirectory::new();
    let bundle = bundle_with(1);
    directory.publish_bundle("bob", bundle.clone()).unwrap();
    let first = directory.fetch_peer_bundle("bob").unwrap().deserialize().unwrap();
    assert_eq!(first.one_time_pre.index(), 0);
    assert_eq!(directory.fetch_peer_bundle("bob"), Err(DirectoryError::NoOneTimeLeft));
    assert_eq!(directory.fetch_peer_bundle("bob"), Err(DirectoryError::NoOneTimeLeft));
    assert_eq!(directory.one_time_left("bob"), Some(0));
}

#[test]
fn fetches_hand_out_distinct_indices_in_order() {
    let mut directory = KeyDirectory::new();
    let bundle = bundle_with(50);
    directory.publish_bundle("bob", bundle.clone()).unwrap();
    directory.publish_bundle("carol", bundle_with(3)).unwrap();
    for i in 0..50u16 {
        assert_eq!(directory.one_time_left("bob"), Some(50 - i as usize));
        let peer = directory.fetch_peer_bundle("bob").unwrap();
        assert_eq!(peer.identity, bundle.identity);
        assert_eq!(peer.signed_pre, bundle.signed_pre);
        assert_eq!(peer.signature, bundle.signature);
        assert_eq!(peer.one_time_pre, bundle.one_time_pres[i as usize]);
        assert_eq!(peer.deserialize().unwrap().one_time_pre.index(), i);
    }
    assert_eq!(directory.fetch_peer_bundle("bob"), Err(DirectoryError::NoOneTimeLeft));
    // Another user's pool is untouched.
    assert_eq!(directory.one_time_left("carol"), Some(3));
}

#[test]
fn bundle_without_one_time_pre_keys() {
    let mut directory = KeyDirectory::new();
    directory.publish_bundle("bob", bundle_with(0)).unwrap();
    assert_eq!(directory.fetch_peer_bundle("bob"), Err(DirectoryError::NoOneTimeLeft));
}

#[test]
fn first_initial_message_wins() {
    let mut directory = KeyDirectory::new();
    assert_eq!(directory.fetch_initial_message("chat"), None);
    let first = initial_message(3);
    let second = initial_message(4);
    assert!(directory.deposit_initial_message("chat", first.clone()));
    assert!(!directory.deposit_initial_message("chat", second.clone()));
    assert_eq!(directory.fetch_initial_message("chat"), Some(first.clone()));
    // Fetching never deletes.
    assert_eq!(directory.fetch_initial_message("chat"), Some(first));
    assert!(directory.deposit_initial_message("other", second.clone()));
    assert_eq!(directory.fetch_initial_message("other"), Some(second));
}
