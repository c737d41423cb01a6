use plasma::error::X3dhError;
use plasma::handshake::{
    InitialMessage, InitialMessageBinary, OneTimePreKeyPublicBundle, PeerBundle, PeerBundleBinary,
    RegisterBundle, RegisterBundleBinary,
};
use plasma::keys::{
    EphemeralKeyPair, IdentityKeyPair, Key, KeyPair, OneTimeKeyPair, SignedPreKeyPair,
};

fn register_bundle_with(n: u16) -> RegisterBundle {
    let identity = IdentityKeyPair::generate();
    let signed_pre = SignedPreKeyPair::generate();
    let sig = identity.sign(&signed_pre.public().to_bytes()).unwrap();
    RegisterBundle {
        identity: identity.public().clone(),
        signed_pre: signed_pre.public().clone(),
        signature: sig,
        one_time_pres: (0..n)
            .map(|i| OneTimePreKeyPublicBundle::from_pair(&OneTimeKeyPair::generate().with_index(i)))
            .collect(),
    }
}

fn random_register_bundle() -> RegisterBundle {
    register_bundle_with(1)
}

fn random_peer_bundle() -> PeerBundle {
    let b = random_register_bundle();
    PeerBundle {
        identity: b.identity,
        signed_pre: b.signed_pre,
        signature: b.signature,
        one_time_pre: b.one_time_pres[0].clone(),
    }
}

fn random_initial_message() -> InitialMessage {
    InitialMessage {
        identity: IdentityKeyPair::generate().public().clone(),
        ephemeral: EphemeralKeyPair::generate().public().clone(),
        one_time_idx: rand::random::<u16>(),
    }
}

#[test]
fn register_bundle_deserialize_serialize() {
    let rb = random_register_bundle();
    let rb_clone = rb.serialize().deserialize().unwrap();

    assert_eq!(rb, rb_clone);
}

#[test]
fn peer_bundl_deserialize_serialize() {
    let pb = random_peer_bundle();
    let pb_clone = pb.serialize().deserialize().unwrap();

    assert_eq!(pb, pb_clone);
}

#[test]
fn initial_message_deserialize_serialize() {
    let im = random_initial_message();
    let im_clone = im.serialize().deserialize().unwrap();

    assert_eq!(im, im_clone);
}

#[test]
fn register_bundle_of_fifty_survives() {
    let rb = register_bundle_with(50);
    let binary = rb.serialize();
    assert_eq!(binary.one_time_pres.len(), 50);
    let back = binary.deserialize().unwrap();
    assert_eq!(back, rb);
    for (i, key) in back.one_time_pres.iter().enumerate() {
        assert_eq!(key.index() as usize, i);
    }
}

#[test]
fn one_time_pre_key_encoding() {
    let pair = OneTimeKeyPair::generate().with_index(0x0102);
    let published = OneTimePreKeyPublicBundle::from_pair(&pair);
    assert_eq!(published.index(), 0x0102);
    assert_eq!(published.key(), pair.public());
    let bytes = published.to_bytes();
    let expected: Vec<u8> = bincode::serialize(&(pair.public().to_bytes(), 0x0102u16)).unwrap();
    assert_eq!(bytes, expected);
    assert_eq!(bytes.len(), 8 + 33 + 2);
    assert_eq!(OneTimePreKeyPublicBundle::from_bytes(&bytes), Ok(published));
}

#[test]
fn one_time_pre_key_errors() {
    let pair = OneTimeKeyPair::generate();
    let mut bytes = OneTimePreKeyPublicBundle::from_pair(&pair).to_bytes();
    bytes.push(0);
    assert_eq!(OneTimePreKeyPublicBundle::from_bytes(&bytes), Err(X3dhError::MalformedBundle));
    assert_eq!(OneTimePreKeyPublicBundle::from_bytes(&[]), Err(X3dhError::MalformedBundle));
    let not_a_point: Vec<u8> = bincode::serialize(&(vec![0u8; 33], 1u16)).unwrap();
    assert_eq!(OneTimePreKeyPublicBundle::from_bytes(&not_a_point), Err(X3dhError::MalformedKey));
}

#[test]
fn register_bundle_errors_name_the_first_bad_part() {
    let good = register_bundle_with(2).serialize();
    let copy = |b: &RegisterBundleBinary| RegisterBundleBinary {
        identity: b.identity.clone(),
        signed_pre: b.signed_pre.clone(),
        signature: b.signature.clone(),
        one_time_pres: b.one_time_pres.clone(),
    };

    let mut bad = copy(&good);
    bad.identity = vec![0u8; 33];
    bad.signature = vec![0u8; 64];
    assert_eq!(bad.deserialize(), Err(X3dhError::MalformedKey));

    let mut bad = copy(&good);
    bad.signed_pre.pop();
    assert_eq!(bad.deserialize(), Err(X3dhError::MalformedKey));

    let mut bad = copy(&good);
    bad.signature = vec![0u8; 64];
    bad.one_time_pres[0] = vec![];
    assert_eq!(bad.deserialize(), Err(X3dhError::MalformedBundle));

    let mut bad = copy(&good);
    bad.one_time_pres[1].push(7);
    assert_eq!(bad.deserialize(), Err(X3dhError::MalformedBundle));

    let mut bad = copy(&good);
    bad.one_time_pres[0] = bincode::serialize(&(vec![0u8; 33], 1u16)).unwrap();
    bad.one_time_pres[1] = vec![];
    assert_eq!(bad.deserialize(), Err(X3dhError::MalformedKey));

    assert!(copy(&good).deserialize().is_ok());
}

#[test]
fn peer_bundle_errors() {
    let good = random_peer_bundle().serialize();
    let bad = PeerBundleBinary {
        identity: good.identity.clone(),
        signed_pre: good.signed_pre.clone(),
        signature: vec![1u8; 63],
        one_time_pre: good.one_time_pre.clone(),
    };
    assert_eq!(bad.deserialize(), Err(X3dhError::MalformedBundle));
    let bad = PeerBundleBinary {
        identity: good.identity.clone(),
        signed_pre: good.signed_pre.clone(),
        signature: good.signature.clone(),
        one_time_pre: vec![1, 2, 3],
    };
    assert_eq!(bad.deserialize(), Err(X3dhError::MalformedBundle));
    let bad = PeerBundleBinary {
        identity: vec![],
        signed_pre: good.signed_pre.clone(),
        signature: good.signature.clone(),
        one_time_pre: good.one_time_pre.clone(),
    };
    assert_eq!(bad.deserialize(), Err(X3dhError::MalformedKey));
}

#[test]
fn initial_message_errors() {
    let good = random_initial_message().serialize();
    let bad = InitialMessageBinary {
        identity: good.identity.clone(),
        ephemeral: vec![2u8; 32],
        one_time_idx: good.one_time_idx,
    };
    assert_eq!(bad.deserialize(), Err(X3dhError::MalformedKey));
}

#[test]
fn binary_forms_hold_the_key_bytes() {
    let im = random_initial_message();
    let binary = im.serialize();
    assert_eq!(binary.identity, im.identity.to_bytes());
    assert_eq!(binary.ephemeral, im.ephemeral.to_bytes());
    assert_eq!(binary.one_time_idx, im.one_time_idx);
    assert_eq!(im.clone(), im);
}
