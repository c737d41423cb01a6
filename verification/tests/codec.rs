use plasma::error::X3dhError;
use plasma::handshake::{
    InitialMessage, InitialMessageBinary, OneTimePreKeyPublicBundle, PeerBundle, PeerBundleBinary,
    RegisterBundle, RegisterBundleBinary,
};
use plasma::keys::{
    EphemeralKeyPair, IdentityKeyPair, Key, KeyPair, OneTimeKeyPair, SignedPreKeyPair,
};
use plasma::wire::{bytes_eq, get_field, get_le, get_u16, get_u32, get_u64, put_field, put_le};

fn register_bundle_with(n: u16) -> RegisterBundle {
    let identity = IdentityKeyPair::generate();
    let signed_pre = SignedPreKeyPair::generate();
    let signature = identity.sign(&signed_pre.public().to_bytes()).unwrap();
    RegisterBundle {
        identity: identity.public().clone(),
        signed_pre: signed_pre.public().clone(),
        signature,
        one_time_pres: (0..n)
            .map(|i| OneTimePreKeyPublicBundle::from_pair(&OneTimeKeyPair::generate().with_index(i)))
            .collect(),
    }
}

#[test]
fn little_endian_integers() {
    let mut out = Vec::new();
    put_le(&mut out, 0x0102030405060708, 8);
    assert_eq!(out, vec![8u8, 7, 6, 5, 4, 3, 2, 1]);
    let mut out = vec![0xaa];
    put_le(&mut out, 0x0102, 2);
    assert_eq!(out, vec![0xaa, 2, 1]);
    let mut out = Vec::new();
    put_le(&mut out, 0x01020304, 2);
    assert_eq!(out, vec![4u8, 3]);
    put_le(&mut out, 9, 0);
    assert_eq!(out, vec![4u8, 3]);
    assert_eq!(get_le(&[8, 7, 6, 5, 4, 3, 2, 1], 0, 8), Some((0x0102030405060708, 8)));
    assert_eq!(get_u16(&[0, 0x34, 0x12, 9], 1), Some((0x1234, 3)));
    assert_eq!(get_u32(&[1, 0, 0, 0], 0), Some((1, 4)));
    assert_eq!(get_u64(&[0xff; 8], 0), Some((u64::MAX, 8)));
    assert_eq!(get_u16(&[1], 0), None);
    assert_eq!(get_u16(&[1, 2], 1), None);
    assert_eq!(get_u16(&[1, 2], 3), None);
    assert_eq!(get_le(&[1, 2], usize::MAX, 2), None);
    assert_eq!(get_le(&[1, 2], 2, 0), Some((0, 2)));
}

#[test]
fn fields_are_length_prefixed() {
    let mut out = Vec::new();
    put_field(&mut out, &[0xaa, 0xbb]);
    assert_eq!(out, vec![2u8, 0, 0, 0, 0, 0, 0, 0, 0xaa, 0xbb]);
    put_field(&mut out, &[]);
    assert_eq!(out.len(), 18);
    assert_eq!(get_field(&out, 0), Some((vec![0xaa, 0xbb], 10)));
    assert_eq!(get_field(&out, 10), Some((vec![], 18)));
    assert_eq!(get_field(&out, 18), None);
    assert_eq!(get_field(&out, 11), None);
    // A length that points behind the end.
    assert_eq!(get_field(&[3, 0, 0, 0, 0, 0, 0, 0, 1, 2], 0), None);
    assert_eq!(get_field(&[0xff; 12], 0), None);
    assert!(bytes_eq(&[1, 2], &[1, 2]));
    assert!(!bytes_eq(&[1, 2], &[1, 3]));
    assert!(!bytes_eq(&[1, 2], &[1]));
    assert!(bytes_eq(&[], &[]));
}

#[test]
fn register_bundle_bytes_round_trip() {
    let bundle = register_bundle_with(50);
    let binary = bundle.serialize();
    let bytes = binary.to_bytes();
    // Three fields, a count of four bytes, and fifty fields of a field and
    // two bytes each.
    assert_eq!(bytes.len(), (8 + 33) + (8 + 33) + (8 + 64) + 4 + 50 * (8 + 8 + 33 + 2));
    assert_eq!(&bytes[154..158], &[50u8, 0, 0, 0]);
    let back = RegisterBundleBinary::from_bytes(&bytes).unwrap();
    assert_eq!(back, binary);
    assert_eq!(back.deserialize().unwrap(), bundle);
}

#[test]
fn register_bundle_bytes_without_one_time_keys() {
    let binary = register_bundle_with(0).serialize();
    let bytes = binary.to_bytes();
    assert_eq!(&bytes[bytes.len() - 4..], &[0u8, 0, 0, 0]);
    assert_eq!(RegisterBundleBinary::from_bytes(&bytes), Ok(binary));
}

#[test]
fn register_bundle_bytes_are_exact() {
    let bytes = register_bundle_with(2).serialize().to_bytes();
    let mut longer = bytes.clone();
    longer.push(0);
    assert_eq!(RegisterBundleBinary::from_bytes(&longer), Err(X3dhError::MalformedBundle));
    for cut in [0, 1, 8, 40, 154, 157, bytes.len() - 1] {
        assert_eq!(
            RegisterBundleBinary::from_bytes(&bytes[..cut]),
            Err(X3dhError::MalformedBundle)
        );
    }
    // A count that promises more than there is.
    let mut more = bytes.clone();
    more[154] = 3;
    assert_eq!(RegisterBundleBinary::from_bytes(&more), Err(X3dhError::MalformedBundle));
    more[154] = 0xff;
    more[157] = 0xff;
    assert_eq!(RegisterBundleBinary::from_bytes(&more), Err(X3dhError::MalformedBundle));
    // A count that promises less leaves bytes behind.
    let mut less = bytes.clone();
    less[154] = 1;
    assert_eq!(RegisterBundleBinary::from_bytes(&less), Err(X3dhError::MalformedBundle));
}

#[test]
fn decoding_does_not_look_into_the_fields() {
    let binary = RegisterBundleBinary {
        identity: vec![1, 2, 3],
        signed_pre: vec![],
        signature: vec![9; 70],
        one_time_pres: vec![vec![], vec![7]],
    };
    let back = RegisterBundleBinary::from_bytes(&binary.to_bytes()).unwrap();
    assert_eq!(back, binary);
    assert_eq!(back.deserialize(), Err(X3dhError::MalformedKey));
}

#[test]
fn peer_bundle_bytes_round_trip() {
    let b = register_bundle_with(1);
    let peer = PeerBundle {
        identity: b.identity,
        signed_pre: b.signed_pre,
        signature: b.signature,
        one_time_pre: b.one_time_pres[0].clone(),
    };
    let binary = peer.serialize();
    let bytes = binary.to_bytes();
    assert_eq!(bytes.len(), (8 + 33) + (8 + 33) + (8 + 64) + (8 + 8 + 33 + 2));
    assert_eq!(PeerBundleBinary::from_bytes(&bytes), Ok(binary.clone()));
    assert_eq!(PeerBundleBinary::from_bytes(&bytes).unwrap().deserialize().unwrap(), peer);
    let mut longer = bytes.clone();
    longer.push(1);
    assert_eq!(PeerBundleBinary::from_bytes(&longer), Err(X3dhError::MalformedBundle));
    assert_eq!(
        PeerBundleBinary::from_bytes(&bytes[..bytes.len() - 1]),
        Err(X3dhError::MalformedBundle)
    );
    assert_eq!(PeerBundleBinary::from_bytes(&[]), Err(X3dhError::MalformedBundle));
}

#[test]
fn initial_message_bytes_round_trip() {
    let message = InitialMessage {
        identity: IdentityKeyPair::generate().public().clone(),
        ephemeral: EphemeralKeyPair::generate().public().clone(),
        one_time_idx: 0xbeef,
    };
    let binary = message.serialize();
    let bytes = binary.to_bytes();
    assert_eq!(bytes.len(), (8 + 33) + (8 + 33) + 2);
    assert_eq!(&bytes[bytes.len() - 2..], &[0xef, 0xbe]);
    let expected: Vec<u8> =
        bincode::serialize(&(&binary.identity, &binary.ephemeral, 0xbeefu16)).unwrap();
    assert_eq!(bytes, expected);
    assert_eq!(InitialMessageBinary::from_bytes(&bytes), Ok(binary));
    let mut longer = bytes.clone();
    longer.push(1);
    assert_eq!(InitialMessageBinary::from_bytes(&longer), Err(X3dhError::MalformedBundle));
    assert_eq!(
        InitialMessageBinary::from_bytes(&bytes[..bytes.len() - 1]),
        Err(X3dhError::MalformedBundle)
    );
}
