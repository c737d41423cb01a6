use plasma::envelope::WsMessage;

fn sample() -> WsMessage {
    WsMessage {
        chat_id: String::from("65a1b2c3d4e5f60718293a4b"),
        sender_id: String::from("0123456789abcdef01234567"),
        content: vec![1, 2, 3],
        timestamp: 1_700_000_000_000_000,
    }
}

#[test]
fn envelope_round_trip() {
    let m = sample();
    assert_eq!(WsMessage::from_bytes(&m.to_bytes()), Some(m));
}

#[test]
fn envelope_frame_layout() {
    let m = sample();
    let bytes = m.to_bytes();
    let expected: Vec<u8> =
        bincode::serialize(&(&m.chat_id, &m.sender_id, &m.content, m.timestamp)).unwrap();
    assert_eq!(bytes, expected);
    assert_eq!(bytes.len(), 8 + 24 + 8 + 24 + 8 + 3 + 8);
    assert_eq!(&bytes[..8], &[24u8, 0, 0, 0, 0, 0, 0, 0]);
    assert_eq!(&bytes[8..32], m.chat_id.as_bytes());
    assert_eq!(&bytes[bytes.len() - 8..], &1_700_000_000_000_000u64.to_le_bytes());
}

#[test]
fn envelope_rejects_what_is_no_frame() {
    let m = sample();
    let bytes = m.to_bytes();
    assert_eq!(WsMessage::from_bytes(&[]), None);
    assert_eq!(WsMessage::from_bytes(&bytes[..bytes.len() - 1]), None);
    let mut longer = bytes.clone();
    longer.push(0);
    assert_eq!(WsMessage::from_bytes(&longer), None);
    let mut not_text = bytes.clone();
    not_text[8] = 0xff;
    assert_eq!(WsMessage::from_bytes(&not_text), None);
    let mut too_long = bytes.clone();
    too_long[0] = 0xff;
    too_long[7] = 0xff;
    assert_eq!(WsMessage::from_bytes(&too_long), None);
}

#[test]
fn empty_envelope() {
    let m = WsMessage {
        chat_id: String::new(),
        sender_id: String::new(),
        content: vec![],
        timestamp: 0,
    };
    let bytes = m.to_bytes();
    assert_eq!(bytes, vec![0u8; 32]);
    assert_eq!(WsMessage::from_bytes(&bytes), Some(m));
}

#[test]
fn envelope_with_text_beyond_ascii() {
    let m = WsMessage {
        chat_id: String::from("čau"),
        sender_id: String::from("日本"),
        content: vec![0xff],
        timestamp: u64::MAX,
    };
    assert_eq!(WsMessage::from_bytes(&m.to_bytes()), Some(m.clone()));
}
