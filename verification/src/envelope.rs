//! The envelope of one chat message as it crosses the relay: who sent it, in
//! which chat, the sealed text, and the timestamp that is also the nonce.

use crate::text::text_from_utf8;
use crate::wire::{
    field, field_at, get_field, get_u64, le_at, le_bytes, lemma_field_at_exact,
    lemma_field_at_written, lemma_le_at_exact, lemma_le_at_written, lemma_le_bytes_len,
    lemma_radix_values, put_field, put_u64, radix,
};
use vstd::prelude::*;
use vstd::utf8::{
    decode_utf8, decode_utf8_encode_utf8, encode_utf8, encode_utf8_decode_utf8,
    encode_utf8_valid_utf8, valid_utf8,
};

verus! {

/// The model of an envelope.
pub struct WsMessageView {
    pub chat_id: Seq<char>,
    pub sender_id: Seq<char>,
    pub content: Seq<u8>,
    pub timestamp: u64,
}

impl WsMessageView {
    /// The frame of the envelope: the two identifiers as UTF-8 and the
    /// content, each a field, then the timestamp in eight bytes.
    pub open spec fn encode(self) -> Seq<u8> {
        field(encode_utf8(self.chat_id)) + field(encode_utf8(self.sender_id)) + field(
            self.content,
        ) + le_bytes(self.timestamp as nat, 8)
    }

    /// No part is longer than a length prefix can say.
    pub open spec fn fits(self) -> bool {
        &&& encode_utf8(self.chat_id).len() < radix(8)
        &&& encode_utf8(self.sender_id).len() < radix(8)
        &&& self.content.len() < radix(8)
    }
}

/// The envelope that a frame holds, where the frame is three fields and a
/// timestamp and nothing else, and the first two fields are text.
pub open spec fn decode(s: Seq<u8>) -> Option<WsMessageView> {
    match field_at(s, 0) {
        Some((chat, p)) => match field_at(s, p) {
            Some((sender, q)) => match field_at(s, q) {
                Some((content, r)) => match le_at(s, r, 8) {
                    Some((timestamp, end)) => if end == s.len() && valid_utf8(chat) && valid_utf8(
                        sender,
                    ) {
                        Some(
                            WsMessageView {
                                chat_id: decode_utf8(chat),
                                sender_id: decode_utf8(sender),
                                content,
                                timestamp: timestamp as u64,
                            },
                        )
                    } else {
                        None
                    },
                    None => None,
                },
                None => None,
            },
            None => None,
        },
        None => None,
    }
}

/// Decoding the frame of an envelope gives the envelope back.
pub proof fn lemma_envelope_round_trip(m: WsMessageView)
    requires
        m.fits(),
    ensures
        decode(m.encode()) == Some(m),
{
    broadcast use encode_utf8_valid_utf8, encode_utf8_decode_utf8;

    let a = encode_utf8(m.chat_id);
    let b = encode_utf8(m.sender_id);
    let c = m.content;
    let t = le_bytes(m.timestamp as nat, 8);
    let s = m.encode();
    lemma_radix_values();
    lemma_le_bytes_len(m.timestamp as nat, 8);
    lemma_field_at_written(Seq::empty(), a, field(b) + field(c) + t);
    assert(s =~= Seq::<u8>::empty() + field(a) + (field(b) + field(c) + t));
    lemma_field_at_written(field(a), b, field(c) + t);
    assert(s =~= field(a) + field(b) + (field(c) + t));
    lemma_field_at_written(field(a) + field(b), c, t);
    lemma_le_at_written(field(a) + field(b) + field(c), m.timestamp as nat, 8, Seq::empty());
    assert(s =~= field(a) + field(b) + field(c) + t + Seq::<u8>::empty());
}

/// A frame that decodes is the encoding of what it decodes to: no envelope
/// has two frames, and nothing may follow one.
pub proof fn lemma_envelope_exact(s: Seq<u8>)
    requires
        decode(s) is Some,
    ensures
        decode(s).unwrap().encode() == s,
{
    broadcast use decode_utf8_encode_utf8;

    lemma_field_at_exact(s, 0);
    let (chat, p) = field_at(s, 0).unwrap();
    lemma_field_at_exact(s, p);
    let (sender, q) = field_at(s, p).unwrap();
    lemma_field_at_exact(s, q);
    let (content, r) = field_at(s, q).unwrap();
    lemma_le_at_exact(s, r, 8);
    lemma_radix_values();
    assert(s =~= s.subrange(0, p) + s.subrange(p, q) + s.subrange(q, r) + s.subrange(
        r,
        s.len() as int,
    ));
}

/// One chat message on the wire.
#[derive(Debug, PartialEq, Eq)]
pub struct WsMessage {
    pub chat_id: String,
    pub sender_id: String,
    pub content: Vec<u8>,
    pub timestamp: u64,
}

impl View for WsMessage {
    type V = WsMessageView;

    open spec fn view(&self) -> WsMessageView {
        WsMessageView {
            chat_id: self.chat_id@,
            sender_id: self.sender_id@,
            content: self.content@,
            timestamp: self.timestamp,
        }
    }
}

impl Clone for WsMessage {
    fn clone(&self) -> (r: Self)
        ensures
            r@ == self@,
    {
        WsMessage {
            chat_id: self.chat_id.clone(),
            sender_id: self.sender_id.clone(),
            content: self.content.clone(),
            timestamp: self.timestamp,
        }
    }
}

impl WsMessage {
    /// The frame of the envelope, which decodes to this envelope.
    pub fn to_bytes(&self) -> (r: Vec<u8>)
        ensures
            r@ == self@.encode(),
            decode(r@) == Some(self@),
    {
        let mut out: Vec<u8> = Vec::new();
        let chat = self.chat_id.as_str().as_bytes();
        let sender = self.sender_id.as_str().as_bytes();
        put_field(&mut out, chat);
        put_field(&mut out, sender);
        put_field(&mut out, self.content.as_slice());
        put_u64(&mut out, self.timestamp);
        proof {
            assert(out@ =~= self@.encode());
            lemma_radix_values();
            lemma_envelope_round_trip(self@);
        }
        out
    }

    /// The envelope that a frame holds; `None` for bytes that are no frame.
    pub fn from_bytes(bytes: &[u8]) -> (r: Option<Self>)
        ensures
            r is Some <==> decode(bytes@) is Some,
            r matches Some(m) ==> decode(bytes@) == Some(m@) && m@.encode() == bytes@,
    {
        broadcast use encode_utf8_decode_utf8;

        let (chat, p) = match get_field(bytes, 0) {
            Some(read) => read,
            None => { return None; },
        };
        let (sender, q) = match get_field(bytes, p) {
            Some(read) => read,
            None => { return None; },
        };
        let (content, r) = match get_field(bytes, q) {
            Some(read) => read,
            None => { return None; },
        };
        let (timestamp, end) = match get_u64(bytes, r) {
            Some(read) => read,
            None => { return None; },
        };
        if end != bytes.len() {
            return None;
        }
        let chat_id = match text_from_utf8(chat) {
            Some(text) => text,
            None => { return None; },
        };
        let sender_id = match text_from_utf8(sender) {
            Some(text) => text,
            None => { return None; },
        };
        proof {
            lemma_envelope_exact(bytes@);
        }
        Some(WsMessage { chat_id, sender_id, content, timestamp })
    }
}

} // verus!
