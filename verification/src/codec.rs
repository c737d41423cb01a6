//! The bytes of a bundle and of an initial message. Every part is a field: a
//! byte string behind its length. A list is its count in four bytes and then
//! its elements. Nothing stands between the parts and nothing behind them, so
//! that what decodes has one encoding.

use crate::error::X3dhError;
use crate::handshake::{
    InitialMessageBinary, InitialMessageView, PeerBundleBinary, PeerBundleBinaryView,
    RegisterBundleBinary, RegisterBundleBinaryView,
};
use crate::wire::{
    field, field_at, get_field, get_u16, get_u32, le_at, le_bytes, lemma_field_at_exact,
    lemma_field_at_written, lemma_le_at_exact, lemma_le_at_written, lemma_le_bytes_len,
    lemma_radix_values, put_field, put_u16, put_u32, radix,
};
use vstd::prelude::*;

verus! {

/// The fields of a list of byte strings, one behind the other.
pub open spec fn fields(blobs: Seq<Seq<u8>>) -> Seq<u8>
    decreases blobs.len(),
{
    if blobs.len() == 0 {
        Seq::empty()
    } else {
        fields(blobs.drop_last()) + field(blobs.last())
    }
}

/// The `n` fields that start at `pos` in `s`, with the position behind them;
/// `None` where `s` ends before.
pub open spec fn fields_at(s: Seq<u8>, pos: int, n: nat) -> Option<(Seq<Seq<u8>>, int)>
    decreases n,
{
    if n == 0 {
        Some((Seq::empty(), pos))
    } else {
        match fields_at(s, pos, (n - 1) as nat) {
            Some((front, p)) => match field_at(s, p) {
                Some((blob, q)) => Some((front.push(blob), q)),
                None => None,
            },
            None => None,
        }
    }
}

/// Every byte string of the list fits a length prefix.
pub open spec fn all_fit(blobs: Seq<Seq<u8>>) -> bool {
    forall|i: int| 0 <= i < blobs.len() ==> (#[trigger] blobs[i]).len() < radix(8)
}

/// Fields written at the end of `prefix` are read back there, whatever
/// follows them.
pub proof fn lemma_fields_at_written(prefix: Seq<u8>, blobs: Seq<Seq<u8>>, rest: Seq<u8>)
    requires
        all_fit(blobs),
    ensures
        fields_at(prefix + fields(blobs) + rest, prefix.len() as int, blobs.len()) == Some(
            (blobs, (prefix.len() + fields(blobs).len()) as int),
        ),
    decreases blobs.len(),
{
    let s = prefix + fields(blobs) + rest;
    if blobs.len() == 0 {
        assert(blobs =~= Seq::empty());
    } else {
        let front = blobs.drop_last();
        let last = blobs.last();
        assert(all_fit(front)) by {
            assert forall|i: int| 0 <= i < front.len() implies (#[trigger] front[i]).len() < radix(
                8,
            ) by {
                assert(front[i] == blobs[i]);
            }
        }
        assert(last == blobs[blobs.len() - 1]);
        lemma_fields_at_written(prefix, front, field(last) + rest);
        assert(s =~= prefix + fields(front) + (field(last) + rest));
        lemma_field_at_written(prefix + fields(front), last, rest);
        assert(s =~= prefix + fields(front) + field(last) + rest);
        assert(front.push(last) =~= blobs);
    }
}

/// What `fields_at` reads are fields in full.
pub proof fn lemma_fields_at_exact(s: Seq<u8>, pos: int, n: nat)
    requires
        0 <= pos <= s.len(),
        fields_at(s, pos, n) is Some,
    ensures
        ({
            let (blobs, end) = fields_at(s, pos, n).unwrap();
            &&& blobs.len() == n
            &&& pos <= end <= s.len()
            &&& s.subrange(pos, end) == fields(blobs)
        }),
    decreases n,
{
    let (blobs, end) = fields_at(s, pos, n).unwrap();
    if n == 0 {
        assert(s.subrange(pos, end) =~= fields(blobs));
    } else {
        lemma_fields_at_exact(s, pos, (n - 1) as nat);
        let (front, p) = fields_at(s, pos, (n - 1) as nat).unwrap();
        lemma_field_at_exact(s, p);
        assert(blobs.drop_last() =~= front);
        assert(s.subrange(pos, end) =~= s.subrange(pos, p) + s.subrange(p, end));
    }
}

impl RegisterBundleBinaryView {
    /// The bytes of the bundle: identity key, signed pre-key and signature as
    /// fields, the count of one-time pre-keys in four bytes, and each of them
    /// as a field.
    pub open spec fn encode(self) -> Seq<u8> {
        field(self.identity) + field(self.signed_pre) + field(self.signature) + le_bytes(
            self.one_time_pres.len(),
            4,
        ) + fields(self.one_time_pres)
    }

    /// Every part fits its length prefix, and the count its four bytes.
    pub open spec fn fits(self) -> bool {
        &&& self.identity.len() < radix(8)
        &&& self.signed_pre.len() < radix(8)
        &&& self.signature.len() < radix(8)
        &&& self.one_time_pres.len() < radix(4)
        &&& all_fit(self.one_time_pres)
    }

    /// The bundle that bytes hold, where they hold one and nothing else.
    pub open spec fn decode(s: Seq<u8>) -> Option<RegisterBundleBinaryView> {
        match field_at(s, 0) {
            Some((identity, p)) => match field_at(s, p) {
                Some((signed_pre, q)) => match field_at(s, q) {
                    Some((signature, r)) => match le_at(s, r, 4) {
                        Some((count, t)) => match fields_at(s, t, count) {
                            Some((one_time_pres, end)) => if end == s.len() {
                                Some(
                                    RegisterBundleBinaryView {
                                        identity,
                                        signed_pre,
                                        signature,
                                        one_time_pres,
                                    },
                                )
                            } else {
                                None
                            },
                            None => None,
                        },
                        None => None,
                    },
                    None => None,
                },
                None => None,
            },
            None => None,
        }
    }
}

/// Decoding the bytes of a register bundle gives the bundle back.
pub proof fn lemma_register_bytes_round_trip(b: RegisterBundleBinaryView)
    requires
        b.fits(),
    ensures
        RegisterBundleBinaryView::decode(b.encode()) == Some(b),
{
    let s = b.encode();
    let n = le_bytes(b.one_time_pres.len(), 4);
    let tail = fields(b.one_time_pres);
    let fa = field(b.identity);
    let fb = field(b.signed_pre);
    let fc = field(b.signature);
    lemma_le_bytes_len(b.one_time_pres.len(), 4);
    lemma_field_at_written(Seq::empty(), b.identity, fb + fc + n + tail);
    assert(s =~= Seq::<u8>::empty() + fa + (fb + fc + n + tail));
    lemma_field_at_written(fa, b.signed_pre, fc + n + tail);
    assert(s =~= fa + fb + (fc + n + tail));
    lemma_field_at_written(fa + fb, b.signature, n + tail);
    assert(s =~= fa + fb + fc + (n + tail));
    lemma_le_at_written(fa + fb + fc, b.one_time_pres.len(), 4, tail);
    assert(s =~= fa + fb + fc + n + tail);
    lemma_fields_at_written(fa + fb + fc + n, b.one_time_pres, Seq::empty());
    assert(s =~= fa + fb + fc + n + tail + Seq::<u8>::empty());
}

/// Bytes that decode as a register bundle are the encoding of that bundle.
pub proof fn lemma_register_bytes_exact(s: Seq<u8>)
    requires
        RegisterBundleBinaryView::decode(s) is Some,
    ensures
        RegisterBundleBinaryView::decode(s).unwrap().encode() == s,
{
    lemma_field_at_exact(s, 0);
    let (identity, p) = field_at(s, 0).unwrap();
    lemma_field_at_exact(s, p);
    let (signed_pre, q) = field_at(s, p).unwrap();
    lemma_field_at_exact(s, q);
    let (signature, r) = field_at(s, q).unwrap();
    lemma_le_at_exact(s, r, 4);
    let (count, t) = le_at(s, r, 4).unwrap();
    lemma_fields_at_exact(s, t, count);
    assert(s =~= s.subrange(0, p) + s.subrange(p, q) + s.subrange(q, r) + s.subrange(r, t)
        + s.subrange(t, s.len() as int));
}

impl PeerBundleBinaryView {
    /// The bytes of the bundle: its four parts as fields.
    pub open spec fn encode(self) -> Seq<u8> {
        field(self.identity) + field(self.signed_pre) + field(self.signature) + field(
            self.one_time_pre,
        )
    }

    /// Every part fits its length prefix.
    pub open spec fn fits(self) -> bool {
        &&& self.identity.len() < radix(8)
        &&& self.signed_pre.len() < radix(8)
        &&& self.signature.len() < radix(8)
        &&& self.one_time_pre.len() < radix(8)
    }

    /// The bundle that bytes hold, where they hold one and nothing else.
    pub open spec fn decode(s: Seq<u8>) -> Option<PeerBundleBinaryView> {
        match field_at(s, 0) {
            Some((identity, p)) => match field_at(s, p) {
                Some((signed_pre, q)) => match field_at(s, q) {
                    Some((signature, r)) => match field_at(s, r) {
                        Some((one_time_pre, end)) => if end == s.len() {
                            Some(
                                PeerBundleBinaryView {
                                    identity,
                                    signed_pre,
                                    signature,
                                    one_time_pre,
                                },
                            )
                        } else {
                            None
                        },
                        None => None,
                    },
                    None => None,
                },
                None => None,
            },
            None => None,
        }
    }
}

/// Decoding the bytes of a peer bundle gives the bundle back.
pub proof fn lemma_peer_bytes_round_trip(b: PeerBundleBinaryView)
    requires
        b.fits(),
    ensures
        PeerBundleBinaryView::decode(b.encode()) == Some(b),
{
    let s = b.encode();
    let fa = field(b.identity);
    let fb = field(b.signed_pre);
    let fc = field(b.signature);
    let fd = field(b.one_time_pre);
    lemma_field_at_written(Seq::empty(), b.identity, fb + fc + fd);
    assert(s =~= Seq::<u8>::empty() + fa + (fb + fc + fd));
    lemma_field_at_written(fa, b.signed_pre, fc + fd);
    assert(s =~= fa + fb + (fc + fd));
    lemma_field_at_written(fa + fb, b.signature, fd);
    lemma_field_at_written(fa + fb + fc, b.one_time_pre, Seq::empty());
    assert(s =~= fa + fb + fc + fd + Seq::<u8>::empty());
}

/// Bytes that decode as a peer bundle are the encoding of that bundle.
pub proof fn lemma_peer_bytes_exact(s: Seq<u8>)
    requires
        PeerBundleBinaryView::decode(s) is Some,
    ensures
        PeerBundleBinaryView::decode(s).unwrap().encode() == s,
{
    lemma_field_at_exact(s, 0);
    let (identity, p) = field_at(s, 0).unwrap();
    lemma_field_at_exact(s, p);
    let (signed_pre, q) = field_at(s, p).unwrap();
    lemma_field_at_exact(s, q);
    let (signature, r) = field_at(s, q).unwrap();
    lemma_field_at_exact(s, r);
    assert(s =~= s.subrange(0, p) + s.subrange(p, q) + s.subrange(q, r) + s.subrange(
        r,
        s.len() as int,
    ));
}

impl InitialMessageView {
    /// The bytes of the message: the two keys as fields, then the index in
    /// two bytes.
    pub open spec fn encode(self) -> Seq<u8> {
        field(self.identity) + field(self.ephemeral) + le_bytes(self.one_time_idx as nat, 2)
    }

    /// Both keys fit their length prefix.
    pub open spec fn fits(self) -> bool {
        self.identity.len() < radix(8) && self.ephemeral.len() < radix(8)
    }

    /// The message that bytes hold, where they hold one and nothing else.
    pub open spec fn decode(s: Seq<u8>) -> Option<InitialMessageView> {
        match field_at(s, 0) {
            Some((identity, p)) => match field_at(s, p) {
                Some((ephemeral, q)) => match le_at(s, q, 2) {
                    Some((index, end)) => if end == s.len() {
                        Some(InitialMessageView { identity, ephemeral, one_time_idx: index as u16 })
                    } else {
                        None
                    },
                    None => None,
                },
                None => None,
            },
            None => None,
        }
    }
}

/// Decoding the bytes of an initial message gives the message back.
pub proof fn lemma_initial_bytes_round_trip(m: InitialMessageView)
    requires
        m.fits(),
    ensures
        InitialMessageView::decode(m.encode()) == Some(m),
{
    let s = m.encode();
    let fa = field(m.identity);
    let fb = field(m.ephemeral);
    let t = le_bytes(m.one_time_idx as nat, 2);
    lemma_radix_values();
    lemma_le_bytes_len(m.one_time_idx as nat, 2);
    lemma_field_at_written(Seq::empty(), m.identity, fb + t);
    assert(s =~= Seq::<u8>::empty() + fa + (fb + t));
    lemma_field_at_written(fa, m.ephemeral, t);
    lemma_le_at_written(fa + fb, m.one_time_idx as nat, 2, Seq::empty());
    assert(s =~= fa + fb + t + Seq::<u8>::empty());
}

/// Bytes that decode as an initial message are the encoding of that message.
pub proof fn lemma_initial_bytes_exact(s: Seq<u8>)
    requires
        InitialMessageView::decode(s) is Some,
    ensures
        InitialMessageView::decode(s).unwrap().encode() == s,
{
    lemma_field_at_exact(s, 0);
    let (identity, p) = field_at(s, 0).unwrap();
    lemma_field_at_exact(s, p);
    let (ephemeral, q) = field_at(s, p).unwrap();
    lemma_le_at_exact(s, q, 2);
    lemma_radix_values();
    assert(s =~= s.subrange(0, p) + s.subrange(p, q) + s.subrange(q, s.len() as int));
}

impl RegisterBundleBinary {
    /// The bytes of the bundle, which decode to it. The count of one-time
    /// pre-keys has to fit its four bytes.
    pub fn to_bytes(&self) -> (r: Vec<u8>)
        requires
            self.one_time_pres@.len() <= u32::MAX,
        ensures
            r@ == self@.encode(),
            RegisterBundleBinaryView::decode(r@) == Some(self@),
    {
        let mut out: Vec<u8> = Vec::new();
        put_field(&mut out, self.identity.as_slice());
        put_field(&mut out, self.signed_pre.as_slice());
        put_field(&mut out, self.signature.as_slice());
        put_u32(&mut out, self.one_time_pres.len() as u32);
        let ghost head = out@;
        let ghost blobs = self@.one_time_pres;
        let mut i: usize = 0;
        while i < self.one_time_pres.len()
            invariant
                i <= self.one_time_pres.len(),
                blobs == self@.one_time_pres,
                out@ == head + fields(blobs.take(i as int)),
                all_fit(blobs.take(i as int)),
            decreases self.one_time_pres.len() - i,
        {
            put_field(&mut out, self.one_time_pres[i].as_slice());
            proof {
                let next = blobs.take(i + 1);
                assert(next.drop_last() =~= blobs.take(i as int));
                assert(next.last() == self.one_time_pres@[i as int]@);
                assert(out@ =~= head + fields(next));
                assert forall|j: int| 0 <= j < next.len() implies (#[trigger] next[j]).len()
                    < radix(8) by {
                    if j < i {
                        assert(blobs.take(i as int)[j] == next[j]);
                    }
                }
            }
            i = i + 1;
        }
        proof {
            assert(blobs.take(i as int) =~= blobs);
            lemma_radix_values();
            lemma_register_bytes_round_trip(self@);
        }
        out
    }

    /// The bundle that bytes hold; `MalformedBundle` for bytes that hold none,
    /// or more than one.
    pub fn from_bytes(bytes: &[u8]) -> (r: Result<Self, X3dhError>)
        ensures
            r is Ok <==> RegisterBundleBinaryView::decode(bytes@) is Some,
            r matches Ok(bundle) ==> RegisterBundleBinaryView::decode(bytes@) == Some(bundle@)
                && bundle@.encode() == bytes@,
            r matches Err(e) ==> e == X3dhError::MalformedBundle,
    {
        let (identity, p) = match get_field(bytes, 0) {
            Some(read) => read,
            None => { return Err(X3dhError::MalformedBundle); },
        };
        let (signed_pre, q) = match get_field(bytes, p) {
            Some(read) => read,
            None => { return Err(X3dhError::MalformedBundle); },
        };
        let (signature, r) = match get_field(bytes, q) {
            Some(read) => read,
            None => { return Err(X3dhError::MalformedBundle); },
        };
        let (count, t) = match get_u32(bytes, r) {
            Some(read) => read,
            None => { return Err(X3dhError::MalformedBundle); },
        };
        let mut one_time_pres: Vec<Vec<u8>> = Vec::new();
        let mut pos: usize = t;
        let mut i: u32 = 0;
        assert(one_time_pres@.map_values(|b: Vec<u8>| b@) =~= Seq::<Seq<u8>>::empty());
        while i < count
            invariant
                i <= count,
                field_at(bytes@, 0) == Some((identity@, p as int)),
                field_at(bytes@, p as int) == Some((signed_pre@, q as int)),
                field_at(bytes@, q as int) == Some((signature@, r as int)),
                le_at(bytes@, r as int, 4) == Some((count as nat, t as int)),
                fields_at(bytes@, t as int, i as nat) == Some(
                    (one_time_pres@.map_values(|b: Vec<u8>| b@), pos as int),
                ),
            decreases count - i,
        {
            let ghost before = one_time_pres@.map_values(|b: Vec<u8>| b@);
            match get_field(bytes, pos) {
                Some((blob, next)) => {
                    one_time_pres.push(blob);
                    assert(one_time_pres@.map_values(|b: Vec<u8>| b@) =~= before.push(blob@));
                    pos = next;
                },
                None => {
                    proof {
                        assert(fields_at(bytes@, t as int, (i + 1) as nat) is None);
                        lemma_fields_at_fails(bytes@, t as int, (i + 1) as nat, count as nat);
                    }
                    return Err(X3dhError::MalformedBundle);
                },
            }
            i = i + 1;
        }
        if pos != bytes.len() {
            return Err(X3dhError::MalformedBundle);
        }
        proof {
            lemma_register_bytes_exact(bytes@);
        }
        Ok(RegisterBundleBinary { identity, signed_pre, signature, one_time_pres })
    }
}

/// Where fewer fields cannot be read, more cannot either.
proof fn lemma_fields_at_fails(s: Seq<u8>, pos: int, n: nat, m: nat)
    requires
        n <= m,
        fields_at(s, pos, n) is None,
    ensures
        fields_at(s, pos, m) is None,
    decreases m,
{
    if n < m {
        lemma_fields_at_fails(s, pos, n, (m - 1) as nat);
    }
}

impl PeerBundleBinary {
    /// The bytes of the bundle, which decode to it.
    pub fn to_bytes(&self) -> (r: Vec<u8>)
        ensures
            r@ == self@.encode(),
            PeerBundleBinaryView::decode(r@) == Some(self@),
    {
        let mut out: Vec<u8> = Vec::new();
        put_field(&mut out, self.identity.as_slice());
        put_field(&mut out, self.signed_pre.as_slice());
        put_field(&mut out, self.signature.as_slice());
        put_field(&mut out, self.one_time_pre.as_slice());
        proof {
            assert(out@ =~= self@.encode());
            lemma_peer_bytes_round_trip(self@);
        }
        out
    }

    /// The bundle that bytes hold; `MalformedBundle` for bytes that hold none,
    /// or more than one.
    pub fn from_bytes(bytes: &[u8]) -> (r: Result<Self, X3dhError>)
        ensures
            r is Ok <==> PeerBundleBinaryView::decode(bytes@) is Some,
            r matches Ok(bundle) ==> PeerBundleBinaryView::decode(bytes@) == Some(bundle@)
                && bundle@.encode() == bytes@,
            r matches Err(e) ==> e == X3dhError::MalformedBundle,
    {
        let (identity, p) = match get_field(bytes, 0) {
            Some(read) => read,
            None => { return Err(X3dhError::MalformedBundle); },
        };
        let (signed_pre, q) = match get_field(bytes, p) {
            Some(read) => read,
            None => { return Err(X3dhError::MalformedBundle); },
        };
        let (signature, r) = match get_field(bytes, q) {
            Some(read) => read,
            None => { return Err(X3dhError::MalformedBundle); },
        };
        let (one_time_pre, end) = match get_field(bytes, r) {
            Some(read) => read,
            None => { return Err(X3dhError::MalformedBundle); },
        };
        if end != bytes.len() {
            return Err(X3dhError::MalformedBundle);
        }
        proof {
            lemma_peer_bytes_exact(bytes@);
        }
        Ok(PeerBundleBinary { identity, signed_pre, signature, one_time_pre })
    }
}

impl InitialMessageBinary {
    /// The bytes of the message, which decode to it.
    pub fn to_bytes(&self) -> (r: Vec<u8>)
        ensures
            r@ == self@.encode(),
            InitialMessageView::decode(r@) == Some(self@),
    {
        let mut out: Vec<u8> = Vec::new();
        put_field(&mut out, self.identity.as_slice());
        put_field(&mut out, self.ephemeral.as_slice());
        put_u16(&mut out, self.one_time_idx);
        proof {
            assert(out@ =~= self@.encode());
            lemma_initial_bytes_round_trip(self@);
        }
        out
    }

    /// The message that bytes hold; `MalformedBundle` for bytes that hold
    /// none, or more than one.
    pub fn from_bytes(bytes: &[u8]) -> (r: Result<Self, X3dhError>)
        ensures
            r is Ok <==> InitialMessageView::decode(bytes@) is Some,
            r matches Ok(message) ==> InitialMessageView::decode(bytes@) == Some(message@)
                && message@.encode() == bytes@,
            r matches Err(e) ==> e == X3dhError::MalformedBundle,
    {
        let (identity, p) = match get_field(bytes, 0) {
            Some(read) => read,
            None => { return Err(X3dhError::MalformedBundle); },
        };
        let (ephemeral, q) = match get_field(bytes, p) {
            Some(read) => read,
            None => { return Err(X3dhError::MalformedBundle); },
        };
        let (one_time_idx, end) = match get_u16(bytes, q) {
            Some(read) => read,
            None => { return Err(X3dhError::MalformedBundle); },
        };
        if end != bytes.len() {
            return Err(X3dhError::MalformedBundle);
        }
        proof {
            lemma_initial_bytes_exact(bytes@);
        }
        Ok(InitialMessageBinary { identity, ephemeral, one_time_idx })
    }
}

} // verus!
