//! Little-endian integers and length-prefixed byte strings: the framing that
//! every key file, bundle and envelope of this crate is built from.
//!
//! An integer of `n` bytes is written least significant byte first. A field is
//! a byte string behind its length, the length an integer of eight bytes.

use vstd::prelude::*;
use vstd::slice::slice_subrange;

verus! {

/// `256` to the power `n`: how many values `n` bytes can hold.
pub open spec fn radix(n: nat) -> nat
    decreases n,
{
    if n == 0 {
        1
    } else {
        256 * radix((n - 1) as nat)
    }
}

/// The `n` bytes of `v`, least significant first. Where `v` does not fit, the
/// bytes are those of `v` modulo `radix(n)`.
pub open spec fn le_bytes(v: nat, n: nat) -> Seq<u8>
    decreases n,
{
    if n == 0 {
        Seq::empty()
    } else {
        seq![(v % 256) as u8] + le_bytes(v / 256, (n - 1) as nat)
    }
}

/// The number that the bytes `b` spell, least significant byte first.
pub open spec fn le_value(b: Seq<u8>) -> nat
    decreases b.len(),
{
    if b.len() == 0 {
        0
    } else {
        b[0] as nat + 256 * le_value(b.drop_first())
    }
}

/// A byte string behind its eight-byte length.
pub open spec fn field(b: Seq<u8>) -> Seq<u8> {
    le_bytes(b.len(), 8) + b
}

/// The integer of `n` bytes that starts at `pos` in `s`, with the position
/// behind it; `None` where `s` ends before.
pub open spec fn le_at(s: Seq<u8>, pos: int, n: int) -> Option<(nat, int)> {
    if 0 <= pos && 0 <= n && pos + n <= s.len() {
        Some((le_value(s.subrange(pos, pos + n)), pos + n))
    } else {
        None
    }
}

/// The field that starts at `pos` in `s`, with the position behind it; `None`
/// where `s` ends before the length or before the announced bytes.
pub open spec fn field_at(s: Seq<u8>, pos: int) -> Option<(Seq<u8>, int)> {
    match le_at(s, pos, 8) {
        Some((n, body)) => if body + n <= s.len() {
            Some((s.subrange(body, body + n), body + n))
        } else {
            None
        },
        None => None,
    }
}

pub proof fn lemma_radix_values()
    ensures
        radix(0) == 1,
        radix(1) == 0x100,
        radix(2) == 0x1_0000,
        radix(4) == 0x1_0000_0000,
        radix(8) == 0x1_0000_0000_0000_0000,
{
    reveal_with_fuel(radix, 9);
}

pub proof fn lemma_radix_monotonic(a: nat, b: nat)
    requires
        a <= b,
    ensures
        0 < radix(a) <= radix(b),
    decreases b,
{
    if b == 0 {
    } else if a == b {
        lemma_radix_monotonic((a - 1) as nat, (b - 1) as nat);
    } else {
        lemma_radix_monotonic(a, (b - 1) as nat);
    }
}

pub proof fn lemma_le_bytes_len(v: nat, n: nat)
    ensures
        le_bytes(v, n).len() == n,
    decreases n,
{
    if n > 0 {
        lemma_le_bytes_len(v / 256, (n - 1) as nat);
    }
}

pub proof fn lemma_le_value_bound(b: Seq<u8>)
    ensures
        le_value(b) < radix(b.len()),
    decreases b.len(),
{
    if b.len() > 0 {
        lemma_le_value_bound(b.drop_first());
    }
}

/// Reading back what was written gives the number, where it fits.
pub proof fn lemma_le_value_of_bytes(v: nat, n: nat)
    requires
        v < radix(n),
    ensures
        le_value(le_bytes(v, n)) == v,
    decreases n,
{
    if n > 0 {
        let tail = le_bytes(v / 256, (n - 1) as nat);
        lemma_le_bytes_len(v / 256, (n - 1) as nat);
        lemma_le_value_of_bytes(v / 256, (n - 1) as nat);
        assert(le_bytes(v, n).drop_first() =~= tail);
    }
}

/// Writing what was read gives the bytes: no number has two spellings of one
/// length.
pub proof fn lemma_le_bytes_of_value(b: Seq<u8>)
    ensures
        le_bytes(le_value(b), b.len()) == b,
    decreases b.len(),
{
    if b.len() > 0 {
        lemma_le_bytes_of_value(b.drop_first());
        let v = le_value(b);
        assert(v % 256 == b[0] as nat);
        assert(v / 256 == le_value(b.drop_first()));
        assert(le_bytes(v, b.len()) =~= b);
    } else {
        assert(le_bytes(le_value(b), b.len()) =~= b);
    }
}

/// An integer written at the end of `prefix` is read back there, whatever
/// follows it.
pub proof fn lemma_le_at_written(prefix: Seq<u8>, v: nat, n: nat, rest: Seq<u8>)
    requires
        v < radix(n),
    ensures
        le_at(prefix + le_bytes(v, n) + rest, prefix.len() as int, n as int) == Some(
            (v, (prefix.len() + n) as int),
        ),
{
    lemma_le_bytes_len(v, n);
    lemma_le_value_of_bytes(v, n);
    let s = prefix + le_bytes(v, n) + rest;
    assert(s.subrange(prefix.len() as int, (prefix.len() + n) as int) =~= le_bytes(v, n));
}

/// A field written at the end of `prefix` is read back there, whatever
/// follows it.
pub proof fn lemma_field_at_written(prefix: Seq<u8>, b: Seq<u8>, rest: Seq<u8>)
    requires
        b.len() < radix(8),
    ensures
        field_at(prefix + field(b) + rest, prefix.len() as int) == Some(
            (b, (prefix.len() + 8 + b.len()) as int),
        ),
        field(b).len() == 8 + b.len(),
{
    let s = prefix + field(b) + rest;
    lemma_le_bytes_len(b.len(), 8);
    assert(s =~= prefix + le_bytes(b.len(), 8) + (b + rest));
    lemma_le_at_written(prefix, b.len(), 8, b + rest);
    assert(s.subrange((prefix.len() + 8) as int, (prefix.len() + 8 + b.len()) as int) =~= b);
}

/// What `field_at` reads is a field in full: the bytes from `pos` to the
/// position it returns are the encoding of the value it returns.
pub proof fn lemma_field_at_exact(s: Seq<u8>, pos: int)
    requires
        field_at(s, pos) is Some,
    ensures
        ({
            let (b, next) = field_at(s, pos).unwrap();
            &&& 0 <= pos
            &&& next == pos + 8 + b.len()
            &&& next <= s.len()
            &&& s.subrange(pos, next) == field(b)
        }),
{
    let (b, next) = field_at(s, pos).unwrap();
    let head = s.subrange(pos, pos + 8);
    lemma_le_bytes_of_value(head);
    assert(s.subrange(pos, next) =~= head + b);
}

/// What `le_at` reads is an integer in full.
pub proof fn lemma_le_at_exact(s: Seq<u8>, pos: int, n: int)
    requires
        le_at(s, pos, n) is Some,
    ensures
        ({
            let (v, next) = le_at(s, pos, n).unwrap();
            &&& next == pos + n
            &&& v < radix(n as nat)
            &&& s.subrange(pos, next) == le_bytes(v, n as nat)
        }),
{
    let head = s.subrange(pos, pos + n);
    lemma_le_bytes_of_value(head);
    lemma_le_value_bound(head);
}

/// Whether two byte strings are the same.
pub fn bytes_eq(a: &[u8], b: &[u8]) -> (r: bool)
    ensures
        r == (a@ == b@),
{
    if a.len() != b.len() {
        return false;
    }
    let mut i: usize = 0;
    while i < a.len()
        invariant
            i <= a.len(),
            a.len() == b.len(),
            a@.subrange(0, i as int) == b@.subrange(0, i as int),
        decreases a.len() - i,
    {
        if a[i] != b[i] {
            return false;
        }
        assert(a@.subrange(0, i + 1) =~= a@.subrange(0, i as int).push(a@[i as int]));
        assert(b@.subrange(0, i + 1) =~= b@.subrange(0, i as int).push(b@[i as int]));
        i = i + 1;
    }
    assert(a@ =~= a@.subrange(0, i as int));
    assert(b@ =~= b@.subrange(0, i as int));
    true
}

/// Appends the `n` low bytes of `v`, least significant first.
pub fn put_le(out: &mut Vec<u8>, v: u64, n: usize)
    requires
        n <= 8,
    ensures
        final(out)@ == old(out)@ + le_bytes(v as nat, n as nat),
{
    let mut x: u64 = v;
    let mut i: usize = 0;
    while i < n
        invariant
            i <= n,
            old(out)@ + le_bytes(v as nat, n as nat) == out@ + le_bytes(x as nat, (n - i) as nat),
        decreases n - i,
    {
        let ghost before = out@;
        out.push((x % 256) as u8);
        proof {
            let tail = le_bytes((x / 256) as nat, (n - i - 1) as nat);
            assert(before + (seq![(x % 256) as u8] + tail) =~= out@ + tail);
        }
        x = x / 256;
        i = i + 1;
    }
    assert(out@ + le_bytes(x as nat, 0) =~= out@);
}

/// Appends `bytes` behind their eight-byte length, which every byte string in
/// memory fits.
pub fn put_field(out: &mut Vec<u8>, bytes: &[u8])
    ensures
        final(out)@ == old(out)@ + field(bytes@),
        bytes@.len() < radix(8),
{
    proof {
        lemma_radix_values();
    }
    put_le(out, bytes.len() as u64, 8);
    out.extend_from_slice(bytes);
    assert(out@ =~= old(out)@ + field(bytes@));
}

/// Reads the integer of `n` bytes at `pos`.
pub fn get_le(input: &[u8], pos: usize, n: usize) -> (r: Option<(u64, usize)>)
    requires
        n <= 8,
    ensures
        r is Some <==> le_at(input@, pos as int, n as int) is Some,
        r matches Some((v, next)) ==> le_at(input@, pos as int, n as int) == Some(
            (v as nat, next as int),
        ),
{
    if pos > input.len() || n > input.len() - pos {
        return None;
    }
    let end: usize = pos + n;
    let mut acc: u64 = 0;
    let mut i: usize = n;
    while i > 0
        invariant
            i <= n <= 8,
            end == pos + n,
            end <= input.len(),
            acc as nat == le_value(input@.subrange(pos + i, end as int)),
        decreases i,
    {
        proof {
            let tail = input@.subrange(pos + i, end as int);
            let whole = input@.subrange(pos + i - 1, end as int);
            assert(whole.drop_first() =~= tail);
            lemma_le_value_bound(tail);
            lemma_radix_monotonic((n - i) as nat, 7);
            lemma_radix_values();
            reveal_with_fuel(radix, 8);
        }
        acc = acc * 256 + input[pos + i - 1] as u64;
        i = i - 1;
    }
    assert(input@.subrange(pos + 0, end as int) =~= input@.subrange(pos as int, pos + n));
    Some((acc, end))
}

/// Appends the two bytes of `v`.
pub fn put_u16(out: &mut Vec<u8>, v: u16)
    ensures
        final(out)@ == old(out)@ + le_bytes(v as nat, 2),
{
    put_le(out, v as u64, 2);
}

/// Appends the four bytes of `v`.
pub fn put_u32(out: &mut Vec<u8>, v: u32)
    ensures
        final(out)@ == old(out)@ + le_bytes(v as nat, 4),
{
    put_le(out, v as u64, 4);
}

/// Appends the eight bytes of `v`.
pub fn put_u64(out: &mut Vec<u8>, v: u64)
    ensures
        final(out)@ == old(out)@ + le_bytes(v as nat, 8),
{
    put_le(out, v, 8);
}

/// Reads the two-byte integer at `pos`.
pub fn get_u16(input: &[u8], pos: usize) -> (r: Option<(u16, usize)>)
    ensures
        r is Some <==> le_at(input@, pos as int, 2) is Some,
        r matches Some((v, next)) ==> le_at(input@, pos as int, 2) == Some((v as nat, next as int)),
{
    match get_le(input, pos, 2) {
        None => None,
        Some((v, next)) => {
            proof {
                lemma_le_at_exact(input@, pos as int, 2);
                lemma_radix_values();
            }
            Some((v as u16, next))
        },
    }
}

/// Reads the four-byte integer at `pos`.
pub fn get_u32(input: &[u8], pos: usize) -> (r: Option<(u32, usize)>)
    ensures
        r is Some <==> le_at(input@, pos as int, 4) is Some,
        r matches Some((v, next)) ==> le_at(input@, pos as int, 4) == Some((v as nat, next as int)),
{
    match get_le(input, pos, 4) {
        None => None,
        Some((v, next)) => {
            proof {
                lemma_le_at_exact(input@, pos as int, 4);
                lemma_radix_values();
            }
            Some((v as u32, next))
        },
    }
}

/// Reads the eight-byte integer at `pos`.
pub fn get_u64(input: &[u8], pos: usize) -> (r: Option<(u64, usize)>)
    ensures
        r is Some <==> le_at(input@, pos as int, 8) is Some,
        r matches Some((v, next)) ==> le_at(input@, pos as int, 8) == Some((v as nat, next as int)),
{
    get_le(input, pos, 8)
}

/// Reads the field at `pos`.
pub fn get_field(input: &[u8], pos: usize) -> (r: Option<(Vec<u8>, usize)>)
    ensures
        r is Some <==> field_at(input@, pos as int) is Some,
        r matches Some((b, next)) ==> field_at(input@, pos as int) == Some((b@, next as int)),
{
    match get_le(input, pos, 8) {
        None => None,
        Some((n, body)) => {
            if n > (input.len() - body) as u64 {
                None
            } else {
                let end: usize = body + n as usize;
                let mut b: Vec<u8> = Vec::new();
                b.extend_from_slice(slice_subrange(input, body, end));
                assert(b@ =~= input@.subrange(body as int, end as int));
                Some((b, end))
            }
        },
    }
}

} // verus!
