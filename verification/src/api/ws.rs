//! The request by which the client opens its socket to the relay.

use vstd::prelude::*;
use vstd::string::{StrSliceExecFns, StringExecFns};

verus! {

/// Where the first `@` of a text stands; the length of the text where there
/// is none.
pub open spec fn first_at_sign(text: Seq<char>) -> int
    decreases text.len(),
{
    if text.len() == 0 {
        0
    } else if text[0] == '@' {
        0
    } else {
        1 + first_at_sign(text.drop_first())
    }
}

/// The host of an authority: what follows the first `@`, or all of it where
/// there is none. `None` for an authority without host.
pub open spec fn host_of(authority: Seq<char>) -> Option<Seq<char>> {
    let at = first_at_sign(authority);
    let host = if at < authority.len() {
        authority.skip(at + 1)
    } else {
        authority
    };
    if host.len() == 0 {
        None
    } else {
        Some(host)
    }
}

proof fn lemma_first_at_sign(text: Seq<char>, n: int)
    requires
        0 <= n <= text.len(),
        forall|i: int| 0 <= i < n ==> text[i] != '@',
        n < text.len() ==> text[n] == '@',
    ensures
        first_at_sign(text) == n,
    decreases n,
{
    if n > 0 {
        let rest = text.drop_first();
        assert forall|i: int| 0 <= i < n - 1 implies rest[i] != '@' by {
            assert(rest[i] == text[i + 1]);
        }
        lemma_first_at_sign(rest, n - 1);
    }
}

/// The host that the request names, from the authority of the address.
pub fn request_host(authority: &str) -> (r: Option<String>)
    ensures
        r is Some <==> host_of(authority@) is Some,
        r matches Some(host) ==> Some(host@) == host_of(authority@),
{
    let len = authority.unicode_len();
    let mut i: usize = 0;
    while i < len && authority.get_char(i) != '@'
        invariant
            i <= len == authority@.len(),
            forall|j: int| 0 <= j < i ==> authority@[j] != '@',
        decreases len - i,
    {
        i = i + 1;
    }
    proof {
        lemma_first_at_sign(authority@, i as int);
    }
    let host = if i < len {
        authority.substring_char(i + 1, len)
    } else {
        authority
    };
    if host.unicode_len() == 0 {
        None
    } else {
        Some(String::from_str(host))
    }
}

/// The text of bytes in base64 (RFC 4648, the standard alphabet, padded).
pub uninterp spec fn base64(bytes: Seq<u8>) -> Seq<char>;

/// `data_encoding::BASE64.encode`. Claimed: the result is `base64` of the
/// bytes.
#[verifier::external_body]
fn encode_base64(bytes: &[u8]) -> (r: String)
    ensures
        r@ == base64(bytes@),
{
    data_encoding::BASE64.encode(bytes)
}

/// `rand::random` for 16 bytes. Claimed: 16 bytes come back. Nothing is
/// claimed of which.
#[verifier::external_body]
fn random_bytes() -> (r: Vec<u8>)
    ensures
        r@.len() == 16,
{
    rand::random::<[u8; 16]>().to_vec()
}

/// A key for the handshake of a socket: 16 fresh bytes in base64.
pub fn generate_key() -> (r: String)
    ensures
        exists|bytes: Seq<u8>| bytes.len() == 16 && r@ == base64(bytes),
{
    let bytes = random_bytes();
    encode_base64(bytes.as_slice())
}

/// One header of a request.
#[derive(Debug, PartialEq, Eq)]
pub struct Header {
    pub name: String,
    pub value: String,
}

fn header(name: &str, value: &str) -> (r: Header)
    ensures
        r.name@ == name@,
        r.value@ == value@,
{
    Header { name: String::from_str(name), value: String::from_str(value) }
}

/// The headers that ask a server to turn a request into a socket: the host,
/// the upgrade, version 13 of the protocol, the key of the handshake, and the
/// token of the one who asks.
pub fn make_request(host: &str, key: &str, token: &str) -> (r: Vec<Header>)
    ensures
        r@.len() == 6,
        r@[0].name@ == "Host"@ && r@[0].value@ == host@,
        r@[1].name@ == "Connection"@ && r@[1].value@ == "Upgrade"@,
        r@[2].name@ == "Upgrade"@ && r@[2].value@ == "websocket"@,
        r@[3].name@ == "Sec-WebSocket-Version"@ && r@[3].value@ == "13"@,
        r@[4].name@ == "Sec-WebSocket-Key"@ && r@[4].value@ == key@,
        r@[5].name@ == "Authorization"@ && r@[5].value@ == "Bearer "@ + token@,
{
    let mut bearer = String::from_str("Bearer ");
    bearer.append(token);
    let mut headers: Vec<Header> = Vec::new();
    headers.push(header("Host", host));
    headers.push(header("Connection", "Upgrade"));
    headers.push(header("Upgrade", "websocket"));
    headers.push(header("Sec-WebSocket-Version", "13"));
    headers.push(header("Sec-WebSocket-Key", key));
    headers.push(header("Authorization", bearer.as_str()));
    headers
}

} // verus!
