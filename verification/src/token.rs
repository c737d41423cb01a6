//! What a session token says: whom it speaks for, and until when; and how a
//! token is found in the header that carries it.

use crate::model::{wrapped, User};
use crate::server::Error;
use crate::text::text_eq;
use vstd::prelude::*;
use vstd::string::{StrSliceExecFns, StringExecFns};

verus! {

/// How long a token is good for, in minutes.
pub const TOKEN_DURATION: u64 = 60;

/// The claims of a token.
#[derive(Debug)]
pub struct Claims {
    sub: String,
    exp: usize,
}

impl Claims {
    /// The subject of the token: the user it speaks for.
    pub closed spec fn subject(&self) -> Seq<char> {
        self.sub@
    }

    /// The second, counted from the epoch, at which the token ends.
    pub closed spec fn expiry(&self) -> usize {
        self.exp
    }

    /// The claims of a token for a user, good for an hour from the second
    /// `now`. The subject is the user's identifier in its wrapped form.
    /// `InvalidClaimData` for a user without identifier, and where the hour
    /// ends past what the machine counts.
    pub fn from_user(user: &User, now: u64) -> (r: Result<Claims, Error>)
        ensures
            r is Ok <==> user.id_view() is Some && now + TOKEN_DURATION * 60 <= usize::MAX,
            r matches Ok(claims) ==> {
                &&& claims.subject() == wrapped(user.id_view().unwrap()@)
                &&& claims.expiry() == now + TOKEN_DURATION * 60
            },
            r matches Err(e) ==> e == Error::InvalidClaimData,
    {
        let id = match user.id() {
            Some(id) => id,
            None => { return Err(Error::InvalidClaimData); },
        };
        if now > u64::MAX - TOKEN_DURATION * 60 {
            return Err(Error::InvalidClaimData);
        }
        let exp: u64 = now + TOKEN_DURATION * 60;
        if exp > usize::MAX as u64 {
            return Err(Error::InvalidClaimData);
        }
        Ok(Claims { sub: id.to_wrapped(), exp: exp as usize })
    }

    /// Claims as a token carries them.
    pub fn new(sub: String, exp: usize) -> (r: Claims)
        ensures
            r.subject() == sub@,
            r.expiry() == exp,
    {
        Claims { sub, exp }
    }

    pub fn sub(&self) -> (r: String)
        ensures
            r@ == self.subject(),
    {
        self.sub.clone()
    }

    pub fn exp(&self) -> (r: usize)
        ensures
            r == self.expiry(),
    {
        self.exp
    }
}

/// Whether a text begins with another.
pub open spec fn starts_with(text: Seq<char>, prefix: Seq<char>) -> bool {
    text.len() >= prefix.len() && text.take(prefix.len() as int) == prefix
}

/// A text without the prefix, as often as the prefix stands at its start.
pub open spec fn strip_all(text: Seq<char>, prefix: Seq<char>) -> Seq<char>
    decreases text.len(),
{
    if prefix.len() > 0 && starts_with(text, prefix) {
        strip_all(text.skip(prefix.len() as int), prefix)
    } else {
        text
    }
}

/// The token in an authorization header: what follows `Bearer `; `None` for a
/// header that does not begin so.
pub open spec fn bearer_token(header: Seq<char>) -> Option<Seq<char>> {
    if starts_with(header, "Bearer "@) {
        Some(strip_all(header, "Bearer "@))
    } else {
        None
    }
}

fn begins_with_bearer(text: &str) -> (r: bool)
    ensures
        r == starts_with(text@, "Bearer "@),
        "Bearer "@.len() == 7,
{
    proof {
        reveal_strlit("Bearer ");
    }
    text.unicode_len() >= 7 && text_eq(text.substring_char(0, 7), "Bearer ")
}

/// The token of a request, from its authorization header if it has one.
pub fn jwt_from_header(header: Option<&str>) -> (r: Option<String>)
    ensures
        r is Some <==> (header matches Some(h) && bearer_token(h@) is Some),
        r matches Some(token) ==> Some(token@) == bearer_token(header.unwrap()@),
{
    let auth_header = match header {
        Some(h) => h,
        None => { return None; },
    };
    if !begins_with_bearer(auth_header) {
        return None;
    }
    let mut rest: &str = auth_header;
    while begins_with_bearer(rest)
        invariant
            strip_all(rest@, "Bearer "@) == strip_all(auth_header@, "Bearer "@),
            "Bearer "@.len() == 7,
        decreases rest@.len(),
    {
        let len = rest.unicode_len();
        rest = rest.substring_char(7, len);
    }
    Some(String::from_str(rest))
}

} // verus!
