//! What the server keeps records of, as plain values: users, chats, messages,
//! and the identifiers that tie them together.

use crate::handshake::{InitialMessageBinary, RegisterBundleBinary};
use crate::hex::{decode_hex, encode_hex, hex, lemma_hex_len, lemma_hex_round_trip, unhex};
use crate::text::text_eq;
use crate::wire::bytes_eq;
use vstd::prelude::*;
use vstd::string::{StrSliceExecFns, StringExecFns};

verus! {

/// Why the store fails.
#[derive(Debug, Clone, Copy, PartialEq, Eq, Structural)]
pub enum Error {
    BsonConvError,
    DbError,
    NoUserWithSuchEmail,
    CouldNotConnectToDB,
    InvalidOID,
    NotUnique,
}

/// The identifier of a record: 12 bytes, written as 24 hexadecimal digits.
#[derive(Debug, PartialEq, Eq)]
pub struct ObjectId {
    bytes: Vec<u8>,
}

impl View for ObjectId {
    type V = Seq<u8>;

    closed spec fn view(&self) -> Seq<u8> {
        self.bytes@
    }
}

impl Clone for ObjectId {
    fn clone(&self) -> (r: Self)
        ensures
            r@ == self@,
    {
        proof {
            use_type_invariant(self);
        }
        ObjectId { bytes: self.bytes.clone() }
    }
}

/// The form in which an identifier stands in a token: its digits between
/// `ObjectId("` and `")`.
pub open spec fn wrapped(id: Seq<u8>) -> Seq<char> {
    seq!['O', 'b', 'j', 'e', 'c', 't', 'I', 'd', '(', '"'] + hex(id) + seq!['"', ')']
}

/// The identifier that a text of 24 digits spells.
pub open spec fn parse(text: Seq<char>) -> Option<Seq<u8>> {
    match unhex(text) {
        Some(bytes) => if bytes.len() == 12 {
            Some(bytes)
        } else {
            None
        },
        None => None,
    }
}

/// The identifier in a text that wraps one: what the characters from the
/// eleventh to the thirty-fourth spell. What stands around them is not
/// looked at.
pub open spec fn parse_wrapped(text: Seq<char>) -> Option<Seq<u8>> {
    if text.len() < 34 {
        None
    } else {
        parse(text.subrange(10, 34))
    }
}

/// The wrapped form of an identifier is read back as the identifier.
pub proof fn lemma_wrapped_round_trip(id: Seq<u8>)
    requires
        id.len() == 12,
    ensures
        parse_wrapped(wrapped(id)) == Some(id),
        parse(hex(id)) == Some(id),
{
    lemma_hex_len(id);
    lemma_hex_round_trip(id);
    assert(wrapped(id).subrange(10, 34) =~= hex(id));
}

impl ObjectId {
    /// What every identifier is: 12 bytes.
    #[verifier::type_invariant]
    pub open spec fn wf(&self) -> bool {
        self@.len() == 12
    }

    /// The identifier that 24 hexadecimal digits spell, in either case;
    /// `InvalidOID` for any other text.
    pub fn parse_str(text: &str) -> (r: Result<ObjectId, Error>)
        ensures
            r is Ok <==> parse(text@) is Some,
            r matches Ok(id) ==> Some(id@) == parse(text@),
            r matches Err(e) ==> e == Error::InvalidOID,
    {
        match decode_hex(text) {
            Some(bytes) => if bytes.len() == 12 {
                Ok(ObjectId { bytes })
            } else {
                Err(Error::InvalidOID)
            },
            None => Err(Error::InvalidOID),
        }
    }

    /// The 24 digits of the identifier, in lower case.
    pub fn to_hex(&self) -> (r: String)
        ensures
            r@ == hex(self@),
            parse(r@) == Some(self@),
    {
        proof {
            use_type_invariant(self);
            lemma_wrapped_round_trip(self@);
        }
        encode_hex(self.bytes.as_slice())
    }

    /// The identifier as it stands in a token.
    pub fn to_wrapped(&self) -> (r: String)
        ensures
            r@ == wrapped(self@),
            parse_wrapped(r@) == Some(self@),
    {
        proof {
            use_type_invariant(self);
            lemma_wrapped_round_trip(self@);
            reveal_strlit("ObjectId(\"");
            reveal_strlit("\")");
        }
        let mut out = String::from_str("ObjectId(\"");
        assert(out@ =~= seq!['O', 'b', 'j', 'e', 'c', 't', 'I', 'd', '(', '"']);
        let digits = encode_hex(self.bytes.as_slice());
        out.append(digits.as_str());
        out.append("\")");
        assert(out@ =~= wrapped(self@));
        out
    }

    /// Whether two identifiers are the same.
    pub fn same(&self, other: &ObjectId) -> (r: bool)
        ensures
            r == (self@ == other@),
    {
        bytes_eq(self.bytes.as_slice(), other.bytes.as_slice())
    }
}

/// The identifier in a text that wraps one, as a token's subject does.
pub fn objectid_from_str(id: &str) -> (r: Result<ObjectId, Error>)
    ensures
        r is Ok <==> parse_wrapped(id@) is Some,
        r matches Ok(oid) ==> Some(oid@) == parse_wrapped(id@),
        r matches Err(e) ==> e == Error::InvalidOID,
{
    if id.unicode_len() < 34 {
        return Err(Error::InvalidOID);
    }
    objectid_from_str_raw(id.substring_char(10, 34))
}

/// The identifier that 24 digits spell.
pub fn objectid_from_str_raw(id: &str) -> (r: Result<ObjectId, Error>)
    ensures
        r is Ok <==> parse(id@) is Some,
        r matches Ok(oid) ==> Some(oid@) == parse(id@),
        r matches Err(e) ==> e == Error::InvalidOID,
{
    ObjectId::parse_str(id)
}

/// A user as the server knows one. The password is kept hashed.
#[derive(Debug)]
pub struct User {
    pub id: Option<ObjectId>,
    pub email: String,
    pub username: String,
    password: String,
}

impl User {
    pub closed spec fn id_view(&self) -> Option<ObjectId> {
        self.id
    }

    pub closed spec fn email_view(&self) -> Seq<char> {
        self.email@
    }

    pub closed spec fn username_view(&self) -> Seq<char> {
        self.username@
    }

    /// The password as it is kept: hashed.
    pub closed spec fn password_view(&self) -> Seq<char> {
        self.password@
    }

    /// A user who has no identifier yet.
    pub fn new(email: &String, username: &String, password: &String) -> (r: User)
        ensures
            r.id_view() is None,
            r.email_view() == email@,
            r.username_view() == username@,
            r.password_view() == password@,
    {
        User {
            id: None,
            email: email.clone(),
            username: username.clone(),
            password: password.clone(),
        }
    }

    pub fn id(&self) -> (r: Option<&ObjectId>)
        ensures
            r is Some <==> self.id_view() is Some,
            r matches Some(id) ==> Some(*id) == self.id_view(),
    {
        self.id.as_ref()
    }

    pub fn username(&self) -> (r: &String)
        ensures
            r@ == self.username_view(),
    {
        &self.username
    }

    /// Whether a hashed password is the user's.
    pub fn password_matches(&self, hashed_password: &String) -> (r: bool)
        ensures
            r == (self.password_view() == hashed_password@),
    {
        text_eq(self.password.as_str(), hashed_password.as_str())
    }
}

/// A chat: its two members.
#[derive(Debug)]
pub struct Chat {
    id: Option<ObjectId>,
    users: Vec<ObjectId>,
}

/// The identifiers of a list, as models.
pub open spec fn ids(list: Seq<ObjectId>) -> Seq<Seq<u8>> {
    list.map_values(|id: ObjectId| id@)
}

impl Chat {
    pub closed spec fn id_view(&self) -> Option<ObjectId> {
        self.id
    }

    pub closed spec fn users_view(&self) -> Seq<ObjectId> {
        self.users@
    }

    /// A chat between the user whom a token's subject names and another.
    pub fn new(user1: &str, user2: ObjectId) -> (r: Result<Self, Error>)
        ensures
            r is Ok <==> parse_wrapped(user1@) is Some,
            r matches Ok(chat) ==> chat.id_view() is None && ids(chat.users_view()) == seq![
                parse_wrapped(user1@).unwrap(),
                user2@,
            ],
            r matches Err(e) ==> e == Error::InvalidOID,
    {
        let id = match objectid_from_str(user1) {
            Ok(id) => id,
            Err(_) => { return Err(Error::InvalidOID); },
        };
        let mut users: Vec<ObjectId> = Vec::new();
        users.push(id);
        users.push(user2);
        assert(ids(users@) =~= seq![parse_wrapped(user1@).unwrap(), user2@]);
        Ok(Chat { id: None, users })
    }

    /// A chat as a record gives it.
    pub fn from_record(id: Option<ObjectId>, users: Vec<ObjectId>) -> (r: Self)
        ensures
            r.id_view() == id,
            r.users_view() == users@,
    {
        Chat { id, users }
    }

    pub fn id(&self) -> (r: &Option<ObjectId>)
        ensures
            *r == self.id_view(),
    {
        &self.id
    }

    pub fn members(&self) -> (r: &Vec<ObjectId>)
        ensures
            r@ == self.users_view(),
    {
        &self.users
    }
}

/// A message as the log of a chat keeps it.
#[derive(Debug)]
pub struct Message {
    pub id: Option<ObjectId>,
    pub chat_id: ObjectId,
    pub sender_id: ObjectId,
    pub message: Vec<u8>,
    pub timestamp: u64,
}

impl Message {
    pub fn new(chat_id: ObjectId, sender_id: ObjectId, message: Vec<u8>, timestamp: u64) -> (r:
        Self)
        ensures
            r.id is None,
            r.chat_id == chat_id,
            r.sender_id == sender_id,
            r.message == message,
            r.timestamp == timestamp,
    {
        Message { id: None, chat_id, sender_id, message, timestamp }
    }
}

/// A register bundle as the directory's store keeps it.
#[derive(Debug)]
pub struct RegisterBundle {
    pub id: Option<ObjectId>,
    pub user_id: ObjectId,
    pub bundle: RegisterBundleBinary,
}

impl RegisterBundle {
    /// The record of a bundle that the user whom a token's subject names
    /// publishes.
    pub fn new(user_id: &str, bundle: RegisterBundleBinary) -> (r: Result<RegisterBundle, Error>)
        ensures
            r is Ok <==> parse_wrapped(user_id@) is Some,
            r matches Ok(record) ==> {
                &&& record.id is None
                &&& Some(record.user_id@) == parse_wrapped(user_id@)
                &&& record.bundle == bundle
            },
            r matches Err(e) ==> e == Error::InvalidOID,
    {
        let user_id = match objectid_from_str(user_id) {
            Ok(id) => id,
            Err(_) => { return Err(Error::InvalidOID); },
        };
        Ok(RegisterBundle { id: None, user_id, bundle })
    }
}

/// An initial message as the directory's store keeps it.
#[derive(Debug)]
pub struct InitialMessage {
    pub id: Option<ObjectId>,
    pub chat_id: ObjectId,
    pub message: InitialMessageBinary,
}

impl InitialMessage {
    pub fn new(chat_id: ObjectId, message: InitialMessageBinary) -> (r: InitialMessage)
        ensures
            r.id is None,
            r.chat_id == chat_id,
            r.message == message,
    {
        InitialMessage { id: None, chat_id, message }
    }
}

} // verus!
