//! What the client sends.

use crate::handshake::InitialMessageBinary;
use crate::model::ObjectId;
use vstd::prelude::*;

verus! {

/// A request to register an account.
#[derive(Debug)]
pub struct RegisterBody {
    pub email: String,
    pub username: String,
    pub password: String,
}

/// A request to log in.
#[derive(Debug)]
pub struct LoginBody {
    pub email: String,
    pub password: String,
}

/// A request to find a user: by identifier, by email or by username.
#[derive(Debug)]
pub struct FindBody {
    pub id: Option<ObjectId>,
    pub email: Option<String>,
    pub username: Option<String>,
}

impl FindBody {
    pub fn id(id: ObjectId) -> (r: Self)
        ensures
            r.id == Some(id),
            r.email is None,
            r.username is None,
    {
        FindBody { id: Some(id), email: None, username: None }
    }

    pub fn username(username: String) -> (r: Self)
        ensures
            r.id is None,
            r.email is None,
            r.username == Some(username),
    {
        FindBody { id: None, email: None, username: Some(username) }
    }
}

/// A request for the chat with a member, by the member's username.
#[derive(Debug)]
pub struct ChatBody {
    pub member: String,
}

/// A request to deposit the initial message of a chat.
#[derive(Debug)]
pub struct SendInitialMessageBody {
    pub chat_id: ObjectId,
    pub message: InitialMessageBinary,
}

} // verus!
