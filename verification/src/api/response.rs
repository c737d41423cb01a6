//! What the server answers.

use crate::handshake::{InitialMessageBinary, PeerBundleBinary};
use crate::model::ObjectId;
use crate::text::text_eq;
use vstd::prelude::*;

verus! {

/// Every answer that is no failure wraps its data so.
#[derive(Debug)]
pub struct OkResponse<T> {
    pub data: T,
}

/// The answer to a registration.
#[derive(Debug)]
pub struct RegisterResponse {
    pub message: String,
}

impl RegisterResponse {
    /// Whether the server took the registration: it says `success` then.
    pub fn succeeded(&self) -> (r: bool)
        ensures
            r == (self.message@ == "success"@),
    {
        text_eq(self.message.as_str(), "success")
    }
}

/// The answer to a login: the token of the session.
#[derive(Debug)]
pub struct LoginResponse {
    pub jwtoken: String,
}

/// The answer to the question whom a token speaks for.
#[derive(Debug)]
pub struct DashboardResponse {
    pub username: String,
}

/// A user as the server tells of one.
#[derive(Debug)]
pub struct User {
    pub id: ObjectId,
    pub email: String,
    pub username: String,
}

/// The answer to a request to find a user.
#[derive(Debug)]
pub struct FindResponse {
    pub user: User,
}

/// A chat as the server tells of one: its identifier and its members.
#[derive(Debug)]
pub struct Chat {
    pub id: ObjectId,
    pub users: Vec<ObjectId>,
}

/// The chats of the user who asks.
#[derive(Debug)]
pub struct ChatsResponse {
    pub chats: Vec<Chat>,
}

/// The identifier of the chat that was asked for.
#[derive(Debug)]
pub struct ChatResponse {
    pub chatid: ObjectId,
}

/// A message of the log of a chat: the sealed text, and what it was sealed under.
#[derive(Debug)]
pub struct Message {
    pub id: Option<ObjectId>,
    pub chat_id: ObjectId,
    pub sender_id: ObjectId,
    pub message: Vec<u8>,
    pub timestamp: u64,
}

/// The log of a chat, oldest first.
#[derive(Debug)]
pub struct MessagesResponse {
    pub messages: Vec<Message>,
}

/// The answer to the publication of a bundle.
#[derive(Debug)]
pub struct SendBundleResponse {
    pub bundle: String,
}

/// The bundle of a peer, with one of the peer's one-time pre-keys.
#[derive(Debug)]
pub struct PeerBundleResponse {
    pub bundle: PeerBundleBinary,
}

/// The answer to the deposit of an initial message.
#[derive(Debug)]
pub struct InitialMessageResponse {
    pub message: String,
}

/// The initial message of a chat, if it has one.
#[derive(Debug)]
pub struct GetInitialMesssageResponse {
    pub message: Option<InitialMessageBinary>,
}

} // verus!
