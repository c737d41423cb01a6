//! What the server decides without touching its store or its sockets: which
//! request is which, who must show a token, and what a failure is called on
//! the wire.

use crate::api::body::FindBody;
use crate::directory::DirectoryError;
use crate::hash::{hashed, hashed_password};
use crate::model;
use crate::model::{ObjectId, User};
use crate::text::text_eq;
use vstd::prelude::*;

verus! {

/// Why a request cannot be made sense of.
#[derive(Debug, Clone, Copy, PartialEq, Eq, Structural)]
pub enum Error {
    JWTokenError,
    EnvError,
    BodyError,
    InvalidClaimData,
    InternalError,
}

/// Why a record cannot be turned into a value, or a value into a record.
#[derive(Debug, Clone, Copy, PartialEq, Eq, Structural)]
pub enum BsonError {
    ValueAccess,
    BsonValueAccess,
    BsonError,
    ConversionError,
}

/// Why a request does not show who is asking.
#[derive(Debug, Clone, Copy, PartialEq, Eq, Structural)]
pub enum AuthorizationError {
    InvalidToken(Error),
    InvalidCredentials,
    MissingAuthHeader,
}

/// The method of a request, as far as the server tells methods apart.
#[derive(Debug, Clone, Copy, PartialEq, Eq, Structural)]
pub enum Method {
    Get,
    Post,
    Other,
}

/// The requests that the server answers.
#[derive(Debug, Clone, Copy, PartialEq, Eq, Structural)]
pub enum Endpoint {
    Register,
    Login,
    Dashboard,
    User,
    Chats,
    Chat,
    Messages,
    Message,
    Bundle,
    PeerBundle,
    InitialMessage,
    GetInitialMessage,
    Socket,
}

impl Endpoint {
    /// The path of the endpoint, without its slash.
    pub open spec fn path_view(self) -> Seq<char> {
        match self {
            Endpoint::Register => "register"@,
            Endpoint::Login => "login"@,
            Endpoint::Dashboard => "dashboard"@,
            Endpoint::User => "user"@,
            Endpoint::Chats => "chats"@,
            Endpoint::Chat => "chat"@,
            Endpoint::Messages => "messages"@,
            Endpoint::Message => "message"@,
            Endpoint::Bundle => "bundle"@,
            Endpoint::PeerBundle => "peer_bundle"@,
            Endpoint::InitialMessage => "initial_message"@,
            Endpoint::GetInitialMessage => "get_initial_message"@,
            Endpoint::Socket => "chat"@,
        }
    }

    /// The method under which the endpoint is asked.
    pub open spec fn method_view(self) -> Method {
        match self {
            Endpoint::Dashboard | Endpoint::Chats | Endpoint::Socket => Method::Get,
            _ => Method::Post,
        }
    }

    pub fn path(&self) -> (r: &'static str)
        ensures
            r@ == self.path_view(),
    {
        match self {
            Endpoint::Register => "register",
            Endpoint::Login => "login",
            Endpoint::Dashboard => "dashboard",
            Endpoint::User => "user",
            Endpoint::Chats => "chats",
            Endpoint::Chat => "chat",
            Endpoint::Messages => "messages",
            Endpoint::Message => "message",
            Endpoint::Bundle => "bundle",
            Endpoint::PeerBundle => "peer_bundle",
            Endpoint::InitialMessage => "initial_message",
            Endpoint::GetInitialMessage => "get_initial_message",
            Endpoint::Socket => "chat",
        }
    }

    pub fn method(&self) -> (r: Method)
        ensures
            r == self.method_view(),
    {
        match self {
            Endpoint::Dashboard | Endpoint::Chats | Endpoint::Socket => Method::Get,
            _ => Method::Post,
        }
    }
}

/// The endpoint that a method and a path name. A path is one segment, without
/// its slash.
pub open spec fn endpoint_of(method: Method, path: Seq<char>) -> Option<Endpoint> {
    match method {
        Method::Post => if path == "register"@ {
            Some(Endpoint::Register)
        } else if path == "login"@ {
            Some(Endpoint::Login)
        } else if path == "user"@ {
            Some(Endpoint::User)
        } else if path == "chat"@ {
            Some(Endpoint::Chat)
        } else if path == "messages"@ {
            Some(Endpoint::Messages)
        } else if path == "message"@ {
            Some(Endpoint::Message)
        } else if path == "bundle"@ {
            Some(Endpoint::Bundle)
        } else if path == "peer_bundle"@ {
            Some(Endpoint::PeerBundle)
        } else if path == "initial_message"@ {
            Some(Endpoint::InitialMessage)
        } else if path == "get_initial_message"@ {
            Some(Endpoint::GetInitialMessage)
        } else {
            None
        },
        Method::Get => if path == "dashboard"@ {
            Some(Endpoint::Dashboard)
        } else if path == "chats"@ {
            Some(Endpoint::Chats)
        } else if path == "chat"@ {
            Some(Endpoint::Socket)
        } else {
            None
        },
        Method::Other => None,
    }
}

/// Finds the endpoint of a request.
pub fn rest_routes(method: Method, path: &str) -> (r: Option<Endpoint>)
    ensures
        r == endpoint_of(method, path@),
{
    match method {
        Method::Post => if text_eq(path, "register") {
            Some(Endpoint::Register)
        } else if text_eq(path, "login") {
            Some(Endpoint::Login)
        } else if text_eq(path, "user") {
            Some(Endpoint::User)
        } else if text_eq(path, "chat") {
            Some(Endpoint::Chat)
        } else if text_eq(path, "messages") {
            Some(Endpoint::Messages)
        } else if text_eq(path, "message") {
            Some(Endpoint::Message)
        } else if text_eq(path, "bundle") {
            Some(Endpoint::Bundle)
        } else if text_eq(path, "peer_bundle") {
            Some(Endpoint::PeerBundle)
        } else if text_eq(path, "initial_message") {
            Some(Endpoint::InitialMessage)
        } else if text_eq(path, "get_initial_message") {
            Some(Endpoint::GetInitialMessage)
        } else {
            None
        },
        Method::Get => if text_eq(path, "dashboard") {
            Some(Endpoint::Dashboard)
        } else if text_eq(path, "chats") {
            Some(Endpoint::Chats)
        } else if text_eq(path, "chat") {
            Some(Endpoint::Socket)
        } else {
            None
        },
        Method::Other => None,
    }
}

/// Whether a request must carry a token: all but registering and logging in.
pub fn with_auth(endpoint: Endpoint) -> (r: bool)
    ensures
        r == !(endpoint == Endpoint::Register || endpoint == Endpoint::Login),
{
    match endpoint {
        Endpoint::Register | Endpoint::Login => false,
        _ => true,
    }
}

/// What a failure looks like on the wire: what kind it is, and the status
/// that the answer carries.
#[derive(Debug, Clone, Copy, PartialEq, Eq)]
pub struct WebErrorMessage {
    pub kind: &'static str,
    pub status_code: u16,
}

impl WebErrorMessage {
    /// The answer to a failure of no known kind.
    pub fn unknown() -> (r: WebErrorMessage)
        ensures
            r.kind@ == "Unkown error"@,
            r.status_code == 400,
    {
        WebErrorMessage { kind: "Unkown error", status_code: 400 }
    }

    pub fn rejection(kind: &'static str, status_code: u16) -> (r: WebErrorMessage)
        ensures
            r.kind == kind,
            r.status_code == status_code,
    {
        WebErrorMessage { kind, status_code }
    }

    /// A failure to make sense of a request is a bad request.
    pub fn from_error(_other: Error) -> (r: WebErrorMessage)
        ensures
            r.kind@ == "error::Error"@,
            r.status_code == 400,
    {
        WebErrorMessage::rejection("error::Error", 400)
    }

    /// A failure of the store is a bad request, but for a user who is not
    /// there, which is a 404.
    pub fn from_model(other: model::Error) -> (r: WebErrorMessage)
        ensures
            r.kind@ == "model::Error"@,
            r.status_code == if other == model::Error::NoUserWithSuchEmail {
                404u16
            } else {
                400u16
            },
    {
        match other {
            model::Error::NoUserWithSuchEmail => WebErrorMessage::rejection("model::Error", 404),
            _ => WebErrorMessage::rejection("model::Error", 400),
        }
    }

    pub fn from_bson(_other: BsonError) -> (r: WebErrorMessage)
        ensures
            r.kind@ == "error::BsonError"@,
            r.status_code == 400,
    {
        WebErrorMessage::rejection("error::BsonError", 400)
    }

    /// A failure to show who is asking is unauthorized.
    pub fn from_authorization(_other: AuthorizationError) -> (r: WebErrorMessage)
        ensures
            r.kind@ == "error::AuthError"@,
            r.status_code == 401,
    {
        WebErrorMessage::rejection("error::AuthError", 401)
    }

    /// A bundle published twice is a conflict, a user without bundle is not
    /// found, and a pool that is used up is gone.
    pub fn from_directory(other: DirectoryError) -> (r: WebErrorMessage)
        ensures
            r.kind@ == "directory::Error"@,
            r.status_code == match other {
                DirectoryError::AlreadyPublished => 409u16,
                DirectoryError::UnknownUser => 404u16,
                DirectoryError::NoOneTimeLeft => 410u16,
            },
    {
        match other {
            DirectoryError::AlreadyPublished => WebErrorMessage::rejection(
                "directory::Error",
                409,
            ),
            DirectoryError::UnknownUser => WebErrorMessage::rejection("directory::Error", 404),
            DirectoryError::NoOneTimeLeft => WebErrorMessage::rejection("directory::Error", 410),
        }
    }
}

/// What the store said of an email, turned into whether the email is free: it
/// is where no user has it, it is not where one has, and any other failure of
/// the store stays a failure.
pub fn is_unique_email(lookup: Result<(), model::Error>) -> (r: Result<bool, model::Error>)
    ensures
        r == match lookup {
            Ok(_) => Ok::<bool, model::Error>(false),
            Err(model::Error::NoUserWithSuchEmail) => Ok(true),
            Err(e) => Err(e),
        },
{
    match lookup {
        Ok(_) => Ok(false),
        Err(err) => match err {
            model::Error::NoUserWithSuchEmail => Ok(true),
            _ => Err(err),
        },
    }
}

/// Whether a user may register under an email, given what the store said of
/// it: `NotUnique` where a user has it.
pub fn register_handle(lookup: Result<(), model::Error>) -> (r: Result<(), model::Error>)
    ensures
        r == match lookup {
            Ok(_) => Err::<(), _>(model::Error::NotUnique),
            Err(model::Error::NoUserWithSuchEmail) => Ok(()),
            Err(e) => Err(e),
        },
{
    match is_unique_email(lookup) {
        Ok(true) => Ok(()),
        Ok(false) => Err(model::Error::NotUnique),
        Err(e) => Err(e),
    }
}

/// Whether a password is the user's: it is hashed and held against what is
/// kept.
pub fn login_handle(user: &User, password: &String) -> (r: Result<(), AuthorizationError>)
    ensures
        r is Ok <==> user.password_view() == hashed(password@),
        r matches Err(e) ==> e == AuthorizationError::InvalidCredentials,
{
    if !user.password_matches(&hashed_password(password)) {
        return Err(AuthorizationError::InvalidCredentials);
    }
    Ok(())
}

/// By what a user is looked for.
#[derive(Debug)]
pub enum Find {
    ById(ObjectId),
    ByUsername(String),
    ByEmail(String),
    Nothing,
}

/// By what the user of a request is looked for: by identifier where one is
/// given, else by username, else by email.
pub fn find_handle(body: FindBody) -> (r: Find)
    ensures
        r == match (body.id, body.username, body.email) {
            (Some(id), _, _) => Find::ById(id),
            (None, Some(username), _) => Find::ByUsername(username),
            (None, None, Some(email)) => Find::ByEmail(email),
            (None, None, None) => Find::Nothing,
        },
{
    match body.id {
        Some(id) => Find::ById(id),
        None => match body.username {
            Some(username) => Find::ByUsername(username),
            None => match body.email {
                Some(email) => Find::ByEmail(email),
                None => Find::Nothing,
            },
        },
    }
}

} // verus!
