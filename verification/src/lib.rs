//! An end-to-end encrypted chat, as far as it can be decided without a socket,
//! a disk or a clock: key agreement between two parties over published key
//! material, the sealed envelope that carries each message, the directory and
//! the relay that broker both, and the state of the client around them.
//!
//! The curve, the cipher and the hashes are other crates' work. What this
//! crate takes from them on trust stands in `curve`, `cipher`, `x3dh`, `hash`,
//! `text` and `api::ws`, each with the claim it makes; everything else is
//! proved from those claims.

pub mod account;
pub mod api;
pub mod chats;
pub mod cipher;
pub mod codec;
pub mod curve;
pub mod directory;
pub mod envelope;
pub mod error;
pub mod handshake;
pub mod hash;
pub mod hex;
pub mod keyring;
pub mod keys;
pub mod model;
pub mod pipeline;
pub mod relay;
pub mod server;
pub mod table;
pub mod text;
pub mod token;
pub mod tui;
pub mod wire;
pub mod x3dh;
