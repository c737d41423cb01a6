//! What a key, a bundle or a handshake can fail with.

use vstd::prelude::*;

verus! {

/// Why a key, a bundle or a handshake is refused.
#[derive(Debug, Clone, Copy, PartialEq, Eq, Structural)]
pub enum X3dhError {
    /// The signature over the signed pre-key does not verify under the
    /// identity key it came with.
    SignatureInvalid,
    /// Bytes that are not a key of the curve, or a key pair whose halves do
    /// not belong together.
    MalformedKey,
    /// Bytes that are not the encoding of a bundle or of an initial message.
    MalformedBundle,
    /// An initial message names a one-time pre-key that the responder does not
    /// hold.
    UnknownOneTimeIndex,
}

} // verus!
