//! The sealed form of one chat message: ChaCha20-Poly1305 under the shared
//! secret, with the message's timestamp as the nonce.

use crate::keys::X3dhSharedSecret;
use crate::text::text_from_utf8;
use crate::wire::{le_bytes, lemma_le_bytes_len, put_u64};
use chacha20poly1305::aead::{Aead, KeyInit};
use vstd::prelude::*;
use vstd::utf8::{
    decode_utf8, encode_utf8, encode_utf8_decode_utf8, encode_utf8_valid_utf8, valid_utf8,
};

verus! {

/// What `ChaCha20Poly1305::encrypt` returns for a key of 32 bytes, a nonce of
/// 12 bytes and a plaintext, without associated data: the ciphertext with its
/// tag behind it, `None` where the cipher refuses the plaintext.
pub uninterp spec fn aead_seal(key: Seq<u8>, nonce: Seq<u8>, plaintext: Seq<u8>) -> Option<
    Seq<u8>,
>;

/// What `ChaCha20Poly1305::decrypt` returns for a key of 32 bytes, a nonce of
/// 12 bytes and a ciphertext, without associated data: the plaintext, `None`
/// where the tag does not fit.
pub uninterp spec fn aead_open(key: Seq<u8>, nonce: Seq<u8>, ciphertext: Seq<u8>) -> Option<
    Seq<u8>,
>;

/// The longest plaintext that the cipher takes is one byte short of this: the
/// block counter of ChaCha20 has 32 bits, and a block 64 bytes.
pub open spec fn plaintext_limit() -> nat {
    0xFFFF_FFFF * 64
}

/// `ChaCha20Poly1305::new`, then `encrypt`. Claimed: the result is
/// `aead_seal` of the arguments; a plaintext under the limit is never
/// refused; what comes back is 16 bytes longer than the plaintext, and
/// `decrypt` under the same key and nonce gives the plaintext again.
#[verifier::external_body]
fn seal(key: &[u8], nonce: &[u8], plaintext: &[u8]) -> (r: Option<Vec<u8>>)
    requires
        key@.len() == 32,
        nonce@.len() == 12,
    ensures
        r is Some <==> aead_seal(key@, nonce@, plaintext@) is Some,
        plaintext@.len() < plaintext_limit() ==> r is Some,
        r matches Some(sealed) ==> {
            &&& aead_seal(key@, nonce@, plaintext@) == Some(sealed@)
            &&& sealed@.len() == plaintext@.len() + 16
            &&& aead_open(key@, nonce@, sealed@) == Some(plaintext@)
        },
{
    let cipher = chacha20poly1305::ChaCha20Poly1305::new(chacha20poly1305::Key::from_slice(key));
    cipher.encrypt(chacha20poly1305::Nonce::from_slice(nonce), plaintext).ok()
}

/// `ChaCha20Poly1305::new`, then `decrypt`. Claimed: the result is
/// `aead_open` of the arguments.
#[verifier::external_body]
fn open(key: &[u8], nonce: &[u8], ciphertext: &[u8]) -> (r: Option<Vec<u8>>)
    requires
        key@.len() == 32,
        nonce@.len() == 12,
    ensures
        r is Some <==> aead_open(key@, nonce@, ciphertext@) is Some,
        r matches Some(plain) ==> aead_open(key@, nonce@, ciphertext@) == Some(plain@),
{
    let cipher = chacha20poly1305::ChaCha20Poly1305::new(chacha20poly1305::Key::from_slice(key));
    cipher.decrypt(chacha20poly1305::Nonce::from_slice(nonce), ciphertext).ok()
}

/// Why a message could not be sealed or opened.
#[derive(Debug, Clone, Copy, PartialEq, Eq, Structural)]
pub enum CipherError {
    /// The message cannot be sealed: the secret is no key of the cipher, or
    /// the message is longer than the cipher takes.
    EncryptionError,
    /// The bytes are no message sealed under this secret and timestamp. Which
    /// of the three is wrong is not told.
    DecryptionError,
    /// What was sealed is not text.
    ConversionError,
}

/// The nonce of a message: its timestamp in eight bytes, least significant
/// first, then four zero bytes.
pub open spec fn nonce(timestamp: u64) -> Seq<u8> {
    le_bytes(timestamp as nat, 8) + seq![0u8, 0u8, 0u8, 0u8]
}

/// The sealed form of a text under a secret and a timestamp: `None` where the
/// secret is not 32 bytes or the cipher refuses the text.
pub open spec fn sealed(secret: Seq<u8>, message: Seq<char>, timestamp: u64) -> Option<Seq<u8>> {
    if secret.len() == 32 {
        aead_seal(secret, nonce(timestamp), encode_utf8(message))
    } else {
        None
    }
}

/// The text that bytes open to under a secret and a timestamp.
pub open spec fn opened(secret: Seq<u8>, bytes: Seq<u8>, timestamp: u64) -> Result<
    Seq<char>,
    CipherError,
> {
    if secret.len() != 32 {
        Err(CipherError::DecryptionError)
    } else {
        match aead_open(secret, nonce(timestamp), bytes) {
            None => Err(CipherError::DecryptionError),
            Some(plain) => if valid_utf8(plain) {
                Ok(decode_utf8(plain))
            } else {
                Err(CipherError::ConversionError)
            },
        }
    }
}

/// The 12 bytes of the nonce that belongs to a timestamp.
pub fn nonce_bytes(timestamp: u64) -> (r: Vec<u8>)
    ensures
        r@ == nonce(timestamp),
        r@.len() == 12,
{
    let mut out: Vec<u8> = Vec::new();
    put_u64(&mut out, timestamp);
    out.push(0u8);
    out.push(0u8);
    out.push(0u8);
    out.push(0u8);
    proof {
        lemma_le_bytes_len(timestamp as nat, 8);
        assert(out@ =~= nonce(timestamp));
    }
    out
}

/// The message cipher of one chat.
pub struct Cipher {
    secret: X3dhSharedSecret,
}

impl View for Cipher {
    type V = Seq<u8>;

    /// The shared secret that the cipher seals under.
    closed spec fn view(&self) -> Seq<u8> {
        self.secret@
    }
}

impl Cipher {
    pub fn new(secret: X3dhSharedSecret) -> (r: Self)
        ensures
            r@ == secret@,
    {
        Cipher { secret }
    }

    /// Seals a text under the timestamp. What comes back opens to the text
    /// again under the same secret and timestamp. A secret of 32 bytes seals
    /// every text under the cipher's limit.
    pub fn encrypt(&self, message: &str, timestamp: u64) -> (r: Result<Vec<u8>, CipherError>)
        ensures
            r is Ok <==> sealed(self@, message@, timestamp) is Some,
            self@.len() == 32 && encode_utf8(message@).len() < plaintext_limit() ==> r is Ok,
            r matches Ok(bytes) ==> {
                &&& sealed(self@, message@, timestamp) == Some(bytes@)
                &&& bytes@.len() == encode_utf8(message@).len() + 16
                &&& opened(self@, bytes@, timestamp) == Ok::<_, CipherError>(message@)
            },
            r matches Err(e) ==> e == CipherError::EncryptionError,
    {
        broadcast use encode_utf8_valid_utf8, encode_utf8_decode_utf8;

        let secret = self.secret.to_bytes();
        if secret.len() != 32 {
            return Err(CipherError::EncryptionError);
        }
        let nonce = nonce_bytes(timestamp);
        match seal(secret, nonce.as_slice(), message.as_bytes()) {
            Some(bytes) => Ok(bytes),
            None => Err(CipherError::EncryptionError),
        }
    }

    /// Opens bytes that were sealed under this secret and the timestamp.
    pub fn decrypt(&self, message_bytes: &[u8], timestamp: u64) -> (r: Result<
        String,
        CipherError,
    >)
        ensures
            r matches Ok(text) ==> opened(self@, message_bytes@, timestamp) == Ok::<
                _,
                CipherError,
            >(text@),
            r matches Err(e) ==> opened(self@, message_bytes@, timestamp) == Err::<Seq<char>, _>(
                e,
            ),
    {
        broadcast use encode_utf8_decode_utf8;

        let secret = self.secret.to_bytes();
        if secret.len() != 32 {
            return Err(CipherError::DecryptionError);
        }
        let nonce = nonce_bytes(timestamp);
        match open(secret, nonce.as_slice(), message_bytes) {
            None => Err(CipherError::DecryptionError),
            Some(plain) => match text_from_utf8(plain) {
                Some(text) => Ok(text),
                None => Err(CipherError::ConversionError),
            },
        }
    }
}

} // verus!
