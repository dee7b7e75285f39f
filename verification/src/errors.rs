//! The error kinds of the channel. Every one is fatal to the session it
//! occurs in; none is retryable.

use vstd::prelude::*;

verus! {

/// What can go wrong on a session.
///
/// - `IOError`: the stream failed or closed mid-frame; a short read is always
///   an error, never a short result.
/// - `InvalidKeyLength`: the peer's public key frame was not exactly 32 bytes;
///   fatal to the handshake.
/// - `MalformedPayload`: an encrypted message was shorter than the 24-byte
///   nonce it must begin with.
/// - `AuthenticationFailed`: the authentication tag did not verify — tampering,
///   a wrong key, or a corrupted nonce.
#[derive(Clone, Copy, PartialEq, Eq, Structural, Debug)]
pub enum ChatError {
    IOError,
    InvalidKeyLength,
    MalformedPayload,
    AuthenticationFailed,
}

} // verus!
