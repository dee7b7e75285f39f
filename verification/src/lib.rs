//! A point-to-point encrypted messaging channel: two peers establish an
//! ephemeral shared secret over an unauthenticated transport, then exchange
//! length-framed, individually encrypted messages until either side closes
//! the connection.
//!
//! The crate holds the protocol core: the length-prefixed framing codec, the
//! ephemeral X25519 key exchange, the HKDF-SHA256 key derivation, the
//! XChaCha20-Poly1305 message cipher with a fresh random nonce per message,
//! and the session state machine that drives one connection through its
//! handshake and its two data paths. Transport setup and console I/O live
//! outside it and only move bytes and lines.

mod codec;
mod crypto;
mod errors;
mod session;

pub use codec::be32_bytes;
pub use codec::be32_value;
pub use codec::decode_frame;
pub use codec::encode_frame;
pub use codec::frame_of;
pub use codec::lemma_frame_round_trip;
pub use codec::lemma_short_buffer_no_frame;
pub use codec::parse_frame;

pub use crypto::aead_from_key;
pub use crypto::context_label;
pub use crypto::decrypt_message;
pub use crypto::decrypt_spec;
pub use crypto::derive_key_from_shared;
pub use crypto::dh_shared;
pub use crypto::encrypt_message;
pub use crypto::gen_x25519_keypair;
pub use crypto::hkdf_key;
pub use crypto::lemma_message_round_trip;
pub use crypto::open_payload;
pub use crypto::pubkey_from_bytes;
pub use crypto::pubkey_of;
pub use crypto::shared_secret_bytes;
pub use crypto::xchacha_open;
pub use crypto::xchacha_seal;
pub use crypto::MessageCipher;

pub use errors::ChatError;

pub use session::classify_line;
pub use session::is_ws;
pub use session::line_blank;
pub use session::line_quit;
pub use session::quit_bytes;
pub use session::trim_ws;
pub use session::LineClass;
pub use session::Phase;
pub use session::Role;
pub use session::SendStep;
pub use session::Session;
pub use session::SessionEvent;
