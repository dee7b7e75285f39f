//! The cryptographic core: ephemeral X25519 key exchange, HKDF-SHA256 key
//! derivation, and XChaCha20-Poly1305 authenticated message encryption with a
//! fresh 24-byte random nonce prepended to every ciphertext.
//!
//! The outside primitives are called behind trusted wrappers; everything a
//! wrapper's contract states of them is expressed through named results
//! (`pubkey_of`, `dh_shared`, `hkdf_key`, `xchacha_seal`, `xchacha_open`),
//! and all logic around the calls is verified against those names.

use vstd::prelude::*;

use chacha20poly1305::aead::Aead;
use chacha20poly1305::aead::KeyInit;
use rand::RngCore;

use crate::codec::copy_range;
use crate::errors::ChatError;

verus! {

/// The X25519 public key derived from a 32-byte secret scalar.
pub uninterp spec fn pubkey_of(sk: Seq<u8>) -> Seq<u8>;

/// The X25519 Diffie-Hellman shared secret of a secret scalar and a peer's
/// public key.
pub uninterp spec fn dh_shared(sk: Seq<u8>, pk: Seq<u8>) -> Seq<u8>;

/// The 32 bytes that HKDF-SHA256 (no salt, extract-then-expand) derives from
/// an input keying material and a context string.
pub uninterp spec fn hkdf_key(ikm: Seq<u8>, info: Seq<u8>) -> Seq<u8>;

/// The ciphertext-plus-tag that XChaCha20-Poly1305 produces from a key, a
/// nonce and a plaintext, with empty associated data.
pub uninterp spec fn xchacha_seal(key: Seq<u8>, nonce: Seq<u8>, pt: Seq<u8>) -> Seq<u8>;

/// What XChaCha20-Poly1305 decryption returns for a key, a nonce and a
/// ciphertext-plus-tag: the plaintext when the tag verifies, nothing
/// otherwise.
pub uninterp spec fn xchacha_open(key: Seq<u8>, nonce: Seq<u8>, ct: Seq<u8>) -> Option<Seq<u8>>;

/// The fixed, protocol-specific context string handed to the key derivation:
/// the bytes of "rust-cli-e2e-chat".
pub open spec fn context_label() -> Seq<u8> {
    seq![114u8, 117u8, 115u8, 116u8, 45u8, 99u8, 108u8, 105u8, 45u8, 101u8, 50u8, 101u8, 45u8,
        99u8, 104u8, 97u8, 116u8]
}

/// Relies on x25519_dalek::StaticSecret::random_from_rng with rand's OsRng:
/// an ephemeral secret is 32 bytes drawn from the operating system's secure
/// random source. Nothing further can be promised of a random value.
#[verifier::external_body]
fn x25519_gen_secret() -> (r: Vec<u8>)
    ensures
        r@.len() == 32,
{
    let sk = x25519_dalek::StaticSecret::random_from_rng(rand::rngs::OsRng);
    sk.as_bytes().to_vec()
}

/// Relies on x25519_dalek::PublicKey::from(&StaticSecret): the public key is
/// a 32-byte point computed from the secret scalar alone.
#[verifier::external_body]
fn x25519_public_of(sk: &Vec<u8>) -> (r: Vec<u8>)
    requires
        sk@.len() == 32,
    ensures
        r@.len() == 32,
        r@ == pubkey_of(sk@),
{
    let mut arr = [0u8; 32];
    arr.copy_from_slice(sk.as_slice());
    let pk = x25519_dalek::PublicKey::from(&x25519_dalek::StaticSecret::from(arr));
    pk.as_bytes().to_vec()
}

/// Relies on x25519_dalek::StaticSecret::diffie_hellman: the shared secret is
/// 32 bytes computed from the secret scalar and the peer's public point
/// alone; and on the X25519 agreement property its documentation states: the
/// two sides of an exchange compute the same secret.
#[verifier::external_body]
fn x25519_dh(sk: &Vec<u8>, pk: &Vec<u8>) -> (r: Vec<u8>)
    requires
        sk@.len() == 32,
        pk@.len() == 32,
    ensures
        r@.len() == 32,
        r@ == dh_shared(sk@, pk@),
        forall|other: Seq<u8>| pk@ == #[trigger] pubkey_of(other) ==> r@ == dh_shared(
            other,
            pubkey_of(sk@),
        ),
{
    let mut ska = [0u8; 32];
    ska.copy_from_slice(sk.as_slice());
    let mut pka = [0u8; 32];
    pka.copy_from_slice(pk.as_slice());
    let secret = x25519_dalek::StaticSecret::from(ska);
    let shared = secret.diffie_hellman(&x25519_dalek::PublicKey::from(pka));
    shared.as_bytes().to_vec()
}

/// Relies on hkdf::Hkdf::<sha2::Sha256>::new (no salt) and expand: the output
/// keying material is a function of the input keying material and the info
/// string alone; expand never fails for a 32-byte output.
#[verifier::external_body]
fn hkdf_expand32(ikm: &Vec<u8>, info: &Vec<u8>) -> (r: Vec<u8>)
    ensures
        r@.len() == 32,
        r@ == hkdf_key(ikm@, info@),
{
    let hk = hkdf::Hkdf::<sha2::Sha256>::new(None, ikm.as_slice());
    let mut okm = [0u8; 32];
    hk.expand(info.as_slice(), &mut okm).expect("hkdf expand of 32 bytes");
    okm.to_vec()
}

/// Relies on rand's OsRng::fill_bytes: 24 bytes from the operating system's
/// secure random source. Nothing further can be promised of a random value.
#[verifier::external_body]
fn fresh_nonce() -> (r: Vec<u8>)
    ensures
        r@.len() == 24,
{
    let mut nonce = [0u8; 24];
    rand::rngs::OsRng.fill_bytes(&mut nonce);
    nonce.to_vec()
}

/// Relies on chacha20poly1305::XChaCha20Poly1305 (KeyInit::new, then
/// Aead::encrypt with empty associated data): the result is a function of
/// key, nonce and plaintext alone; it is the plaintext's length plus the
/// 16-byte Poly1305 tag; and, as the aead crate documents, decryption under
/// the same key and nonce inverts it. Encrypt only fails for plaintexts
/// beyond the cipher's enormous length bound, which the precondition keeps
/// far out of reach.
#[verifier::external_body]
fn aead_seal(key: &Vec<u8>, nonce: &Vec<u8>, pt: &Vec<u8>) -> (r: Vec<u8>)
    requires
        key@.len() == 32,
        nonce@.len() == 24,
        pt@.len() <= 0xFFFF_FFFF,
    ensures
        r@ == xchacha_seal(key@, nonce@, pt@),
        r@.len() == pt@.len() + 16,
        xchacha_open(key@, nonce@, r@) == Some(pt@),
{
    let cipher = chacha20poly1305::XChaCha20Poly1305::new(
        chacha20poly1305::Key::from_slice(key.as_slice()),
    );
    let xn = chacha20poly1305::XNonce::from_slice(nonce.as_slice());
    cipher.encrypt(xn, pt.as_slice()).expect("xchacha20poly1305 encrypt")
}

/// Relies on chacha20poly1305::XChaCha20Poly1305 (KeyInit::new, then
/// Aead::decrypt with empty associated data): decryption is a function of
/// key, nonce and ciphertext alone; it returns the plaintext when the tag
/// verifies and an error otherwise.
#[verifier::external_body]
fn aead_open(key: &Vec<u8>, nonce: &Vec<u8>, ct: &Vec<u8>) -> (r: Option<Vec<u8>>)
    requires
        key@.len() == 32,
        nonce@.len() == 24,
    ensures
        r matches Some(p) ==> xchacha_open(key@, nonce@, ct@) == Some(p@),
        r is None ==> xchacha_open(key@, nonce@, ct@) is None,
{
    let cipher = chacha20poly1305::XChaCha20Poly1305::new(
        chacha20poly1305::Key::from_slice(key.as_slice()),
    );
    let xn = chacha20poly1305::XNonce::from_slice(nonce.as_slice());
    cipher.decrypt(xn, ct.as_slice()).ok()
}

/// The fixed context string as bytes: "rust-cli-e2e-chat".
fn context_label_bytes() -> (r: Vec<u8>)
    ensures
        r@ == context_label(),
{
    let mut r: Vec<u8> = Vec::new();
    r.push(114);
    r.push(117);
    r.push(115);
    r.push(116);
    r.push(45);
    r.push(99);
    r.push(108);
    r.push(105);
    r.push(45);
    r.push(101);
    r.push(50);
    r.push(101);
    r.push(45);
    r.push(99);
    r.push(104);
    r.push(97);
    r.push(116);
    assert(r@ =~= context_label());
    r
}

/// A fresh ephemeral keypair: the secret scalar and the public point derived
/// from it, each 32 bytes. One per connection; never reused.
pub fn gen_x25519_keypair() -> (r: (Vec<u8>, Vec<u8>))
    ensures
        r.0@.len() == 32,
        r.1@.len() == 32,
        r.1@ == pubkey_of(r.0@),
{
    let sk = x25519_gen_secret();
    let pk = x25519_public_of(&sk);
    (sk, pk)
}

/// The raw Diffie-Hellman shared secret of our secret scalar and the peer's
/// public key. Pure; and when the peer's key is itself the public key of some
/// scalar, both sides of the exchange compute the same 32 bytes.
pub fn shared_secret_bytes(sk: &Vec<u8>, peer_pk: &Vec<u8>) -> (r: Vec<u8>)
    requires
        sk@.len() == 32,
        peer_pk@.len() == 32,
    ensures
        r@.len() == 32,
        r@ == dh_shared(sk@, peer_pk@),
        forall|other: Seq<u8>| peer_pk@ == #[trigger] pubkey_of(other) ==> r@ == dh_shared(
            other,
            pubkey_of(sk@),
        ),
{
    x25519_dh(sk, peer_pk)
}

/// Stretch the raw shared secret into the 32-byte session key, under the
/// protocol's fixed context string. Deterministic: the same shared secret
/// always yields the same key.
pub fn derive_key_from_shared(shared: &Vec<u8>) -> (r: Vec<u8>)
    ensures
        r@.len() == 32,
        r@ == hkdf_key(shared@, context_label()),
{
    let info = context_label_bytes();
    hkdf_expand32(shared, &info)
}

/// The message cipher, bound to one session key for one connection's
/// lifetime.
pub struct MessageCipher {
    key: Vec<u8>,
}

impl View for MessageCipher {
    type V = Seq<u8>;

    closed spec fn view(&self) -> Seq<u8> {
        self.key@
    }
}

impl MessageCipher {
    /// A well-formed cipher holds a 32-byte key.
    pub open spec fn wf(&self) -> bool {
        self@.len() == 32
    }
}

/// Bind a message cipher to a 32-byte session key.
pub fn aead_from_key(key: &Vec<u8>) -> (c: MessageCipher)
    requires
        key@.len() == 32,
    ensures
        c@ == key@,
        c.wf(),
{
    let k = copy_range(key, 0, key.len());
    assert(k@ =~= key@);
    MessageCipher { key: k }
}

/// What decryption of `payload` under `key` yields, when the payload is long
/// enough to begin with a nonce: the sealed plaintext, or nothing when the
/// tag does not verify.
pub open spec fn open_payload(key: Seq<u8>, payload: Seq<u8>) -> Option<Seq<u8>>
    recommends
        payload.len() >= 24,
{
    xchacha_open(key, payload.subrange(0, 24), payload.subrange(24, payload.len() as int))
}

/// The exact outcome of decrypting `payload` under `key`: a payload shorter
/// than the 24-byte nonce is malformed; otherwise the first 24 bytes are the
/// nonce and the rest must open under it, else authentication has failed.
pub open spec fn decrypt_spec(key: Seq<u8>, payload: Seq<u8>) -> Result<Seq<u8>, ChatError> {
    if payload.len() < 24 {
        Err(ChatError::MalformedPayload)
    } else {
        match open_payload(key, payload) {
            Some(p) => Ok(p),
            None => Err(ChatError::AuthenticationFailed),
        }
    }
}

/// Round trip: a payload whose sealed part opens to a plaintext under a key
/// — as `encrypt_message` promises of everything it returns — decrypts to
/// exactly that plaintext, never to an error or another value.
pub proof fn lemma_message_round_trip(key: Seq<u8>, payload: Seq<u8>, pt: Seq<u8>)
    requires
        payload.len() >= 24,
        open_payload(key, payload) == Some(pt),
    ensures
        decrypt_spec(key, payload) == Ok::<Seq<u8>, ChatError>(pt),
{
}

/// Encrypt one message: draw a fresh 24-byte random nonce, seal the plaintext
/// under it, and return `nonce || ciphertext-plus-tag`. Whatever nonce was
/// drawn, decrypting the result under the same key yields the plaintext back.
pub fn encrypt_message(aead: &MessageCipher, plaintext: &Vec<u8>) -> (r: Vec<u8>)
    requires
        aead.wf(),
        plaintext@.len() <= 0xFFFF_FF00,
    ensures
        r@.len() == plaintext@.len() + 40,
        r@.subrange(24, r@.len() as int) == xchacha_seal(aead@, r@.subrange(0, 24), plaintext@),
        decrypt_spec(aead@, r@) == Ok::<Seq<u8>, ChatError>(plaintext@),
{
    let nonce = fresh_nonce();
    let ghost nseq = nonce@;
    let ct = aead_seal(&aead.key, &nonce, plaintext);
    let mut out = nonce;
    let mut i: usize = 0;
    while i < ct.len()
        invariant
            i <= ct@.len(),
            out@ == nseq + ct@.take(i as int),
        decreases ct@.len() - i,
    {
        out.push(ct[i]);
        i += 1;
        assert(ct@.take(i as int) == ct@.take(i - 1 as int).push(ct@[i - 1]));
    }
    assert(out@ =~= nseq + ct@);
    assert(out@.subrange(0, 24) =~= nseq);
    assert(out@.subrange(24, out@.len() as int) =~= ct@);
    out
}

/// Decrypt one message: reject anything shorter than the 24-byte nonce as
/// malformed, split off the nonce, and open the rest; a tag that does not
/// verify is an authentication failure. The result is exactly
/// `decrypt_spec` of the inputs.
pub fn decrypt_message(aead: &MessageCipher, payload: &Vec<u8>) -> (r: Result<Vec<u8>, ChatError>)
    requires
        aead.wf(),
    ensures
        r matches Ok(p) ==> decrypt_spec(aead@, payload@) == Ok::<Seq<u8>, ChatError>(p@),
        r matches Err(e) ==> decrypt_spec(aead@, payload@) == Err::<Seq<u8>, ChatError>(e),
{
    if payload.len() < 24 {
        return Err(ChatError::MalformedPayload);
    }
    let nonce = copy_range(payload, 0, 24);
    let ct = copy_range(payload, 24, payload.len());
    match aead_open(&aead.key, &nonce, &ct) {
        Some(p) => Ok(p),
        None => Err(ChatError::AuthenticationFailed),
    }
}

/// Decode a peer's public key: exactly 32 bytes, returned verbatim; any other
/// length is rejected.
pub fn pubkey_from_bytes(v: &Vec<u8>) -> (r: Result<Vec<u8>, ChatError>)
    ensures
        v@.len() == 32 ==> (r matches Ok(pk) && pk@ == v@),
        v@.len() != 32 ==> r == Err::<Vec<u8>, ChatError>(ChatError::InvalidKeyLength),
{
    if v.len() == 32 {
        let pk = copy_range(v, 0, 32);
        assert(pk@ =~= v@);
        Ok(pk)
    } else {
        Err(ChatError::InvalidKeyLength)
    }
}

} // verus!
