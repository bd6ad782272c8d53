//! The cryptographic primitives the library relies on, each a call into an
//! outside crate: BLAKE3 content hashes, HMAC-SHA256, Ed25519 signatures,
//! XChaCha20-Poly1305 sealing, base64 text, self-signed certificates and
//! operating-system randomness.

use vstd::prelude::*;
use crate::ids::hex_of;
use base64::Engine;
use chacha20poly1305::aead::{Aead, KeyInit, Payload};
use ed25519_dalek::{Signer, Verifier};
use hmac::Mac;

verus! {

/// The BLAKE3 digest (32 bytes) of `data`.
pub uninterp spec fn blake3_digest(data: Seq<u8>) -> Seq<u8>;

/// HMAC-SHA256 of `msg` under `key`.
pub uninterp spec fn hmac_sha256(key: Seq<u8>, msg: Seq<u8>) -> Seq<u8>;

/// The Ed25519 public key of a 32-byte secret key.
pub uninterp spec fn ed25519_public_key(secret: Seq<u8>) -> Seq<u8>;

/// The Ed25519 signature (64 bytes) of `msg` under a 32-byte secret key.
pub uninterp spec fn ed25519_signature(secret: Seq<u8>, msg: Seq<u8>) -> Seq<u8>;

/// Whether 32 bytes are the compressed form of a curve point, i.e. a usable
/// Ed25519 public key.
pub uninterp spec fn ed25519_key_is_valid(public: Seq<u8>) -> bool;

/// Whether `sig` (64 bytes) is a valid Ed25519 signature of `msg` under the
/// valid public key `public`.
pub uninterp spec fn ed25519_signature_is_valid(public: Seq<u8>, msg: Seq<u8>, sig: Seq<u8>) -> bool;

/// XChaCha20-Poly1305 ciphertext (with its 16-byte tag) of `plaintext`.
pub uninterp spec fn xchacha_seal(key: Seq<u8>, nonce: Seq<u8>, plaintext: Seq<u8>, aad: Seq<u8>) -> Seq<u8>;

/// The plaintext XChaCha20-Poly1305 recovers from `ciphertext`, or `None`
/// when the tag does not authenticate it.
pub uninterp spec fn xchacha_open(key: Seq<u8>, nonce: Seq<u8>, ciphertext: Seq<u8>, aad: Seq<u8>) -> Option<Seq<u8>>;

/// Base64 text of `bytes`, standard alphabet, no padding.
pub uninterp spec fn base64_text(bytes: Seq<u8>) -> Seq<char>;

/// The bytes that base64 text (standard alphabet, no padding) stands for,
/// or `None` when it is not such text.
pub uninterp spec fn base64_bytes(text: Seq<char>) -> Option<Seq<u8>>;

/// The content hash of `data`: its BLAKE3 digest in lowercase hexadecimal.
pub open spec fn content_hash_of(data: Seq<u8>) -> Seq<char> {
    hex_of(blake3_digest(data))
}

/// `blake3::hash(content).to_hex()`: the digest's 32 bytes as 64 lowercase
/// hexadecimal digits, high nibble first (as `to_hex` writes them).
#[verifier::external_body]
pub fn content_hash(content: &[u8]) -> (hash: String)
    ensures
        hash@ == hex_of(blake3_digest(content@)),
        hash@.len() == 64,
{
    blake3::hash(content).to_hex().to_string()
}

/// `Hmac::<Sha256>::new_from_slice(key)` (which accepts any key length),
/// fed `msg`, finalized: the 32-byte tag.
#[verifier::external_body]
pub(crate) fn hmac_sha256_tag(key: &[u8], msg: &[u8]) -> (tag: Vec<u8>)
    ensures
        tag@ == hmac_sha256(key@, msg@),
        tag@.len() == 32,
{
    let mut mac = <hmac::Hmac<sha2::Sha256> as hmac::Mac>::new_from_slice(key).expect(
        "HMAC accepts keys of any length",
    );
    mac.update(msg);
    mac.finalize().into_bytes().to_vec()
}

/// `SigningKey::from_bytes(secret).verifying_key().to_bytes()`: a key that
/// `VerifyingKey::from_bytes` accepts.
#[verifier::external_body]
pub(crate) fn ed25519_public(secret: &[u8; 32]) -> (public: [u8; 32])
    ensures
        public@ == ed25519_public_key(secret@),
        ed25519_key_is_valid(public@),
{
    ed25519_dalek::SigningKey::from_bytes(secret).verifying_key().to_bytes()
}

/// `SigningKey::from_bytes(secret).sign(msg).to_bytes()` (deterministic
/// Ed25519): the 64-byte signature, which the secret key's verifying key
/// accepts for `msg` (as the crate's documentation shows).
#[verifier::external_body]
pub(crate) fn ed25519_sign(secret: &[u8; 32], msg: &[u8]) -> (sig: Vec<u8>)
    ensures
        sig@ == ed25519_signature(secret@, msg@),
        sig@.len() == 64,
        ed25519_signature_is_valid(ed25519_public_key(secret@), msg@, sig@),
{
    ed25519_dalek::SigningKey::from_bytes(secret).sign(msg).to_bytes().to_vec()
}

/// Whether `VerifyingKey::from_bytes(public)` accepts the key.
#[verifier::external_body]
pub(crate) fn ed25519_valid_key(public: &[u8; 32]) -> (valid: bool)
    ensures
        valid == ed25519_key_is_valid(public@),
{
    ed25519_dalek::VerifyingKey::from_bytes(public).is_ok()
}

/// Whether `VerifyingKey::from_bytes(public)?.verify(msg, &Signature::from_slice(sig)?)`
/// succeeds, for a key that `ed25519_valid_key` accepts and a 64-byte
/// signature (the only length `Signature::from_slice` accepts).
#[verifier::external_body]
pub(crate) fn ed25519_verify(public: &[u8; 32], msg: &[u8], sig: &[u8]) -> (valid: bool)
    requires
        ed25519_key_is_valid(public@),
        sig@.len() == 64,
    ensures
        valid == ed25519_signature_is_valid(public@, msg@, sig@),
{
    match ed25519_dalek::VerifyingKey::from_bytes(public) {
        Ok(key) => match ed25519_dalek::Signature::from_slice(sig) {
            Ok(signature) => key.verify(msg, &signature).is_ok(),
            Err(_) => false,
        },
        Err(_) => false,
    }
}

/// `XChaCha20Poly1305::new(key).encrypt(nonce, Payload { msg, aad })`. It
/// fails only for a plaintext of `u32::MAX` 64-byte blocks or more; the
/// ciphertext carries a 16-byte tag after the encrypted bytes, and
/// decrypting it with the same key, nonce and associated data gives the
/// plaintext back.
#[verifier::external_body]
pub(crate) fn xchacha_encrypt(key: &[u8; 32], nonce: &[u8; 24], plaintext: &[u8], aad: &[u8]) -> (r: Option<Vec<u8>>)
    ensures
        r is Some <==> plaintext@.len() / 64 < u32::MAX,
        r matches Some(c) ==> c@ == xchacha_seal(key@, nonce@, plaintext@, aad@),
        r matches Some(c) ==> c@.len() == plaintext@.len() + 16,
        r is Some ==> xchacha_open(key@, nonce@, xchacha_seal(key@, nonce@, plaintext@, aad@), aad@)
            == Some(plaintext@),
{
    let cipher = chacha20poly1305::XChaCha20Poly1305::new(key.into());
    cipher.encrypt(nonce.into(), Payload { msg: plaintext, aad }).ok()
}

/// `XChaCha20Poly1305::new(key).decrypt(nonce, Payload { msg: ciphertext, aad })`.
#[verifier::external_body]
pub(crate) fn xchacha_decrypt(key: &[u8; 32], nonce: &[u8; 24], ciphertext: &[u8], aad: &[u8]) -> (r: Option<Vec<u8>>)
    ensures
        match r {
            Some(p) => xchacha_open(key@, nonce@, ciphertext@, aad@) == Some(p@),
            None => xchacha_open(key@, nonce@, ciphertext@, aad@) is None,
        },
{
    let cipher = chacha20poly1305::XChaCha20Poly1305::new(key.into());
    cipher.decrypt(nonce.into(), Payload { msg: ciphertext, aad }).ok()
}

/// `STANDARD_NO_PAD.encode(bytes)`.
#[verifier::external_body]
pub(crate) fn base64_encode(bytes: &[u8]) -> (text: String)
    ensures
        text@ == base64_text(bytes@),
{
    base64::engine::general_purpose::STANDARD_NO_PAD.encode(bytes)
}

/// `STANDARD_NO_PAD.decode(text)`, its error dropped.
#[verifier::external_body]
pub(crate) fn base64_decode(text: &str) -> (r: Option<Vec<u8>>)
    ensures
        match r {
            Some(b) => base64_bytes(text@) == Some(b@),
            None => base64_bytes(text@) is None,
        },
{
    base64::engine::general_purpose::STANDARD_NO_PAD.decode(text).ok()
}

/// Fills `buf` with random bytes from the operating system
/// (`getrandom::fill`); on failure, the error's text. Nothing is promised of
/// the bytes but their number.
#[verifier::external_body]
pub(crate) fn fill_random(buf: &mut Vec<u8>) -> (r: Result<(), String>)
    ensures
        final(buf)@.len() == old(buf)@.len(),
{
    match getrandom::fill(buf.as_mut_slice()) {
        Ok(()) => Ok(()),
        Err(error) => Err(error.to_string()),
    }
}

/// `rcgen::generate_simple_self_signed(vec![name])`: a fresh key pair and a
/// certificate for `name`, as (certificate DER, PKCS#8 private key DER); on
/// failure, the error's text. Both come from fresh randomness, so nothing is
/// promised of them.
#[verifier::external_body]
pub(crate) fn self_signed_certificate(name: &str) -> (r: Result<(Vec<u8>, Vec<u8>), String>) {
    match rcgen::generate_simple_self_signed(vec![name.to_owned()]) {
        Ok(certified) => Ok((certified.cert.der().to_vec(), certified.key_pair.serialize_der())),
        Err(error) => Err(error.to_string()),
    }
}

/// The string a JSON document holds, when `serde_json::from_str::<String>`
/// accepts the document.
pub uninterp spec fn json_string(text: Seq<char>) -> Option<Seq<char>>;

/// A JSON string literal without escapes: a quote, characters none of which
/// is a quote, a backslash or a control character, and a quote.
pub open spec fn plain_json_literal(text: Seq<char>) -> bool {
    &&& text.len() >= 2
    &&& text[0] == '"'
    &&& text[text.len() - 1] == '"'
    &&& forall|i: int|
        1 <= i < text.len() - 1 ==> #[trigger] text[i] != '"' && text[i] != '\\' && (text[i] as u32)
            >= 0x20
}

/// `serde_json::from_str::<String>(text)`, its error dropped. JSON reads a
/// literal without escapes as the characters between its quotes.
#[verifier::external_body]
pub(crate) fn parse_json_string(text: &str) -> (r: Option<String>)
    ensures
        match r {
            Some(s) => json_string(text@) == Some(s@),
            None => json_string(text@) is None,
        },
        r matches Some(s) ==> (plain_json_literal(text@) ==> s@ == text@.subrange(
            1,
            text@.len() - 1,
        )),
        r is None ==> !plain_json_literal(text@),
{
    serde_json::from_str::<String>(text).ok()
}

/// The earliest Unix time in milliseconds chrono represents: the start of
/// the year -262143.
pub const MIN_TIMESTAMP_MS: i64 = -8334601315200000;

/// The latest Unix time in milliseconds chrono represents: the last
/// millisecond of the year 262142.
pub const MAX_TIMESTAMP_MS: i64 = 8210266876799999;

/// Whether `chrono::DateTime::from_timestamp_millis(ms)` gives a time: it
/// does for the milliseconds from the first day of chrono's earliest year
/// to the last day of its latest one.
#[verifier::external_body]
pub(crate) fn timestamp_is_representable(ms: i64) -> (valid: bool)
    ensures
        valid == (MIN_TIMESTAMP_MS <= ms <= MAX_TIMESTAMP_MS),
{
    chrono::DateTime::from_timestamp_millis(ms).is_some()
}

} // verus!
