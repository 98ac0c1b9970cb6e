//! The cryptographic functions that signing rests on.

use aes_gcm::aead::{Aead, KeyInit, Payload};
use base64::Engine;
use ed25519_dalek::pkcs8::DecodePrivateKey;
use ed25519_dalek::Signer;
use hmac::Mac;
use rand::RngCore;
use sha2::Digest;
use subtle::ConstantTimeEq;
use vstd::prelude::*;

verus! {

#[verifier::external_type_specification]
#[verifier::external_body]
pub struct ExDecodeError(base64::DecodeError);

/// The SHA-256 digest of bytes.
pub uninterp spec fn sha256(bytes: Seq<u8>) -> Seq<u8>;

/// The 32 bytes that HKDF with SHA-256 derives from salt, secret and info.
pub uninterp spec fn hkdf_sha256(salt: Seq<u8>, secret: Seq<u8>, info: Seq<u8>) -> Seq<u8>;

/// The HMAC with SHA-256 of a message under a key.
pub uninterp spec fn hmac_sha256(key: Seq<u8>, message: Seq<u8>) -> Seq<u8>;

/// The base64 text of bytes, in the standard alphabet with padding.
pub uninterp spec fn base64_text(bytes: Seq<u8>) -> Seq<char>;

/// The bytes of a base64 text in the standard alphabet with padding.
pub uninterp spec fn base64_bytes(text: Seq<char>) -> Option<Seq<u8>>;

/// What AES-256-GCM decrypts of a message, where its tag is right.
pub uninterp spec fn gcm_opened(
    key: Seq<u8>,
    nonce: Seq<u8>,
    message: Seq<u8>,
    associated: Seq<u8>,
) -> Option<Seq<u8>>;

/// The secret of the Ed25519 key that a PKCS#8 document holds.
pub uninterp spec fn pkcs8_secret(document: Seq<u8>) -> Option<Seq<u8>>;

/// The Ed25519 signature of a message under the key of a secret.
pub uninterp spec fn ed25519_signature(secret: Seq<u8>, message: Seq<u8>) -> Seq<u8>;

/// `sha2::Sha256::digest` gives the digest of bytes, 32 bytes long.
#[verifier::external_body]
pub(crate) fn digest(bytes: &[u8]) -> (r: Vec<u8>)
    ensures
        r@ == sha256(bytes@),
        r@.len() == 32,
{
    sha2::Sha256::digest(bytes).to_vec()
}

/// `hkdf::Hkdf` with SHA-256 extracts and expands; 32 bytes are within what it
/// can give.
#[verifier::external_body]
pub(crate) fn derive_key(salt: &[u8], secret: &[u8], info: &[u8]) -> (r: Vec<u8>)
    ensures
        r@ == hkdf_sha256(salt@, secret@, info@),
        r@.len() == 32,
{
    let mut okm = [0u8; 32];
    hkdf::Hkdf::<sha2::Sha256>::new(Some(salt), secret).expand(info, &mut okm).expect(
        "32 bytes can be derived",
    );
    okm.to_vec()
}

/// `hmac::Hmac` with SHA-256 takes a key of any length and gives 32 bytes.
#[verifier::external_body]
pub(crate) fn authenticate(key: &[u8], message: &[u8]) -> (r: Vec<u8>)
    ensures
        r@ == hmac_sha256(key@, message@),
        r@.len() == 32,
{
    let mut mac = <hmac::Hmac<sha2::Sha256> as Mac>::new_from_slice(key).expect("any key will do");
    mac.update(message);
    mac.finalize().into_bytes().to_vec()
}

/// The standard engine of `base64` encodes bytes, and decodes what it encoded. It
/// gives up where the length of the text overflows; the bound, which is this
/// library's own, keeps far below that.
#[verifier::external_body]
pub(crate) fn encode_base64(bytes: &[u8]) -> (r: String)
    requires
        bytes@.len() <= 0x1000_0000,
    ensures
        r@ == base64_text(bytes@),
        base64_bytes(r@) == Some(bytes@),
{
    base64::engine::general_purpose::STANDARD.encode(bytes)
}

/// The standard engine of `base64` decodes a text, or refuses it.
#[verifier::external_body]
pub(crate) fn decode_base64(text: &str) -> (r: Result<Vec<u8>, base64::DecodeError>)
    ensures
        match r {
            Ok(bytes) => base64_bytes(text@) == Some(bytes@),
            Err(_) => base64_bytes(text@) is None,
        },
{
    base64::engine::general_purpose::STANDARD.decode(text)
}

/// `aes_gcm::Aes256Gcm` decrypts a message with its tag behind it, or refuses
/// it. Key and nonce must have the lengths that the cipher takes.
#[verifier::external_body]
pub(crate) fn open_gcm(key: &[u8], nonce: &[u8], message: &[u8], associated: &[u8]) -> (r: Option<
    Vec<u8>,
>)
    requires
        key@.len() == 32,
        nonce@.len() == 12,
    ensures
        match r {
            Some(plain) => gcm_opened(key@, nonce@, message@, associated@) == Some(plain@),
            None => gcm_opened(key@, nonce@, message@, associated@) is None,
        },
{
    aes_gcm::Aes256Gcm::new_from_slice(key).expect("the key is 32 bytes long").decrypt(
        aes_gcm::Nonce::from_slice(nonce),
        Payload { msg: message, aad: associated },
    ).ok()
}

/// `SigningKey::from_pkcs8_der` reads a key from a PKCS#8 document, or refuses
/// it; the key's secret is 32 bytes long.
#[verifier::external_body]
pub(crate) fn read_pkcs8(document: &[u8]) -> (r: Option<Vec<u8>>)
    ensures
        match r {
            Some(secret) => pkcs8_secret(document@) == Some(secret@) && secret@.len() == 32,
            None => pkcs8_secret(document@) is None,
        },
{
    ed25519_dalek::SigningKey::from_pkcs8_der(document).ok().map(|key| key.to_bytes().to_vec())
}

/// `SigningKey::sign` signs a message; a signature is 64 bytes long.
#[verifier::external_body]
pub(crate) fn sign_message(secret: &[u8], message: &[u8]) -> (r: Vec<u8>)
    requires
        secret@.len() == 32,
    ensures
        r@ == ed25519_signature(secret@, message@),
        r@.len() == 64,
{
    let seed: [u8; 32] = secret.try_into().expect("the secret is 32 bytes long");
    ed25519_dalek::SigningKey::from_bytes(&seed).sign(message).to_bytes().to_vec()
}

/// `rand::thread_rng` fills bytes at random.
#[verifier::external_body]
pub(crate) fn random_bytes(count: usize) -> (r: Vec<u8>)
    requires
        count <= 64,
    ensures
        r@.len() == count,
{
    let mut buf = vec![0u8; count];
    rand::thread_rng().fill_bytes(&mut buf);
    buf
}

/// `subtle::ConstantTimeEq` tells whether two slices are equal.
#[verifier::external_body]
pub(crate) fn equal_slices(a: &[u8], b: &[u8]) -> (r: bool)
    ensures
        r == (a@ == b@),
{
    bool::from(a.ct_eq(b))
}

} // verus!
