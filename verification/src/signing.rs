//! Signed requests of the coding plan: an Ed25519 signature and a proof of work
//! go along with each. Whatever goes wrong, the request goes unsigned. Times are
//! in milliseconds.

use crate::crypto::{
    authenticate, decode_base64, derive_key, digest, encode_base64, equal_slices, open_gcm,
    random_bytes, read_pkcs8, sign_message,
};
use crate::json::{parse, text_or_blank, Json, Tree};
use crate::routing::{add_millis, base_url};
use crate::text::{
    add_pair, bytes_to_hex, concat, concat3, decimal_of, first_chars, has, hex_of_number, is_empty,
    lowered, same, split_at_first, trimmed, trimmed_end_char,
};
use crate::utf8::text_of_utf8;
use vstd::hash_map::StringHashMap;
use vstd::prelude::*;

verus! {

/// How long an answer of the switch is good for, in milliseconds.
pub const GATE_TTL_MS: u64 = 3_600_000;

/// How long the switch is left alone after it could not be reached, in
/// milliseconds.
pub const GATE_FAILURE_COOLDOWN_MS: u64 = 60_000;

/// How long the switch is left alone after an answer of no use, in milliseconds.
pub const GATE_UNAVAILABLE_COOLDOWN_MS: u64 = 30_000;

/// The zero bits that a proof of work begins with.
pub const POW_BITS: u32 = 8;

/// Whether two slices are equal, found out in a time that does not tell where
/// they differ.
pub fn ct_eq(a: &[u8], b: &[u8]) -> (r: bool)
    ensures
        r == (a@ == b@),
{
    a.len() == b.len() && equal_slices(a, b)
}

// ---------------------------------------------------------------------------
// Proof of work
// ---------------------------------------------------------------------------

/// The least byte that does not begin with so many zero bits.
pub open spec fn zero_bits_limit(bits: u32) -> int {
    if bits == 0 {
        256
    } else if bits == 1 {
        128
    } else if bits == 2 {
        64
    } else if bits == 3 {
        32
    } else if bits == 4 {
        16
    } else if bits == 5 {
        8
    } else if bits == 6 {
        4
    } else {
        2
    }
}

/// Whether bytes begin with so many zero bits. Whole bytes that are not there
/// count as zero, a part of one does not.
pub open spec fn zero_bits(bytes: Seq<u8>, bits: u32) -> bool {
    let full = bits as int / 8;
    let rest = (bits % 8) as u32;
    &&& forall|i: int| 0 <= i < full && i < bytes.len() ==> #[trigger] bytes[i] == 0
    &&& rest == 0 || (full < bytes.len() && bytes[full] < zero_bits_limit(rest))
}

/// Whether bytes begin with so many zero bits.
pub fn has_leading_zero_bits(bytes: &[u8], bits: u32) -> (r: bool)
    ensures
        r == zero_bits(bytes@, bits),
{
    let full: usize = (bits / 8) as usize;
    let mut i: usize = 0;
    while i < full && i < bytes.len()
        invariant
            i <= bytes@.len(),
            full == bits as int / 8,
            forall|k: int| 0 <= k < i ==> #[trigger] bytes@[k] == 0,
        decreases bytes@.len() - i,
    {
        if bytes[i] != 0 {
            return false;
        }
        i += 1;
    }
    let rest: u32 = bits % 8;
    if rest == 0 {
        return true;
    }
    if full >= bytes.len() {
        return false;
    }
    let b: u8 = bytes[full];
    match rest {
        1 => b < 128,
        2 => b < 64,
        3 => b < 32,
        4 => b < 16,
        5 => b < 8,
        6 => b < 4,
        _ => b < 2,
    }
}

/// The digest of a text.
pub open spec fn text_digest(s: Seq<char>) -> Seq<u8> {
    crate::crypto::sha256(vstd::utf8::encode_utf8(s))
}

/// The challenge of a proof of work: the first 32 hexadecimal digits of a
/// digest over key, session and time.
pub open spec fn pow_challenge(key_id: Seq<char>, session: Seq<char>, ts: Seq<char>) -> Seq<char> {
    crate::text::prefix(
        crate::text::hex(
            text_digest(key_id + "\n"@ + "zcode"@ + "\n"@ + session + "\n"@ + ts),
        ),
        32,
    )
}

/// An answer to try: a nonce with a counter in eight hexadecimal digits behind
/// it.
pub open spec fn pow_candidate(nonce: Seq<char>, counter: nat) -> Seq<char> {
    nonce + crate::text::hex_number(counter, 8)
}

/// Whether an answer solves a challenge.
pub open spec fn pow_solves(challenge: Seq<char>, answer: Seq<char>) -> bool {
    zero_bits(text_digest(challenge + "\n"@ + answer), POW_BITS)
}

/// Whether an answer is the first one with a nonce that solves a challenge,
/// counting up from zero.
pub open spec fn pow_first(challenge: Seq<char>, nonce: Seq<char>, answer: Seq<char>) -> bool {
    exists|n: nat|
        n <= u32::MAX && answer == #[trigger] pow_candidate(nonce, n) && pow_solves(
            challenge,
            answer,
        ) && forall|m: nat| m < n ==> !pow_solves(challenge, #[trigger] pow_candidate(nonce, m))
}

/// Whether an answer is a proof of work: the first one with a nonce of 12 bytes
/// in hexadecimal digits that solves the challenge.
pub open spec fn pow_proves(challenge: Seq<char>, answer: Seq<char>) -> bool {
    exists|nonce: Seq<u8>|
        nonce.len() == 12 && #[trigger] pow_first(challenge, crate::text::hex(nonce), answer)
}

/// Whether some nonce of 12 bytes leads to no answer to a challenge.
pub open spec fn pow_exhausted(challenge: Seq<char>) -> bool {
    exists|nonce: Seq<u8>|
        nonce.len() == 12 && #[trigger] pow_hopeless(challenge, crate::text::hex(nonce))
}

/// Whether no answer with a nonce solves a challenge.
pub open spec fn pow_hopeless(challenge: Seq<char>, nonce: Seq<char>) -> bool {
    forall|m: nat| m <= u32::MAX ==> !pow_solves(challenge, #[trigger] pow_candidate(nonce, m))
}

/// The digest of a text.
fn digest_text(s: &str) -> (r: Vec<u8>)
    ensures
        r@ == text_digest(s@),
        r@.len() == 32,
{
    digest(s.as_bytes())
}

/// The first answer that solves a challenge, counting up from zero.
pub fn solve_challenge(challenge: &str, nonce: &str) -> (r: Option<String>)
    ensures
        match r {
            Some(answer) => pow_first(challenge@, nonce@, answer@),
            None => pow_hopeless(challenge@, nonce@),
        },
{
    let mut counter: u32 = 0;
    loop
        invariant
            forall|m: nat|
                m < counter ==> !pow_solves(challenge@, #[trigger] pow_candidate(nonce@, m)),
        decreases u32::MAX - counter,
    {
        let digits = hex_of_number(counter, 8);
        let candidate = concat(nonce, digits.as_str());
        let text = concat3(challenge, "\n", candidate.as_str());
        let d: Vec<u8> = digest_text(text.as_str());
        if has_leading_zero_bits(d.as_slice(), POW_BITS) {
            assert(candidate@ == pow_candidate(nonce@, counter as nat));
            return Some(candidate);
        }
        if counter == u32::MAX {
            return None;
        }
        counter += 1;
    }
}

/// A random text of hexadecimal digits, two for each byte.
fn random_hex(byte_count: usize) -> (r: String)
    requires
        byte_count <= 64,
    ensures
        exists|bytes: Seq<u8>| bytes.len() == byte_count && r@ == #[trigger] crate::text::hex(bytes),
{
    let bytes: Vec<u8> = random_bytes(byte_count);
    bytes_to_hex(bytes.as_slice())
}

/// A proof of work over key, session and time. There is none only where no
/// answer with the nonce that was drawn solves the challenge.
pub fn create_proof_of_work(api_key_id: &str, session_id: &str, ts: &str) -> (r: Option<String>)
    ensures
        match r {
            Some(answer) => pow_proves(
                pow_challenge(api_key_id@, session_id@, ts@),
                answer@,
            ),
            None => pow_exhausted(pow_challenge(api_key_id@, session_id@, ts@)),
        },
{
    let a = concat3(api_key_id, "\n", "zcode");
    let b = concat3(a.as_str(), "\n", session_id);
    let c = concat3(b.as_str(), "\n", ts);
    let d: Vec<u8> = digest_text(c.as_str());
    let digits = bytes_to_hex(d.as_slice());
    let challenge = first_chars(digits.as_str(), 32);
    let nonce = random_hex(12);
    solve_challenge(challenge.as_str(), nonce.as_str())
}

// ---------------------------------------------------------------------------
// Credentials and paths
// ---------------------------------------------------------------------------

/// Key id and secret of a credential: two parts with one dot between them,
/// neither of them blank.
pub open spec fn credential_parts(credential: Seq<char>) -> Option<(Seq<char>, Seq<char>)> {
    match crate::text::split_once(credential, "."@) {
        None => None,
        Some(parts) => {
            let id = crate::text::trim(parts.0);
            let secret = crate::text::trim(parts.1);
            if crate::text::contains(parts.1, "."@) || id.len() == 0 || secret.len() == 0 {
                None
            } else {
                Some((id, secret))
            }
        },
    }
}

/// Key id and secret of a credential.
pub fn parse_signing_credential(credential: &str) -> (r: Option<(String, String)>)
    ensures
        match r {
            Some(parts) => credential_parts(credential@) == Some((parts.0@, parts.1@)),
            None => credential_parts(credential@) is None,
        },
{
    match split_at_first(credential, ".") {
        Some((id, secret)) => {
            if has(secret.as_str(), ".") {
                return None;
            }
            let id = trimmed(id.as_str());
            let secret = trimmed(secret.as_str());
            if is_empty(id.as_str()) || is_empty(secret.as_str()) {
                None
            } else {
                Some((id, secret))
            }
        },
        None => None,
    }
}

/// Whether requests to a path go unsigned.
pub open spec fn goes_unsigned(path: Seq<char>) -> bool {
    let bare = crate::text::trim_end_char(path, '/');
    bare == "/api/v1/zcode-plan/anthropic/v1/messages"@ || bare
        == "/api/v1/zcode-plan/chat/completions"@ || bare
        == "/api/v1/off-peak/anthropic/v1/messages"@
}

/// Whether requests to a path go unsigned.
pub fn is_unsigned_path(path: &str) -> (r: bool)
    ensures
        r == goes_unsigned(path@),
{
    let bare = trimmed_end_char(path, '/');
    same(bare.as_str(), "/api/v1/zcode-plan/anthropic/v1/messages") || same(
        bare.as_str(),
        "/api/v1/zcode-plan/chat/completions",
    ) || same(bare.as_str(), "/api/v1/off-peak/anthropic/v1/messages")
}

/// The value of the first header from `from` on with a name, whatever its case.
pub open spec fn header_from(
    pairs: Seq<(Seq<char>, Seq<char>)>,
    name: Seq<char>,
    from: int,
) -> Option<Seq<char>>
    decreases pairs.len() - from,
{
    if from < 0 || from >= pairs.len() {
        None
    } else if crate::text::lower(pairs[from].0) == crate::text::lower(name) {
        Some(pairs[from].1)
    } else {
        header_from(pairs, name, from + 1)
    }
}

/// The value of the first header with a name, whatever its case.
pub fn find_header(pairs: &Vec<(String, String)>, name: &str) -> (r: Option<String>)
    ensures
        crate::text::seen_string(r) == header_from(crate::text::pair_views(pairs@), name@, 0),
{
    let lower = lowered(name);
    let ghost all = crate::text::pair_views(pairs@);
    let mut i: usize = 0;
    while i < pairs.len()
        invariant
            i <= pairs@.len(),
            all == crate::text::pair_views(pairs@),
            lower@ == crate::text::lower(name@),
            header_from(all, name@, 0) == header_from(all, name@, i as int),
        decreases pairs@.len() - i,
    {
        assert(all[i as int] == (pairs@[i as int].0@, pairs@[i as int].1@));
        if same(lowered(pairs[i].0.as_str()).as_str(), lower.as_str()) {
            return Some(pairs[i].1.clone());
        }
        i += 1;
    }
    None
}

// ---------------------------------------------------------------------------
// Rejections
// ---------------------------------------------------------------------------

/// Whether a reason is one that says that the signature was not accepted.
pub open spec fn names_rejection(reason: Option<Seq<char>>) -> bool {
    reason == Some("VERIFY_SIGNATURE_INVALID"@) || reason == Some("VERIFY_APIKEY_EXPIRED"@)
}

/// Whether a body says that the signature was not accepted, at one of the
/// places where a reason may stand.
pub open spec fn rejects_signature(answer: Option<Tree>) -> bool {
    match answer {
        Some(t) => names_rejection(t.text_at("msg"@)) || names_rejection(t.text_at("reason"@))
            || names_rejection(t.text_in("data"@, "reason"@)) || names_rejection(
            t.text_in("error"@, "reason"@),
        ) || names_rejection(t.text_in("error"@, "message"@)),
        None => false,
    }
}

fn does_name_rejection(reason: Option<&str>) -> (r: bool)
    ensures
        r == names_rejection(crate::text::seen_str(reason)),
{
    crate::text::is_some_text(reason, "VERIFY_SIGNATURE_INVALID") || crate::text::is_some_text(
        reason,
        "VERIFY_APIKEY_EXPIRED",
    )
}

/// Whether a body says that the signature was not accepted.
pub fn is_rejection(answer: Option<&Json>) -> (r: bool)
    ensures
        r == rejects_signature(crate::json::seen(answer)),
{
    match answer {
        Some(t) => does_name_rejection(t.str_at("msg")) || does_name_rejection(t.str_at("reason"))
            || does_name_rejection(t.str_in("data", "reason")) || does_name_rejection(
            t.str_in("error", "reason"),
        ) || does_name_rejection(t.str_in("error", "message")),
        None => false,
    }
}

// ---------------------------------------------------------------------------
// Keys
// ---------------------------------------------------------------------------

/// Why a private key could not be had from the cipher text of a handshake.
#[derive(Debug, Clone, Copy, PartialEq, Eq, Structural)]
pub enum KeyError {
    /// The cipher text is no base64.
    NotBase64,
    /// The cipher text is shorter than nonce and tag.
    TooShort,
    /// The tag is wrong.
    Sealed,
    /// What it decrypts to is no text.
    NotText,
    /// What it decrypts to is no base64.
    InnerNotBase64,
    /// What it decrypts to is no key.
    NoKey,
}

/// The bytes of a text.
pub open spec fn text_bytes(s: Seq<char>) -> Seq<u8> {
    vstd::utf8::encode_utf8(s)
}

/// A key derived from a secret for a purpose.
pub open spec fn derived_key(secret: Seq<char>, purpose: Seq<char>) -> Seq<u8> {
    crate::crypto::hkdf_sha256(
        text_bytes("WD_CLIENT_SIGN_KDF_SALT"@),
        text_bytes(secret),
        text_bytes(purpose),
    )
}

/// The private key in the cipher text of a handshake: base64 of a nonce and an
/// AES-256-GCM message, whose plain text is the base64 of a PKCS#8 document.
pub open spec fn sealed_key(key_id: Seq<char>, secret: Seq<char>, cipher_text: Seq<char>) -> Result<
    Seq<u8>,
    KeyError,
> {
    match crate::crypto::base64_bytes(cipher_text) {
        None => Err(KeyError::NotBase64),
        Some(cipher) => if cipher.len() <= 28 {
            Err(KeyError::TooShort)
        } else {
            match crate::crypto::gcm_opened(
                derived_key(secret, "ed25519_priv"@),
                cipher.take(12),
                cipher.skip(12),
                text_bytes(key_id),
            ) {
                None => Err(KeyError::Sealed),
                Some(plain) => if !vstd::utf8::valid_utf8(plain) {
                    Err(KeyError::NotText)
                } else {
                    match crate::crypto::base64_bytes(
                        crate::text::trim(vstd::utf8::decode_utf8(plain)),
                    ) {
                        None => Err(KeyError::InnerNotBase64),
                        Some(document) => match crate::crypto::pkcs8_secret(document) {
                            None => Err(KeyError::NoKey),
                            Some(key) => Ok(key),
                        },
                    }
                },
            }
        },
    }
}

/// A key derived from a secret for a purpose.
fn hkdf_bytes(secret: &str, purpose: &str) -> (r: Vec<u8>)
    ensures
        r@ == derived_key(secret@, purpose@),
        r@.len() == 32,
{
    derive_key("WD_CLIENT_SIGN_KDF_SALT".as_bytes(), secret.as_bytes(), purpose.as_bytes())
}

/// A copy of the bytes from `from` up to `to`.
fn bytes_between(bytes: &Vec<u8>, from: usize, to: usize) -> (r: Vec<u8>)
    requires
        from <= to <= bytes@.len(),
    ensures
        r@ == bytes@.subrange(from as int, to as int),
{
    let mut out: Vec<u8> = Vec::new();
    let mut i: usize = from;
    while i < to
        invariant
            from <= i <= to <= bytes@.len(),
            out@ == bytes@.subrange(from as int, i as int),
        decreases to - i,
    {
        out.push(bytes[i]);
        assert(out@ =~= bytes@.subrange(from as int, i + 1));
        i += 1;
    }
    out
}

/// The private key in the cipher text of a handshake.
pub fn decrypt_signing_private_key(api_key_id: &str, secret: &str, private_cipher: &str) -> (r:
    Result<Vec<u8>, KeyError>)
    ensures
        match r {
            Ok(key) => sealed_key(api_key_id@, secret@, private_cipher@) == Ok::<Seq<u8>, KeyError>(
                key@,
            ) && key@.len() == 32,
            Err(e) => sealed_key(api_key_id@, secret@, private_cipher@) == Err::<Seq<u8>, KeyError>(
                e,
            ),
        },
{
    let cipher: Vec<u8> = match decode_base64(private_cipher) {
        Ok(cipher) => cipher,
        Err(_) => {
            return Err(KeyError::NotBase64);
        },
    };
    if cipher.len() <= 28 {
        return Err(KeyError::TooShort);
    }
    let key: Vec<u8> = hkdf_bytes(secret, "ed25519_priv");
    let nonce: Vec<u8> = bytes_between(&cipher, 0, 12);
    let message: Vec<u8> = bytes_between(&cipher, 12, cipher.len());
    assert(nonce@ =~= cipher@.take(12));
    assert(message@ =~= cipher@.skip(12));
    let plain: Vec<u8> = match open_gcm(
        key.as_slice(),
        nonce.as_slice(),
        message.as_slice(),
        api_key_id.as_bytes(),
    ) {
        Some(plain) => plain,
        None => {
            return Err(KeyError::Sealed);
        },
    };
    let text = match text_of_utf8(&plain) {
        Some(text) => text,
        None => {
            return Err(KeyError::NotText);
        },
    };
    let inner = trimmed(text.as_str());
    let document: Vec<u8> = match decode_base64(inner.as_str()) {
        Ok(document) => document,
        Err(_) => {
            return Err(KeyError::InnerNotBase64);
        },
    };
    match read_pkcs8(document.as_slice()) {
        Some(key) => Ok(key),
        None => Err(KeyError::NoKey),
    }
}

// ---------------------------------------------------------------------------
// The handshake
// ---------------------------------------------------------------------------

/// The request that asks for a private key.
pub struct HandshakeRequest {
    pub url: String,
    pub authorization: String,
    pub body: String,
}

/// What the request for a private key is signed over.
pub open spec fn handshake_message(key_id: Seq<char>, ts: Seq<char>, nonce: Seq<char>) -> Seq<char> {
    "get_sign_key"@ + "\n"@ + key_id + "\n"@ + ts + "\n"@ + nonce
}

/// The signature of the request for a private key.
pub open spec fn handshake_signature(
    key_id: Seq<char>,
    secret: Seq<char>,
    ts: Seq<char>,
    nonce: Seq<char>,
) -> Seq<char> {
    crate::crypto::base64_text(
        crate::crypto::hmac_sha256(
            derived_key(secret, "getSignKey_hmac"@),
            text_bytes(handshake_message(key_id, ts, nonce)),
        ),
    )
}

/// The body of the request for a private key.
pub open spec fn handshake_tree(
    key_id: Seq<char>,
    secret: Seq<char>,
    ts: Seq<char>,
    nonce: Seq<char>,
) -> Tree {
    crate::json::empty_tree().with("apiKey"@, Tree::Text(key_id + "."@ + secret)).with(
        "nonce"@,
        Tree::Text(nonce),
    ).with("sig"@, Tree::Text(handshake_signature(key_id, secret, ts, nonce))).with(
        "ts"@,
        Tree::Text(ts),
    )
}

/// Lines with line feeds between them.
fn join_lines(a: &str, b: &str, c: &str, d: &str) -> (r: String)
    ensures
        r@ == a@ + "\n"@ + b@ + "\n"@ + c@ + "\n"@ + d@,
{
    let x = concat3(a, "\n", b);
    let y = concat3(x.as_str(), "\n", c);
    concat3(y.as_str(), "\n", d)
}

/// The request that asks for a private key, with a given time and nonce.
pub fn handshake_request_with(
    api_key_id: &str,
    secret: &str,
    origin: &str,
    ts: &str,
    nonce: &str,
) -> (r: HandshakeRequest)
    ensures
        r.url@ == origin@ + "/api/paas/c1f3a7e2/v2/client"@,
        r.authorization@ == api_key_id@ + "."@ + secret@,
        r.body@ == crate::json::rendered(handshake_tree(api_key_id@, secret@, ts@, nonce@)),
{
    let key: Vec<u8> = hkdf_bytes(secret, "getSignKey_hmac");
    let message = join_lines("get_sign_key", api_key_id, ts, nonce);
    let mac: Vec<u8> = authenticate(key.as_slice(), message.as_str().as_bytes());
    let sig = encode_base64(mac.as_slice());
    let authorization = concat3(api_key_id, ".", secret);
    let body = Json::object().with("apiKey", Json::text(authorization.as_str())).with(
        "nonce",
        Json::text(nonce),
    ).with("sig", Json::Text(sig)).with("ts", Json::text(ts));
    HandshakeRequest {
        url: concat(origin, "/api/paas/c1f3a7e2/v2/client"),
        authorization,
        body: body.render(),
    }
}

/// Why a handshake gave no key.
#[derive(Debug)]
pub enum HandshakeError {
    /// The status was not that of success.
    Http(u16),
    /// The answer is no JSON.
    NotJson,
    /// The upstream failed.
    Server,
    /// The upstream refused, with the reason that it gave.
    Rejected(String),
    /// The answer holds no key.
    NoCipher,
    /// The key could not be had.
    Key(KeyError),
}

/// What a handshake gives.
pub ghost enum HandshakeOutcome {
    Key(Seq<u8>),
    Http(u16),
    NotJson,
    Server,
    Rejected(Seq<char>),
    NoCipher,
    BadKey(KeyError),
}

/// What a handshake gives for an answer of the upstream.
pub open spec fn handshake_outcome(
    key_id: Seq<char>,
    secret: Seq<char>,
    status: u16,
    answer: Option<Tree>,
) -> HandshakeOutcome {
    if status != 200 {
        HandshakeOutcome::Http(status)
    } else {
        match answer {
            None => HandshakeOutcome::NotJson,
            Some(t) => {
                let code = match t.signed_at("code"@) {
                    Some(code) => code,
                    None => 0,
                };
                if code == 500 {
                    HandshakeOutcome::Server
                } else if code != 200 {
                    HandshakeOutcome::Rejected(
                        match t.text_at("msg"@) {
                            Some(msg) => msg,
                            None => "?"@,
                        },
                    )
                } else {
                    let cipher = crate::json::or_blank(t.text_in("data"@, "privateCipher"@));
                    if cipher.len() == 0 {
                        HandshakeOutcome::NoCipher
                    } else {
                        match sealed_key(key_id, secret, cipher) {
                            Ok(key) => HandshakeOutcome::Key(key),
                            Err(e) => HandshakeOutcome::BadKey(e),
                        }
                    }
                }
            },
        }
    }
}

/// Whether a result is what a handshake gives.
pub open spec fn is_outcome(r: Result<Vec<u8>, HandshakeError>, outcome: HandshakeOutcome) -> bool {
    match (r, outcome) {
        (Ok(key), HandshakeOutcome::Key(want)) => key@ == want,
        (Err(HandshakeError::Http(status)), HandshakeOutcome::Http(want)) => status == want,
        (Err(HandshakeError::NotJson), HandshakeOutcome::NotJson) => true,
        (Err(HandshakeError::Server), HandshakeOutcome::Server) => true,
        (Err(HandshakeError::Rejected(msg)), HandshakeOutcome::Rejected(want)) => msg@ == want,
        (Err(HandshakeError::NoCipher), HandshakeOutcome::NoCipher) => true,
        (Err(HandshakeError::Key(e)), HandshakeOutcome::BadKey(want)) => e == want,
        _ => false,
    }
}

/// The private key that an answer to a handshake holds.
pub fn read_handshake(
    api_key_id: &str,
    secret: &str,
    status: u16,
    answer: Option<&Json>,
) -> (r: Result<Vec<u8>, HandshakeError>)
    ensures
        is_outcome(
            r,
            handshake_outcome(api_key_id@, secret@, status, crate::json::seen(answer)),
        ),
        r matches Ok(key) ==> key@.len() == 32,
{
    if status != 200 {
        return Err(HandshakeError::Http(status));
    }
    let t = match answer {
        Some(t) => t,
        None => {
            return Err(HandshakeError::NotJson);
        },
    };
    let code: i64 = match t.i64_at("code") {
        Some(code) => code,
        None => 0,
    };
    if code == 500 {
        return Err(HandshakeError::Server);
    }
    if code != 200 {
        return Err(
            HandshakeError::Rejected(
                match t.str_at("msg") {
                    Some(msg) => msg.to_owned(),
                    None => "?".to_owned(),
                },
            ),
        );
    }
    let cipher = text_or_blank(t.str_in("data", "privateCipher"));
    if is_empty(cipher.as_str()) {
        return Err(HandshakeError::NoCipher);
    }
    match decrypt_signing_private_key(api_key_id, secret, cipher.as_str()) {
        Ok(key) => Ok(key),
        Err(e) => Err(HandshakeError::Key(e)),
    }
}

// ---------------------------------------------------------------------------
// The switch
// ---------------------------------------------------------------------------

/// What the switch says of signing.
#[derive(Debug, Clone, Copy, PartialEq, Eq, Structural)]
pub enum GateOutcome {
    Enabled,
    Disabled,
    Unavailable,
    NetworkFail,
}

/// What an answer of the switch says, given whether it came with a status of
/// success. An answer that does not speak of signing says no.
pub open spec fn gate_says(success: bool, answer: Option<Tree>) -> GateOutcome {
    match answer {
        Some(t) => if !success || t.signed_at("code"@) != Some(0i64) {
            GateOutcome::Unavailable
        } else {
            match t.field_in("data"@, "codingPlanSignature"@) {
                Some(plan) => if plan.flag_at("enable"@) == Some(true) {
                    GateOutcome::Enabled
                } else {
                    GateOutcome::Disabled
                },
                None => GateOutcome::Disabled,
            }
        },
        None => GateOutcome::Unavailable,
    }
}

/// What an answer of the switch says.
pub fn read_gate(success: bool, answer: Option<&Json>) -> (r: GateOutcome)
    ensures
        r == gate_says(success, crate::json::seen(answer)),
{
    match answer {
        Some(t) => {
            if !success {
                return GateOutcome::Unavailable;
            }
            match t.i64_at("code") {
                Some(code) => {
                    if code != 0 {
                        return GateOutcome::Unavailable;
                    }
                },
                None => {
                    return GateOutcome::Unavailable;
                },
            }
            match t.get_in("data", "codingPlanSignature") {
                Some(plan) => match plan.bool_at("enable") {
                    Some(on) => if on {
                        GateOutcome::Enabled
                    } else {
                        GateOutcome::Disabled
                    },
                    None => GateOutcome::Disabled,
                },
                None => GateOutcome::Disabled,
            }
        },
        None => GateOutcome::Unavailable,
    }
}

// ---------------------------------------------------------------------------
// Signed headers
// ---------------------------------------------------------------------------

/// Whether a header is one of those that signing sets itself.
pub open spec fn is_signing_header(name: Seq<char>) -> bool {
    let lower = crate::text::lower(name);
    ||| lower == "x-client-ts"@
    ||| lower == "x-client-version"@
    ||| lower == "x-client-sig"@
    ||| lower == "x-client-nonce"@
    ||| lower == "x-app-id"@
    ||| lower == "x-client-pow"@
    ||| lower == "x-client-sign-verified"@
    ||| lower == "x-session-id"@
}

/// The headers without those that signing sets itself.
pub open spec fn cleaned(pairs: Seq<(Seq<char>, Seq<char>)>) -> Seq<(Seq<char>, Seq<char>)>
    decreases pairs.len(),
{
    if pairs.len() == 0 {
        Seq::empty()
    } else if is_signing_header(pairs.last().0) {
        cleaned(pairs.drop_last())
    } else {
        cleaned(pairs.drop_last()).push(pairs.last())
    }
}

/// What a request is signed over.
pub open spec fn signed_message(
    key_id: Seq<char>,
    ts: Seq<char>,
    version: Seq<char>,
    session: Seq<char>,
    nonce: Seq<char>,
) -> Seq<char> {
    key_id + "\n"@ + ts + "\n"@ + version + "\n"@ + session + "\n"@ + nonce
}

/// The headers that signing sets.
pub open spec fn signature_pairs(
    job: JobRow,
    key: Seq<u8>,
    version: Seq<char>,
    ts: Seq<char>,
    nonce: Seq<char>,
    pow: Seq<char>,
) -> Seq<(Seq<char>, Seq<char>)> {
    seq![
        ("X-Client-Ts"@, ts),
        ("X-Client-Version"@, version),
        (
            "X-Client-Sig"@,
            crate::crypto::base64_text(
                crate::crypto::ed25519_signature(
                    key,
                    text_bytes(signed_message(job.key_id, ts, version, job.session, nonce)),
                ),
            ),
        ),
        ("X-Session-Id"@, job.session),
        ("X-Client-Nonce"@, nonce),
        ("X-App-Id"@, "zcode"@),
        ("X-Client-Pow"@, pow),
    ]
}

/// What signing a request needs to know of it.
pub struct SignJob {
    pub state_key: String,
    pub origin: String,
    pub key_id: String,
    pub secret: String,
    pub session: String,
}

/// What signing a request needs to know of it, as characters.
pub ghost struct JobRow {
    pub state_key: Seq<char>,
    pub origin: Seq<char>,
    pub key_id: Seq<char>,
    pub secret: Seq<char>,
    pub session: Seq<char>,
}

impl View for SignJob {
    type V = JobRow;

    open spec fn view(&self) -> JobRow {
        JobRow {
            state_key: self.state_key@,
            origin: self.origin@,
            key_id: self.key_id@,
            secret: self.secret@,
            session: self.session@,
        }
    }
}

/// Under which name what is known of an origin and a credential is kept.
pub open spec fn state_key_of(origin: Seq<char>, credential: Seq<char>) -> Seq<char> {
    origin + "\n"@ + credential
}

/// What signing needs to know of a request that can be signed: one to an HTTPS
/// address that is signed, with a credential of two parts, a session, and no
/// signature yet.
pub open spec fn signable(
    url: Seq<char>,
    pairs: Seq<(Seq<char>, Seq<char>)>,
    credential: Seq<char>,
) -> Option<JobRow> {
    match crate::url::parsed_url(url) {
        None => None,
        Some(p) => if p.scheme != "https"@ || goes_unsigned(p.path) || header_from(
            pairs,
            "x-client-sig"@,
            0,
        ) is Some {
            None
        } else {
            match (credential_parts(credential), header_from(pairs, "x-session-id"@, 0)) {
                (Some(parts), Some(session)) => if crate::text::trim(session).len() == 0 {
                    None
                } else {
                    Some(
                        JobRow {
                            state_key: state_key_of(p.origin, credential),
                            origin: p.origin,
                            key_id: parts.0,
                            secret: parts.1,
                            session: crate::text::trim(session),
                        },
                    )
                },
                _ => None,
            }
        },
    }
}

/// Headers after a signing pass, and whether they are signed.
pub struct SignOutcome {
    pub pairs: Vec<(String, String)>,
    pub signed: bool,
}

fn does_sign(name: &str) -> (r: bool)
    ensures
        r == is_signing_header(name@),
{
    let lower = lowered(name);
    let l = lower.as_str();
    same(l, "x-client-ts") || same(l, "x-client-version") || same(l, "x-client-sig") || same(
        l,
        "x-client-nonce",
    ) || same(l, "x-app-id") || same(l, "x-client-pow") || same(l, "x-client-sign-verified")
        || same(l, "x-session-id")
}

/// The headers without those that signing sets itself.
fn clean_pairs(pairs: &Vec<(String, String)>) -> (r: Vec<(String, String)>)
    ensures
        crate::text::pair_views(r@) == cleaned(crate::text::pair_views(pairs@)),
{
    let ghost all = crate::text::pair_views(pairs@);
    let mut out: Vec<(String, String)> = Vec::new();
    let mut i: usize = 0;
    assert(crate::text::pair_views(out@) =~= cleaned(all.take(0)));
    while i < pairs.len()
        invariant
            i <= pairs@.len(),
            all == crate::text::pair_views(pairs@),
            crate::text::pair_views(out@) == cleaned(all.take(i as int)),
        decreases pairs@.len() - i,
    {
        assert(all.take(i + 1).drop_last() =~= all.take(i as int));
        assert(all.take(i + 1).last() == (pairs@[i as int].0@, pairs@[i as int].1@));
        let ghost before = crate::text::pair_views(out@);
        if !does_sign(pairs[i].0.as_str()) {
            add_pair(&mut out, pairs[i].0.as_str(), pairs[i].1.as_str());
            assert(crate::text::pair_views(out@) =~= before.push(all[i as int]));
        }
        i += 1;
    }
    assert(all.take(pairs@.len() as int) =~= all);
    out
}

/// Signs the headers of a request with a given time, nonce and proof of work.
pub fn sign_with(
    pairs: &Vec<(String, String)>,
    job: &SignJob,
    key: &Vec<u8>,
    app_version: &str,
    ts: &str,
    nonce: &str,
    pow: &str,
) -> (r: SignOutcome)
    requires
        key@.len() == 32,
    ensures
        r.signed,
        crate::text::pair_views(r.pairs@) == cleaned(crate::text::pair_views(pairs@))
            + signature_pairs(job@, key@, app_version@, ts@, nonce@, pow@),
{
    let front = join_lines(job.key_id.as_str(), ts, app_version, job.session.as_str());
    let message = concat3(front.as_str(), "\n", nonce);
    let signature: Vec<u8> = sign_message(key.as_slice(), message.as_str().as_bytes());
    let sig = encode_base64(signature.as_slice());
    let mut out: Vec<(String, String)> = clean_pairs(pairs);
    add_pair(&mut out, "X-Client-Ts", ts);
    add_pair(&mut out, "X-Client-Version", app_version);
    add_pair(&mut out, "X-Client-Sig", sig.as_str());
    add_pair(&mut out, "X-Session-Id", job.session.as_str());
    add_pair(&mut out, "X-Client-Nonce", nonce);
    add_pair(&mut out, "X-App-Id", "zcode");
    add_pair(&mut out, "X-Client-Pow", pow);
    assert(crate::text::pair_views(out@) =~= cleaned(crate::text::pair_views(pairs@))
        + signature_pairs(job@, key@, app_version@, ts@, nonce@, pow@));
    SignOutcome { pairs: out, signed: true }
}

/// Signs the headers of a request at a time. Where no proof of work could be
/// found the request goes unsigned.
pub fn sign_at(
    pairs: Vec<(String, String)>,
    job: &SignJob,
    key: &Vec<u8>,
    app_version: &str,
    now: u64,
) -> (r: SignOutcome)
    requires
        key@.len() == 32,
    ensures
        !r.signed ==> r.pairs == pairs && pow_exhausted(
            pow_challenge(job@.key_id, job@.session, crate::text::decimal(now as nat)),
        ),
        r.signed ==> is_signed(
            crate::text::pair_views(r.pairs@),
            crate::text::pair_views(pairs@),
            job@,
            key@,
            app_version@,
            now,
        ),
{
    let ts = decimal_of(now as u128);
    let nonce = random_hex(16);
    match create_proof_of_work(job.key_id.as_str(), job.session.as_str(), ts.as_str()) {
        Some(pow) => {
            let ghost bytes = choose|bytes: Seq<u8>|
                bytes.len() == 16 && nonce@ == #[trigger] crate::text::hex(bytes);
            let r = sign_with(
                &pairs,
                job,
                key,
                app_version,
                ts.as_str(),
                nonce.as_str(),
                pow.as_str(),
            );
            assert(bytes.len() == 16 && crate::text::pair_views(r.pairs@) == cleaned(
                crate::text::pair_views(pairs@),
            ) + signature_pairs(
                job@,
                key@,
                app_version@,
                crate::text::decimal(now as nat),
                crate::text::hex(bytes),
                pow@,
            ));
            r
        },
        None => SignOutcome { pairs, signed: false },
    }
}

// ---------------------------------------------------------------------------
// The manager
// ---------------------------------------------------------------------------

/// What is known of signing for an origin and a credential.
struct SignerState {
    gate_enabled: bool,
    gate_expires_at: u64,
    gate_neg_until: u64,
    priv_key: Option<Vec<u8>>,
    bypass: bool,
}

/// What is known of signing for an origin and a credential: whether the switch
/// said yes, until when that holds, until when it is left alone, the private
/// key, and whether signing was given up.
pub ghost struct SignerRow {
    pub gate_enabled: bool,
    pub gate_expires_at: u64,
    pub gate_neg_until: u64,
    pub key: Option<Seq<u8>>,
    pub bypass: bool,
}

/// Nothing known.
pub open spec fn no_signer() -> SignerRow {
    SignerRow {
        gate_enabled: false,
        gate_expires_at: 0,
        gate_neg_until: 0,
        key: None,
        bypass: false,
    }
}

/// A key that may be missing, as a sequence.
spec fn seen_key(key: Option<Vec<u8>>) -> Option<Seq<u8>> {
    match key {
        Some(key) => Some(key@),
        None => None,
    }
}

/// What is known, with the key as a sequence.
spec fn signer_row(s: SignerState) -> SignerRow {
    SignerRow {
        gate_enabled: s.gate_enabled,
        gate_expires_at: s.gate_expires_at,
        gate_neg_until: s.gate_neg_until,
        key: seen_key(s.priv_key),
        bypass: s.bypass,
    }
}

/// How far signing for an origin and a credential has come.
pub ghost enum Stage {
    /// Requests go unsigned.
    Closed,
    /// The switch must be asked.
    Unknown,
    /// A private key must be asked for.
    Keyless,
    /// Requests can be signed.
    Ready(Seq<u8>),
}

/// How far signing has come at a time.
pub open spec fn stage(row: SignerRow, now: u64) -> Stage {
    if row.bypass {
        Stage::Closed
    } else if row.gate_expires_at > now {
        if row.gate_enabled {
            match row.key {
                Some(key) => Stage::Ready(key),
                None => Stage::Keyless,
            }
        } else {
            Stage::Closed
        }
    } else if row.gate_neg_until > now {
        Stage::Closed
    } else {
        Stage::Unknown
    }
}

/// What is known after an answer of the switch: a yes or a no holds for long, and
/// after anything else the switch is left alone for a while.
pub open spec fn after_gate(row: SignerRow, outcome: GateOutcome, now: u64) -> SignerRow {
    match outcome {
        GateOutcome::Enabled | GateOutcome::Disabled => SignerRow {
            gate_enabled: outcome == GateOutcome::Enabled,
            gate_expires_at: crate::pool::later(now, GATE_TTL_MS as int),
            gate_neg_until: now,
            ..row
        },
        GateOutcome::NetworkFail => SignerRow {
            gate_enabled: false,
            gate_neg_until: crate::pool::later(now, GATE_FAILURE_COOLDOWN_MS as int),
            ..row
        },
        GateOutcome::Unavailable => SignerRow {
            gate_enabled: false,
            gate_neg_until: crate::pool::later(now, GATE_UNAVAILABLE_COOLDOWN_MS as int),
            ..row
        },
    }
}

/// What a signing pass does next.
pub enum SignStep {
    /// It is done.
    Done(SignOutcome),
    /// The switch must be asked.
    Probe(SignJob),
    /// A private key must be asked for.
    Handshake(SignJob),
}

/// How far a signing pass has come: when it began, whether it asked the switch
/// and whether it asked for a key, and whether one of them failed.
pub ghost struct PassRow {
    pub began: u64,
    pub asked: bool,
    pub keyed: bool,
    pub failed: bool,
}

/// What a signing pass does at a stage.
pub ghost enum Move {
    /// It ends, and the request goes unsigned.
    Stop,
    /// It asks the switch.
    AskSwitch,
    /// It asks for a private key.
    AskKey,
    /// It signs with a key.
    Sign(Seq<u8>),
}

/// What a signing pass does at a stage: after a failure it ends, and it asks for
/// nothing twice.
pub open spec fn next_move(pass: PassRow, reached: Stage) -> Move {
    if pass.failed {
        Move::Stop
    } else {
        match reached {
            Stage::Closed => Move::Stop,
            Stage::Unknown => if pass.asked {
                Move::Stop
            } else {
                Move::AskSwitch
            },
            Stage::Keyless => if pass.keyed {
                Move::Stop
            } else {
                Move::AskKey
            },
            Stage::Ready(key) => Move::Sign(key),
        }
    }
}

/// A signing pass after a move.
pub open spec fn moved(pass: PassRow, m: Move) -> PassRow {
    PassRow {
        asked: pass.asked || m is AskSwitch,
        keyed: pass.keyed || m is AskKey,
        ..pass
    }
}

/// A signing pass after it heard whether what it asked for went well.
pub open spec fn told(pass: PassRow, ok: bool) -> PassRow {
    PassRow { failed: pass.failed || !ok, ..pass }
}

/// Whether headers are those of a request signed at a time.
pub open spec fn is_signed(
    out: Seq<(Seq<char>, Seq<char>)>,
    pairs: Seq<(Seq<char>, Seq<char>)>,
    job: JobRow,
    key: Seq<u8>,
    version: Seq<char>,
    now: u64,
) -> bool {
    exists|nonce: Seq<u8>, pow: Seq<char>|
        nonce.len() == 16 && pow_proves(
            pow_challenge(job.key_id, job.session, crate::text::decimal(now as nat)),
            pow,
        ) && out == cleaned(pairs) + #[trigger] signature_pairs(
            job,
            key,
            version,
            crate::text::decimal(now as nat),
            crate::text::hex(nonce),
            pow,
        )
}

/// Signs requests, and keeps what is known of signing.
pub struct SigningManager {
    gate_url: String,
    identity_headers: Vec<(String, String)>,
    states: StringHashMap<SignerState>,
}

impl SigningManager {
    /// What is known of signing under a name.
    pub closed spec fn row(&self, state_key: Seq<char>) -> SignerRow {
        if self.states@.contains_key(state_key) {
            signer_row(self.states@[state_key])
        } else {
            no_signer()
        }
    }

    /// Where the switch is asked.
    pub closed spec fn gate(&self) -> Seq<char> {
        self.gate_url@
    }

    /// The headers that name the client to the switch.
    pub closed spec fn identity(&self) -> Seq<(Seq<char>, Seq<char>)> {
        crate::text::pair_views(self.identity_headers@)
    }

    /// Every key that is kept has the length of a key.
    pub open spec fn wf(&self) -> bool {
        forall|k: Seq<char>| (#[trigger] self.row(k)).key matches Some(key) ==> key.len() == 32
    }

    /// Whether nothing but what is known under one name differs.
    pub open spec fn differs_at(&self, other: &Self, state_key: Seq<char>) -> bool {
        &&& self.gate() == other.gate()
        &&& self.identity() == other.identity()
        &&& forall|k: Seq<char>| k != state_key ==> #[trigger] self.row(k) == other.row(k)
    }

    /// A manager that knows nothing.
    pub fn new(origin: Option<&str>, identity_headers: Vec<(String, String)>) -> (r: Self)
        ensures
            r.wf(),
            forall|k: Seq<char>| #[trigger] r.row(k) == no_signer(),
            r.gate() == crate::routing::base_of(crate::text::seen_str(origin))
                + "/api/v1/agent/configs"@,
            r.identity() == crate::text::pair_views(identity_headers@),
    {
        let base = base_url(origin);
        SigningManager {
            gate_url: concat(base.as_str(), "/api/v1/agent/configs"),
            identity_headers,
            states: StringHashMap::new(),
        }
    }

    /// Where the switch is asked.
    pub fn gate_url(&self) -> (r: String)
        ensures
            r@ == self.gate(),
    {
        self.gate_url.clone()
    }

    /// The headers of a request to the switch.
    pub fn gate_headers(&self, credential: &str) -> (r: Vec<(String, String)>)
        ensures
            crate::text::pair_views(r@) == self.identity() + seq![("x-api-key"@, credential@)],
    {
        let mut h: Vec<(String, String)> = crate::text::copy_pairs(&self.identity_headers);
        add_pair(&mut h, "x-api-key", credential);
        h
    }

    /// A copy of what is known under a name.
    fn state_for(&self, state_key: &str) -> (r: SignerState)
        ensures
            signer_row(r) == self.row(state_key@),
    {
        match self.states.get(state_key) {
            Some(s) => SignerState {
                gate_enabled: s.gate_enabled,
                gate_expires_at: s.gate_expires_at,
                gate_neg_until: s.gate_neg_until,
                priv_key: match &s.priv_key {
                    Some(key) => {
                        let copy: Vec<u8> = bytes_between(key, 0, key.len());
                        assert(copy@ =~= key@);
                        Some(copy)
                    },
                    None => None,
                },
                bypass: s.bypass,
            },
            None => SignerState {
                gate_enabled: false,
                gate_expires_at: 0,
                gate_neg_until: 0,
                priv_key: None,
                bypass: false,
            },
        }
    }

    /// Keeps what is known under a name.
    fn update_state(&mut self, state_key: &str, state: SignerState)
        ensures
            final(self).row(state_key@) == signer_row(state),
            final(self).differs_at(old(self), state_key@),
    {
        self.states.insert(state_key.to_owned(), state);
    }

    /// What signing needs to know of a request that can be signed.
    fn job_for(&self, url: &str, pairs: &Vec<(String, String)>, credential: &str) -> (r: Option<
        SignJob,
    >)
        ensures
            match r {
                Some(job) => signable(url@, crate::text::pair_views(pairs@), credential@) == Some(
                    job@,
                ),
                None => signable(url@, crate::text::pair_views(pairs@), credential@) is None,
            },
    {
        let parsed = match crate::url::parse(url) {
            Ok(parsed) => parsed,
            Err(_) => {
                return None;
            },
        };
        if !same(parsed.scheme.as_str(), "https") || is_unsigned_path(parsed.path.as_str()) {
            return None;
        }
        if find_header(pairs, "x-client-sig").is_some() {
            return None;
        }
        let (key_id, secret) = match parse_signing_credential(credential) {
            Some(parts) => parts,
            None => {
                return None;
            },
        };
        match find_header(pairs, "x-session-id") {
            Some(session) => {
                let session = trimmed(session.as_str());
                if is_empty(session.as_str()) {
                    return None;
                }
                Some(
                    SignJob {
                        state_key: concat3(parsed.origin.as_str(), "\n", credential),
                        origin: parsed.origin,
                        key_id,
                        secret,
                        session,
                    },
                )
            },
            None => None,
        }
    }

    /// One step of a signing pass at a time, for a request that is sent at a
    /// given time of day. It gives the headers back unchanged where signing does
    /// not apply; it says what must be asked for where that is not known; and it
    /// signs where everything is at hand.
    pub fn sign(
        &self,
        url: &str,
        pairs: &Vec<(String, String)>,
        credential: &str,
        app_version: &str,
        now: u64,
        sent_at: u64,
    ) -> (r: SignStep)
        requires
            self.wf(),
        ensures
            ({
                let given = crate::text::pair_views(pairs@);
                let job = signable(url@, given, credential@);
                let reached = match job {
                    Some(job) => stage(self.row(job.state_key), now),
                    None => Stage::Closed,
                };
                match r {
                    SignStep::Done(out) => {
                        &&& reached is Closed || reached is Ready
                        &&& reached is Closed ==> !out.signed
                        &&& !out.signed ==> crate::text::pair_views(out.pairs@) == given
                        &&& !out.signed && reached is Ready ==> pow_exhausted(
                            pow_challenge(
                                job->0.key_id,
                                job->0.session,
                                crate::text::decimal(sent_at as nat),
                            ),
                        )
                        &&& out.signed ==> is_signed(
                            crate::text::pair_views(out.pairs@),
                            given,
                            job->0,
                            reached->Ready_0,
                            app_version@,
                            sent_at,
                        )
                    },
                    SignStep::Probe(j) => job == Some(j@) && reached is Unknown,
                    SignStep::Handshake(j) => job == Some(j@) && reached is Keyless,
                }
            }),
    {
        let job = match self.job_for(url, pairs, credential) {
            Some(job) => job,
            None => {
                return SignStep::Done(
                    SignOutcome { pairs: crate::text::copy_pairs(pairs), signed: false },
                );
            },
        };
        let state = self.state_for(job.state_key.as_str());
        if state.bypass {
            return SignStep::Done(
                SignOutcome { pairs: crate::text::copy_pairs(pairs), signed: false },
            );
        }
        if state.gate_expires_at > now {
            if !state.gate_enabled {
                return SignStep::Done(
                    SignOutcome { pairs: crate::text::copy_pairs(pairs), signed: false },
                );
            }
        } else if state.gate_neg_until > now {
            return SignStep::Done(
                SignOutcome { pairs: crate::text::copy_pairs(pairs), signed: false },
            );
        } else {
            return SignStep::Probe(job);
        }
        match state.priv_key {
            Some(key) => {
                assert(self.row(job.state_key@).key == Some(key@));
                let copy: Vec<(String, String)> = crate::text::copy_pairs(pairs);
                let out = sign_at(copy, &job, &key, app_version, sent_at);
                SignStep::Done(out)
            },
            None => SignStep::Handshake(job),
        }
    }

    /// Takes an answer of the switch in.
    pub fn gate_answered(&mut self, state_key: &str, outcome: GateOutcome, now: u64)
        requires
            old(self).wf(),
        ensures
            final(self).wf(),
            final(self).row(state_key@) == after_gate(old(self).row(state_key@), outcome, now),
            final(self).differs_at(old(self), state_key@),
    {
        let mut state = self.state_for(state_key);
        state.gate_enabled = matches!(outcome, GateOutcome::Enabled);
        match outcome {
            GateOutcome::Enabled | GateOutcome::Disabled => {
                state.gate_expires_at = add_millis(now, GATE_TTL_MS);
                state.gate_neg_until = now;
            },
            GateOutcome::NetworkFail => {
                state.gate_neg_until = add_millis(now, GATE_FAILURE_COOLDOWN_MS);
            },
            GateOutcome::Unavailable => {
                state.gate_neg_until = add_millis(now, GATE_UNAVAILABLE_COOLDOWN_MS);
            },
        }
        self.update_state(state_key, state);
    }

    /// The request that asks for a private key at a time.
    pub fn handshake_request(&self, job: &SignJob, now: u64) -> (r: HandshakeRequest)
        ensures
            r.url@ == job@.origin + "/api/paas/c1f3a7e2/v2/client"@,
            r.authorization@ == job@.key_id + "."@ + job@.secret,
            exists|nonce: Seq<u8>|
                nonce.len() == 16 && r.body@ == crate::json::rendered(
                    #[trigger] handshake_tree(
                        job@.key_id,
                        job@.secret,
                        crate::text::decimal(now as nat),
                        crate::text::hex(nonce),
                    ),
                ),
    {
        let ts = decimal_of(now as u128);
        let nonce = random_hex(16);
        let ghost bytes = choose|bytes: Seq<u8>|
            bytes.len() == 16 && nonce@ == #[trigger] crate::text::hex(bytes);
        let r = handshake_request_with(
            job.key_id.as_str(),
            job.secret.as_str(),
            job.origin.as_str(),
            ts.as_str(),
            nonce.as_str(),
        );
        assert(bytes.len() == 16 && r.body@ == crate::json::rendered(
            handshake_tree(
                job@.key_id,
                job@.secret,
                crate::text::decimal(now as nat),
                crate::text::hex(bytes),
            ),
        ));
        r
    }

    /// Takes an answer to a handshake in, and keeps the key that it holds.
    pub fn handshake_answered(&mut self, job: &SignJob, status: u16, answer: Option<&Json>) -> (r:
        Result<(), HandshakeError>)
        requires
            old(self).wf(),
        ensures
            final(self).wf(),
            final(self).differs_at(old(self), job@.state_key),
            ({
                let outcome = handshake_outcome(
                    job@.key_id,
                    job@.secret,
                    status,
                    crate::json::seen(answer),
                );
                let before = old(self).row(job@.state_key);
                match r {
                    Ok(()) => outcome is Key && final(self).row(job@.state_key) == (SignerRow {
                        key: Some(outcome->Key_0),
                        ..before
                    }),
                    Err(e) => !(outcome is Key) && is_outcome(Err(e), outcome) && final(self).row(
                        job@.state_key,
                    ) == before,
                }
            }),
    {
        match read_handshake(job.key_id.as_str(), job.secret.as_str(), status, answer) {
            Ok(key) => {
                let mut state = self.state_for(job.state_key.as_str());
                state.priv_key = Some(key);
                self.update_state(job.state_key.as_str(), state);
                Ok(())
            },
            Err(e) => Err(e),
        }
    }

    /// Whether an answer says that the signature was not accepted: its status is
    /// 401 and its body names one of two reasons.
    pub fn is_verify_failure(status: u16, body: &str) -> (r: bool)
        ensures
            r == (status == 401 && rejects_signature(crate::json::parsed(body@))),
    {
        if status != 401 {
            return false;
        }
        match parse(body) {
            Some(answer) => is_rejection(Some(&answer)),
            None => false,
        }
    }

    /// Forgets the private key for an origin and a credential.
    pub fn invalidate(&mut self, url: &str, credential: &str)
        requires
            old(self).wf(),
        ensures
            final(self).wf(),
            match crate::url::url_origin(url@) {
                Some(origin) => {
                    let k = state_key_of(origin, credential@);
                    final(self).differs_at(old(self), k) && final(self).row(k) == (SignerRow {
                        key: None,
                        ..old(self).row(k)
                    })
                },
                None => *final(self) == *old(self),
            },
    {
        if let Some(origin) = crate::url::origin_of(url) {
            let key = concat3(origin.as_str(), "\n", credential);
            let mut state = self.state_for(key.as_str());
            state.priv_key = None;
            self.update_state(key.as_str(), state);
        }
    }

    /// Gives signing up for an origin and a credential.
    pub fn set_bypass(&mut self, url: &str, credential: &str)
        requires
            old(self).wf(),
        ensures
            final(self).wf(),
            match crate::url::url_origin(url@) {
                Some(origin) => {
                    let k = state_key_of(origin, credential@);
                    final(self).differs_at(old(self), k) && final(self).row(k) == (SignerRow {
                        bypass: true,
                        ..old(self).row(k)
                    })
                },
                None => *final(self) == *old(self),
            },
    {
        if let Some(origin) = crate::url::origin_of(url) {
            let key = concat3(origin.as_str(), "\n", credential);
            let mut state = self.state_for(key.as_str());
            state.bypass = true;
            self.update_state(key.as_str(), state);
        }
    }
}

/// The way of one request through signing: the switch and the key are asked for
/// where they must be, and whatever fails, the request goes unsigned.
pub struct SignPass {
    began: u64,
    asked: bool,
    keyed: bool,
    failed: bool,
}

impl View for SignPass {
    type V = PassRow;

    closed spec fn view(&self) -> PassRow {
        PassRow {
            began: self.began,
            asked: self.asked,
            keyed: self.keyed,
            failed: self.failed,
        }
    }
}

impl SignPass {
    /// A pass that begins at a time.
    pub fn new(began: u64) -> (r: Self)
        ensures
            r@ == (PassRow { began, asked: false, keyed: false, failed: false }),
    {
        SignPass { began, asked: false, keyed: false, failed: false }
    }

    /// What the pass does next. What is known of signing is judged as of its
    /// beginning; a signature bears the time at which it is sent.
    pub fn advance(
        &mut self,
        manager: &SigningManager,
        url: &str,
        pairs: &Vec<(String, String)>,
        credential: &str,
        app_version: &str,
        sent_at: u64,
    ) -> (r: SignStep)
        requires
            manager.wf(),
        ensures
            ({
                let given = crate::text::pair_views(pairs@);
                let job = signable(url@, given, credential@);
                let reached = match job {
                    Some(job) => stage(manager.row(job.state_key), old(self)@.began),
                    None => Stage::Closed,
                };
                let m = next_move(old(self)@, reached);
                &&& final(self)@ == moved(old(self)@, m)
                &&& match r {
                    SignStep::Done(out) => match m {
                        Move::Stop => !out.signed && crate::text::pair_views(out.pairs@) == given,
                        Move::Sign(key) => if out.signed {
                            is_signed(
                                crate::text::pair_views(out.pairs@),
                                given,
                                job->0,
                                key,
                                app_version@,
                                sent_at,
                            )
                        } else {
                            crate::text::pair_views(out.pairs@) == given && pow_exhausted(
                                pow_challenge(
                                    job->0.key_id,
                                    job->0.session,
                                    crate::text::decimal(sent_at as nat),
                                ),
                            )
                        },
                        _ => false,
                    },
                    SignStep::Probe(j) => m is AskSwitch && job == Some(j@),
                    SignStep::Handshake(j) => m is AskKey && job == Some(j@),
                }
            }),
    {
        if self.failed {
            return SignStep::Done(
                SignOutcome { pairs: crate::text::copy_pairs(pairs), signed: false },
            );
        }
        match manager.sign(url, pairs, credential, app_version, self.began, sent_at) {
            SignStep::Done(out) => SignStep::Done(out),
            SignStep::Probe(job) => if self.asked {
                SignStep::Done(
                    SignOutcome { pairs: crate::text::copy_pairs(pairs), signed: false },
                )
            } else {
                self.asked = true;
                SignStep::Probe(job)
            },
            SignStep::Handshake(job) => if self.keyed {
                SignStep::Done(
                    SignOutcome { pairs: crate::text::copy_pairs(pairs), signed: false },
                )
            } else {
                self.keyed = true;
                SignStep::Handshake(job)
            },
        }
    }

    /// Takes in what the switch said: anything but a yes is a failure.
    pub fn switch_said(&mut self, outcome: GateOutcome)
        ensures
            final(self)@ == told(old(self)@, outcome == GateOutcome::Enabled),
    {
        if !matches!(outcome, GateOutcome::Enabled) {
            self.failed = true;
        }
    }

    /// Takes in whether a key came.
    pub fn key_came(&mut self, came: bool)
        ensures
            final(self)@ == told(old(self)@, came),
    {
        if !came {
            self.failed = true;
        }
    }
}

// ---------------------------------------------------------------------------
// Laws
// ---------------------------------------------------------------------------

/// Where the switch said no or could not be asked, or no key came, the pass ends
/// there, and the request goes unsigned with the headers that were given.
pub proof fn law_failures_end_the_pass(pass: PassRow, reached: Stage)
    ensures
        next_move(told(pass, false), reached) is Stop,
        moved(told(pass, false), next_move(told(pass, false), reached)) == told(pass, false),
{
}

/// A pass asks the switch once at most and for a key once at most, whatever it
/// hears: so it ends after two questions.
pub proof fn law_passes_ask_once(pass: PassRow, reached: Stage, ok: bool, later: Stage)
    ensures
        ({
            let m = next_move(pass, reached);
            let after = told(moved(pass, m), ok);
            &&& m is AskSwitch ==> !pass.asked && !(next_move(after, later) is AskSwitch)
            &&& m is AskKey ==> !pass.keyed && !(next_move(after, later) is AskKey)
            &&& pass.asked ==> after.asked
            &&& pass.keyed ==> after.keyed
            &&& pass.asked && pass.keyed ==> m is Stop || m is Sign
        }),
{
}

/// Once signing was given up for an origin and a credential, no answer of the
/// switch and no key brings it back: requests go unsigned at any time.
pub proof fn law_giving_up_is_final(
    row: SignerRow,
    outcome: GateOutcome,
    key: Option<Seq<u8>>,
    now: u64,
    then_at: u64,
)
    requires
        row.bypass,
    ensures
        stage(row, now) is Closed,
        stage(after_gate(row, outcome, now), then_at) is Closed,
        stage((SignerRow { key, ..row }), then_at) is Closed,
{
}

/// After an answer of the switch it is not asked again for as long as the answer
/// holds: an hour after a yes or a no, a minute after it could not be reached,
/// half a minute after an answer of no use.
pub proof fn law_gate_is_asked_once(row: SignerRow, outcome: GateOutcome, now: u64, then_at: u64)
    requires
        now <= then_at < u64::MAX,
        then_at < now + match outcome {
            GateOutcome::Enabled | GateOutcome::Disabled => GATE_TTL_MS as int,
            GateOutcome::NetworkFail => GATE_FAILURE_COOLDOWN_MS as int,
            GateOutcome::Unavailable => GATE_UNAVAILABLE_COOLDOWN_MS as int,
        },
    ensures
        !(stage(after_gate(row, outcome, now), then_at) is Unknown),
{
}

/// Only a yes of the switch opens signing: where it had to be asked and said
/// anything else, requests go unsigned for as long as its answer holds.
pub proof fn law_signing_fails_open(row: SignerRow, outcome: GateOutcome, now: u64, then_at: u64)
    requires
        stage(row, now) is Unknown,
        outcome != GateOutcome::Enabled,
        now <= then_at < u64::MAX,
        then_at < now + match outcome {
            GateOutcome::Enabled | GateOutcome::Disabled => GATE_TTL_MS as int,
            GateOutcome::NetworkFail => GATE_FAILURE_COOLDOWN_MS as int,
            GateOutcome::Unavailable => GATE_UNAVAILABLE_COOLDOWN_MS as int,
        },
    ensures
        stage(after_gate(row, outcome, now), then_at) is Closed,
{
}

/// Signing keeps every header that it does not set itself, in order, and drops
/// the others.
pub proof fn law_other_headers_are_kept(pairs: Seq<(Seq<char>, Seq<char>)>)
    ensures
        cleaned(pairs) == pairs.filter(|p: (Seq<char>, Seq<char>)| !is_signing_header(p.0)),
    decreases pairs.len(),
{
    reveal(Seq::filter);
    if pairs.len() > 0 {
        law_other_headers_are_kept(pairs.drop_last());
    }
}

/// The headers that are left when those that signing sets are dropped.
proof fn lemma_cleaned(pairs: Seq<(Seq<char>, Seq<char>)>, i: int)
    requires
        0 <= i < cleaned(pairs).len(),
    ensures
        !is_signing_header(cleaned(pairs)[i].0),
    decreases pairs.len(),
{
    if i < cleaned(pairs.drop_last()).len() {
        lemma_cleaned(pairs.drop_last(), i);
    }
}

/// A name in small letters.
proof fn lemma_lower(name: Seq<char>, small: Seq<char>)
    requires
        name.len() == small.len(),
        forall|i: int| 0 <= i < name.len() ==> crate::text::lower_char(#[trigger] name[i]) == small[i],
    ensures
        crate::text::lower(name) == small,
{
    assert(crate::text::lower(name) =~= small);
}

/// Whether the headers of a request carry a name exactly once.
pub open spec fn stands_once(pairs: Seq<(Seq<char>, Seq<char>)>, name: Seq<char>) -> bool {
    exists|i: int|
        0 <= i < pairs.len() && crate::text::lower((#[trigger] pairs[i]).0) == name && forall|j: int|
            0 <= j < pairs.len() && crate::text::lower((#[trigger] pairs[j]).0) == name ==> j == i
}

/// In the headers of a signed request each header that signing sets stands once,
/// whatever the headers before held.
pub proof fn law_signature_stands_once(
    pairs: Seq<(Seq<char>, Seq<char>)>,
    job: JobRow,
    key: Seq<u8>,
    version: Seq<char>,
    ts: Seq<char>,
    nonce: Seq<char>,
    pow: Seq<char>,
)
    ensures
        ({
            let out = cleaned(pairs) + signature_pairs(job, key, version, ts, nonce, pow);
            &&& stands_once(out, "x-client-ts"@)
            &&& stands_once(out, "x-client-version"@)
            &&& stands_once(out, "x-client-sig"@)
            &&& stands_once(out, "x-session-id"@)
            &&& stands_once(out, "x-client-nonce"@)
            &&& stands_once(out, "x-app-id"@)
            &&& stands_once(out, "x-client-pow"@)
        }),
{
    reveal_strlit("x-client-ts");
    reveal_strlit("x-client-version");
    reveal_strlit("x-client-sig");
    reveal_strlit("x-session-id");
    reveal_strlit("x-client-nonce");
    reveal_strlit("x-app-id");
    reveal_strlit("x-client-pow");
    reveal_strlit("X-Client-Ts");
    reveal_strlit("X-Client-Version");
    reveal_strlit("X-Client-Sig");
    reveal_strlit("X-Session-Id");
    reveal_strlit("X-Client-Nonce");
    reveal_strlit("X-App-Id");
    reveal_strlit("X-Client-Pow");
    lemma_lower("X-Client-Ts"@, "x-client-ts"@);
    lemma_lower("X-Client-Version"@, "x-client-version"@);
    lemma_lower("X-Client-Sig"@, "x-client-sig"@);
    lemma_lower("X-Session-Id"@, "x-session-id"@);
    lemma_lower("X-Client-Nonce"@, "x-client-nonce"@);
    lemma_lower("X-App-Id"@, "x-app-id"@);
    lemma_lower("X-Client-Pow"@, "x-client-pow"@);
    let front = cleaned(pairs);
    let back = signature_pairs(job, key, version, ts, nonce, pow);
    let out = front + back;
    assert forall|j: int| 0 <= j < front.len() implies !is_signing_header((#[trigger] out[j]).0) by {
        lemma_cleaned(pairs, j);
    }
    let names = seq![
        "x-client-ts"@,
        "x-client-version"@,
        "x-client-sig"@,
        "x-session-id"@,
        "x-client-nonce"@,
        "x-app-id"@,
        "x-client-pow"@,
    ];
    assert("x-client-sig"@[9] != "x-client-pow"@[9]);
    assert("x-app-id"@.len() == 8 && "x-client-ts"@.len() == 11 && "x-client-version"@.len() == 16);
    assert("x-client-sig"@.len() == 12 && "x-client-pow"@.len() == 12 && "x-session-id"@.len() == 12);
    assert("x-session-id"@[2] != "x-client-sig"@[2] && "x-session-id"@[2] != "x-client-pow"@[2]);
    assert("x-client-nonce"@.len() == 14);
    assert forall|k: int| 0 <= k < 7 implies stands_once(out, #[trigger] names[k]) by {
        assert(out[front.len() + k] == back[k]);
        assert(crate::text::lower(back[k].0) == names[k]);
        assert forall|j: int|
            0 <= j < out.len() && crate::text::lower((#[trigger] out[j]).0) == names[k] implies j
            == front.len() + k by {
            if j >= front.len() {
                assert(out[j] == back[j - front.len()]);
                assert(crate::text::lower(back[j - front.len()].0) == names[j - front.len()]);
            }
        }
    }
    assert(names[0] == "x-client-ts"@ && names[1] == "x-client-version"@ && names[2]
        == "x-client-sig"@ && names[3] == "x-session-id"@ && names[4] == "x-client-nonce"@
        && names[5] == "x-app-id"@ && names[6] == "x-client-pow"@);
    assert(stands_once(out, names[0]) && stands_once(out, names[1]) && stands_once(out, names[2])
        && stands_once(out, names[3]) && stands_once(out, names[4]) && stands_once(out, names[5])
        && stands_once(out, names[6]));
}

/// A request that was signed is not signed again.
pub proof fn law_signed_requests_are_left_alone(
    url: Seq<char>,
    pairs: Seq<(Seq<char>, Seq<char>)>,
    job: JobRow,
    key: Seq<u8>,
    version: Seq<char>,
    now: u64,
    out: Seq<(Seq<char>, Seq<char>)>,
    credential: Seq<char>,
)
    requires
        is_signed(out, pairs, job, key, version, now),
    ensures
        signable(url, out, credential) is None,
{
    let (nonce, pow) = choose|nonce: Seq<u8>, pow: Seq<char>|
        nonce.len() == 16 && pow_proves(
            pow_challenge(job.key_id, job.session, crate::text::decimal(now as nat)),
            pow,
        ) && out == cleaned(pairs) + #[trigger] signature_pairs(
            job,
            key,
            version,
            crate::text::decimal(now as nat),
            crate::text::hex(nonce),
            pow,
        );
    reveal_strlit("x-client-sig");
    reveal_strlit("X-Client-Sig");
    lemma_lower("X-Client-Sig"@, "x-client-sig"@);
    lemma_lower("x-client-sig"@, "x-client-sig"@);
    let i: int = cleaned(pairs).len() + 2int;
    assert(out[i].0 == "X-Client-Sig"@);
    lemma_header_found(out, "x-client-sig"@, 0, i);
}

/// A header that stands among others is found.
proof fn lemma_header_found(pairs: Seq<(Seq<char>, Seq<char>)>, name: Seq<char>, from: int, i: int)
    requires
        0 <= from <= i < pairs.len(),
        crate::text::lower(pairs[i].0) == crate::text::lower(name),
    ensures
        header_from(pairs, name, from) is Some,
    decreases i - from,
{
    if from < i {
        lemma_header_found(pairs, name, from + 1, i);
    }
}

/// Requests to the paths that are never signed go as they are, whatever they
/// bear and whatever is known of signing.
pub proof fn law_unsigned_paths_are_never_signed(
    url: Seq<char>,
    pairs: Seq<(Seq<char>, Seq<char>)>,
    credential: Seq<char>,
)
    requires
        crate::url::parsed_url(url) matches Some(p) && (p.scheme != "https"@ || goes_unsigned(
            p.path,
        )),
    ensures
        signable(url, pairs, credential) is None,
{
}

/// What is seen of a job is what its fields hold.
pub proof fn law_jobs_tell_their_fields(job: SignJob)
    ensures
        job@.state_key == job.state_key@,
        job@.origin == job.origin@,
        job@.key_id == job.key_id@,
        job@.secret == job.secret@,
        job@.session == job.session@,
{
}

/// Bytes begin with zero bits where each byte that is wholly among them is zero,
/// and the one that is partly among them is, shifted up by them, no more than a
/// byte.
pub proof fn law_zero_bits_lead(bytes: Seq<u8>, full: int, rest: int)
    requires
        0 <= full < bytes.len(),
        0 <= rest < 8,
        full * 8 + rest <= u32::MAX,
    ensures
        zero_bits(bytes, (full * 8 + rest) as u32) <==> (forall|i: int|
            0 <= i < full ==> #[trigger] bytes[i] == 0) && bytes[full]
            * vstd::arithmetic::power2::pow2(rest as nat) < 256,
{
    let bits = (full * 8 + rest) as u32;
    assert(bits as int / 8 == full && (bits % 8) as int == rest);
    vstd::arithmetic::power2::lemma2_to64();
    let b = bytes[full] as int;
    if rest == 0 {
        assert(b * 1 < 256);
    } else if rest == 1 {
        assert(b * 2 < 256 <==> b < 128);
    } else if rest == 2 {
        assert(b * 4 < 256 <==> b < 64);
    } else if rest == 3 {
        assert(b * 8 < 256 <==> b < 32);
    } else if rest == 4 {
        assert(b * 16 < 256 <==> b < 16);
    } else if rest == 5 {
        assert(b * 32 < 256 <==> b < 8);
    } else if rest == 6 {
        assert(b * 64 < 256 <==> b < 4);
    } else {
        assert(b * 128 < 256 <==> b < 2);
    }
}

/// The challenge of a request is bound to its key, its session and its time: it is
/// what their digest begins with, in 32 digits of base 16.
pub proof fn law_challenges_are_bound_to_the_request(
    key_id: Seq<char>,
    session: Seq<char>,
    ts: Seq<char>,
)
    ensures
        ({
            let digest = crate::crypto::sha256(
                vstd::utf8::encode_utf8(
                    key_id + "\n"@ + "zcode"@ + "\n"@ + session + "\n"@ + ts,
                ),
            );
            digest.len() >= 16 ==> pow_challenge(key_id, session, ts) == crate::text::hex(
                digest,
            ).take(32)
        }),
{
}

/// An answer solves a challenge where the digest of both begins with a byte of
/// zeros.
pub proof fn law_answers_solve_by_a_zero_byte(challenge: Seq<char>, answer: Seq<char>)
    ensures
        ({
            let digest = crate::crypto::sha256(
                vstd::utf8::encode_utf8(challenge + "\n"@ + answer),
            );
            digest.len() > 0 ==> (pow_solves(challenge, answer) <==> digest[0] == 0)
        }),
{
    let digest = text_digest(challenge + "\n"@ + answer);
    if digest.len() > 0 && digest[0] == 0 {
        assert forall|i: int| 0 <= i < 1 && i < digest.len() implies #[trigger] digest[i] == 0 by {}
    }
}

/// The answer that is given to a challenge solves it, begins with the nonce and
/// ends with a count in eight digits, and is the first to solve it: there is one
/// such answer at most, and none where all counts were tried in vain.
pub proof fn law_the_first_answer_is_given(
    challenge: Seq<char>,
    nonce: Seq<char>,
    answer: Seq<char>,
    other: Seq<char>,
)
    requires
        pow_first(challenge, nonce, answer),
    ensures
        pow_solves(challenge, answer),
        answer.len() == nonce.len() + 8,
        answer.take(nonce.len() as int) == nonce,
        pow_first(challenge, nonce, other) ==> other == answer,
        !pow_hopeless(challenge, nonce),
{
    let n = choose|n: nat|
        n <= u32::MAX && answer == #[trigger] pow_candidate(nonce, n) && pow_solves(
            challenge,
            answer,
        ) && forall|m: nat| m < n ==> !pow_solves(challenge, #[trigger] pow_candidate(nonce, m));
    crate::text::law_counts_are_written_in_base_sixteen(n, 8);
    assert(pow_candidate(nonce, n).take(nonce.len() as int) =~= nonce);
    if pow_first(challenge, nonce, other) {
        let k = choose|k: nat|
            k <= u32::MAX && other == #[trigger] pow_candidate(nonce, k) && pow_solves(
                challenge,
                other,
            ) && forall|m: nat|
                m < k ==> !pow_solves(challenge, #[trigger] pow_candidate(nonce, m));
        if k < n {
            assert(!pow_solves(challenge, pow_candidate(nonce, k)));
        }
        if n < k {
            assert(!pow_solves(challenge, pow_candidate(nonce, n)));
        }
    }
}

/// A credential falls at its only dot into the id of a key and its secret, both
/// without the white space around them and neither blank; any other falls into
/// nothing.
pub proof fn law_credentials_fall_into_id_and_secret(id: Seq<char>, secret: Seq<char>)
    requires
        !id.contains('.'),
        !secret.contains('.'),
    ensures
        crate::text::trim(id).len() > 0 && crate::text::trim(secret).len() > 0 ==> credential_parts(
            id + "."@ + secret,
        ) == Some((crate::text::trim(id), crate::text::trim(secret))),
        crate::text::trim(id).len() == 0 || crate::text::trim(secret).len() == 0
            ==> credential_parts(id + "."@ + secret) is None,
        credential_parts(id) is None,
{
    lemma_dot(id);
    lemma_dot(secret);
    lemma_dot_splits(id, secret);
    crate::text::lemma_find_from(id, "."@, 0);
}

/// A credential with more than one dot falls into nothing.
pub proof fn law_two_dots_are_too_many(id: Seq<char>, secret: Seq<char>, rest: Seq<char>)
    requires
        !id.contains('.'),
    ensures
        credential_parts(id + "."@ + (secret + "."@ + rest)) is None,
{
    lemma_dot(id);
    let tail = secret + "."@ + rest;
    lemma_dot_splits(id, tail);
    crate::text::law_texts_stand_where_they_are(secret, "."@, rest, 0);
}

proof fn lemma_dot(s: Seq<char>)
    ensures
        crate::text::contains(s, "."@) <==> s.contains('.'),
{
    reveal_strlit(".");
    let p = "."@;
    assert(p.len() == 1 && p[0] == '.');
    if crate::text::contains(s, p) {
        let i = choose|i: int| crate::text::stands_at(s, p, i);
        assert(s.subrange(i, i + 1)[0] == s[i]);
        assert(s[i] == '.');
    }
    if s.contains('.') {
        let i = choose|i: int| 0 <= i < s.len() && s[i] == '.';
        assert(s.subrange(i, i + 1) =~= p);
        assert(crate::text::stands_at(s, p, i));
    }
}

proof fn lemma_dot_splits(id: Seq<char>, rest: Seq<char>)
    requires
        !id.contains('.'),
    ensures
        crate::text::split_once(id + "."@ + rest, "."@) == Some((id, rest)),
{
    reveal_strlit(".");
    let p = "."@;
    let s = id + p + rest;
    assert(p.len() == 1 && p[0] == '.');
    assert forall|k: int| 0 <= k < id.len() implies !#[trigger] crate::text::stands_at(s, p, k) by {
        if crate::text::stands_at(s, p, k) {
            assert(s.subrange(k, k + 1)[0] == s[k]);
            assert(id.contains(id[k]));
        }
    }
    crate::text::law_splitting_is_at_the_first(id, p, rest);
}

/// The paths of the start plan and of the off-peak service go unsigned, with or
/// without a slash at the end.
pub proof fn law_start_plan_paths_go_unsigned(path: Seq<char>)
    ensures
        goes_unsigned("/api/v1/zcode-plan/anthropic/v1/messages"@),
        goes_unsigned("/api/v1/zcode-plan/chat/completions"@),
        goes_unsigned("/api/v1/off-peak/anthropic/v1/messages"@),
        goes_unsigned(path.push('/')) <==> goes_unsigned(path),
        path.len() > 0 && path.last() != '/' && path
            != "/api/v1/zcode-plan/anthropic/v1/messages"@ && path
            != "/api/v1/zcode-plan/chat/completions"@ && path
            != "/api/v1/off-peak/anthropic/v1/messages"@ ==> !goes_unsigned(path),
{
    reveal_strlit("/api/v1/zcode-plan/anthropic/v1/messages");
    reveal_strlit("/api/v1/zcode-plan/chat/completions");
    reveal_strlit("/api/v1/off-peak/anthropic/v1/messages");
    assert("/api/v1/zcode-plan/anthropic/v1/messages"@.last() == 's');
    assert("/api/v1/zcode-plan/chat/completions"@.last() == 's');
    assert("/api/v1/off-peak/anthropic/v1/messages"@.last() == 's');
    crate::text::law_ends_are_cut_off(path, '/');
}

/// A header is found by its name, whatever the case, where it first stands from a
/// position on, and not found where it stands nowhere.
pub proof fn law_headers_are_found_by_name(
    pairs: Seq<(Seq<char>, Seq<char>)>,
    name: Seq<char>,
    from: int,
    i: int,
)
    requires
        0 <= from <= pairs.len(),
    ensures
        header_from(pairs, name, from) is None <==> forall|k: int|
            from <= k < pairs.len() ==> crate::text::lower((#[trigger] pairs[k]).0)
                != crate::text::lower(name),
        from <= i < pairs.len() && crate::text::lower(pairs[i].0) == crate::text::lower(name) && (
        forall|k: int|
            from <= k < i ==> crate::text::lower((#[trigger] pairs[k]).0) != crate::text::lower(
                name,
            )) ==> header_from(pairs, name, from) == Some(pairs[i].1),
    decreases pairs.len() - from,
{
    if from < pairs.len() {
        law_headers_are_found_by_name(pairs, name, from + 1, i);
        assert(pairs[from] == pairs[from]);
    }
}

/// A signature is rejected where one of two reasons is given at one of the places
/// where a reason stands, and nowhere else.
pub proof fn law_rejections_name_their_reason(t: Tree)
    ensures
        rejects_signature(Some(t)) <==> ({
            let bad = |s: Option<Seq<char>>|
                s == Some("VERIFY_SIGNATURE_INVALID"@) || s == Some("VERIFY_APIKEY_EXPIRED"@);
            bad(t.text_at("msg"@)) || bad(t.text_at("reason"@)) || bad(
                t.text_in("data"@, "reason"@),
            ) || bad(t.text_in("error"@, "reason"@)) || bad(t.text_in("error"@, "message"@))
        }),
        !rejects_signature(None),
{
}

/// A private key is had from its cipher text: nonce and sealed bytes are its
/// base64, sealed under a key that is derived from the secret and bound to the
/// key's id; inside is the base64 of a key's document.
pub proof fn law_private_keys_are_unsealed(
    key_id: Seq<char>,
    secret: Seq<char>,
    cipher_text: Seq<char>,
    nonce: Seq<u8>,
    sealed: Seq<u8>,
    plain: Seq<u8>,
    document: Seq<u8>,
    key: Seq<u8>,
)
    requires
        crate::crypto::base64_bytes(cipher_text) == Some(nonce + sealed),
        nonce.len() == 12,
        sealed.len() > 16,
        crate::crypto::gcm_opened(
            crate::crypto::hkdf_sha256(
                vstd::utf8::encode_utf8("WD_CLIENT_SIGN_KDF_SALT"@),
                vstd::utf8::encode_utf8(secret),
                vstd::utf8::encode_utf8("ed25519_priv"@),
            ),
            nonce,
            sealed,
            vstd::utf8::encode_utf8(key_id),
        ) == Some(plain),
        vstd::utf8::valid_utf8(plain),
        crate::crypto::base64_bytes(crate::text::trim(vstd::utf8::decode_utf8(plain))) == Some(
            document,
        ),
        crate::crypto::pkcs8_secret(document) == Some(key),
    ensures
        sealed_key(key_id, secret, cipher_text) == Ok::<Seq<u8>, KeyError>(key),
{
    assert((nonce + sealed).take(12) =~= nonce);
    assert((nonce + sealed).skip(12) =~= sealed);
}

/// Each step that fails on the way to a private key is told as its own error.
pub proof fn law_failed_steps_are_told(
    key_id: Seq<char>,
    secret: Seq<char>,
    cipher_text: Seq<char>,
    nonce: Seq<u8>,
    sealed: Seq<u8>,
)
    requires
        nonce.len() == 12,
    ensures
        crate::crypto::base64_bytes(cipher_text) is None ==> sealed_key(key_id, secret, cipher_text)
            == Err::<Seq<u8>, KeyError>(KeyError::NotBase64),
        crate::crypto::base64_bytes(cipher_text) is Some && crate::crypto::base64_bytes(
            cipher_text,
        )->0.len() <= 28 ==> sealed_key(key_id, secret, cipher_text) == Err::<Seq<u8>, KeyError>(
            KeyError::TooShort,
        ),
        crate::crypto::base64_bytes(cipher_text) == Some(nonce + sealed) && sealed.len() > 16 ==> ({
            let opened = crate::crypto::gcm_opened(
                crate::crypto::hkdf_sha256(
                    vstd::utf8::encode_utf8("WD_CLIENT_SIGN_KDF_SALT"@),
                    vstd::utf8::encode_utf8(secret),
                    vstd::utf8::encode_utf8("ed25519_priv"@),
                ),
                nonce,
                sealed,
                vstd::utf8::encode_utf8(key_id),
            );
            let got = sealed_key(key_id, secret, cipher_text);
            &&& opened is None ==> got == Err::<Seq<u8>, KeyError>(KeyError::Sealed)
            &&& opened is Some && !vstd::utf8::valid_utf8(opened->0) ==> got == Err::<
                Seq<u8>,
                KeyError,
            >(KeyError::NotText)
            &&& opened is Some && vstd::utf8::valid_utf8(opened->0) ==> ({
                let inner = crate::crypto::base64_bytes(
                    crate::text::trim(vstd::utf8::decode_utf8(opened->0)),
                );
                &&& inner is None ==> got == Err::<Seq<u8>, KeyError>(KeyError::InnerNotBase64)
                &&& inner is Some && crate::crypto::pkcs8_secret(inner->0) is None ==> got == Err::<
                    Seq<u8>,
                    KeyError,
                >(KeyError::NoKey)
            })
        }),
{
    assert((nonce + sealed).take(12) =~= nonce);
    assert((nonce + sealed).skip(12) =~= sealed);
}

/// A key is asked for with the credential, the time and a nonce, under a signature
/// that is made of all of them with a key derived from the secret.
pub proof fn law_keys_are_asked_for_under_a_signature(
    key_id: Seq<char>,
    secret: Seq<char>,
    ts: Seq<char>,
    nonce: Seq<char>,
)
    ensures
        ({
            let t = handshake_tree(key_id, secret, ts, nonce);
            &&& t.text_at("apiKey"@) == Some(key_id + "."@ + secret)
            &&& t.text_at("nonce"@) == Some(nonce)
            &&& t.text_at("ts"@) == Some(ts)
            &&& t.text_at("sig"@) == Some(
                crate::crypto::base64_text(
                    crate::crypto::hmac_sha256(
                        crate::crypto::hkdf_sha256(
                            vstd::utf8::encode_utf8("WD_CLIENT_SIGN_KDF_SALT"@),
                            vstd::utf8::encode_utf8(secret),
                            vstd::utf8::encode_utf8("getSignKey_hmac"@),
                        ),
                        vstd::utf8::encode_utf8(
                            "get_sign_key"@ + "\n"@ + key_id + "\n"@ + ts + "\n"@ + nonce,
                        ),
                    ),
                ),
            )
            &&& t.members().dom() =~= set!["apiKey"@, "nonce"@, "ts"@, "sig"@]
        }),
{
    reveal_strlit("apiKey");
    reveal_strlit("nonce");
    reveal_strlit("ts");
    reveal_strlit("sig");
    assert("apiKey"@.len() == 6);
    assert("nonce"@.len() == 5);
    assert("ts"@.len() == 2);
    assert("sig"@.len() == 3);
}

/// A key comes with a good status, a good code and a cipher text that can be
/// unsealed. What is missing or bad is told, and a refusal with the reason that
/// was given.
pub proof fn law_keys_come_with_a_good_answer(
    key_id: Seq<char>,
    secret: Seq<char>,
    status: u16,
    t: Tree,
    cipher: Seq<char>,
    code: i64,
)
    ensures
        status != 200 ==> handshake_outcome(key_id, secret, status, Some(t))
            == HandshakeOutcome::Http(status),
        status != 200 ==> handshake_outcome(key_id, secret, status, None) == HandshakeOutcome::Http(
            status,
        ),
        handshake_outcome(key_id, secret, 200, None) == HandshakeOutcome::NotJson,
        ({
            let got = handshake_outcome(key_id, secret, 200, Some(t));
            &&& t.signed_at("code"@) == Some(500i64) ==> got == HandshakeOutcome::Server
            &&& (t.signed_at("code"@) is None || (t.signed_at("code"@) == Some(code) && code != 500
                && code != 200)) && t.text_at("msg"@) is Some ==> got == HandshakeOutcome::Rejected(
                t.text_at("msg"@)->0,
            )
            &&& (t.signed_at("code"@) is None || (t.signed_at("code"@) == Some(code) && code != 500
                && code != 200)) && t.text_at("msg"@) is None ==> got == HandshakeOutcome::Rejected(
                "?"@,
            )
            &&& t.signed_at("code"@) == Some(200i64) && (t.text_in("data"@, "privateCipher"@) is None
                || t.text_in("data"@, "privateCipher"@)->0.len() == 0) ==> got
                == HandshakeOutcome::NoCipher
            &&& t.signed_at("code"@) == Some(200i64) && t.text_in("data"@, "privateCipher"@)
                == Some(cipher) && cipher.len() > 0 ==> match sealed_key(key_id, secret, cipher) {
                Ok(key) => got == HandshakeOutcome::Key(key),
                Err(e) => got == HandshakeOutcome::BadKey(e),
            }
        }),
{
}

/// A result of a handshake is what it tells.
pub proof fn law_handshakes_tell_their_outcome(
    key: Vec<u8>,
    status: u16,
    msg: String,
    e: KeyError,
    outcome: HandshakeOutcome,
)
    ensures
        is_outcome(Ok(key), outcome) <==> outcome == HandshakeOutcome::Key(key@),
        is_outcome(Err(HandshakeError::Http(status)), outcome) <==> outcome
            == HandshakeOutcome::Http(status),
        is_outcome(Err(HandshakeError::NotJson), outcome) <==> outcome is NotJson,
        is_outcome(Err(HandshakeError::Server), outcome) <==> outcome is Server,
        is_outcome(Err(HandshakeError::Rejected(msg)), outcome) <==> outcome
            == HandshakeOutcome::Rejected(msg@),
        is_outcome(Err(HandshakeError::NoCipher), outcome) <==> outcome is NoCipher,
        is_outcome(Err(HandshakeError::Key(e)), outcome) <==> outcome == HandshakeOutcome::BadKey(
            e,
        ),
{
}

/// The switch is on where a good answer says so and off where it does not; without
/// a good answer nothing is known of it.
pub proof fn law_the_switch_is_told_by_a_good_answer(success: bool, t: Tree)
    ensures
        ({
            let good = success && t.signed_at("code"@) == Some(0i64);
            let on = t.field_in("data"@, "codingPlanSignature"@) is Some && t.field_in(
                "data"@,
                "codingPlanSignature"@,
            )->0.flag_at("enable"@) == Some(true);
            &&& !good ==> gate_says(success, Some(t)) == GateOutcome::Unavailable
            &&& good && on ==> gate_says(success, Some(t)) == GateOutcome::Enabled
            &&& good && !on ==> gate_says(success, Some(t)) == GateOutcome::Disabled
        }),
        gate_says(success, None) == GateOutcome::Unavailable,
{
}

/// The headers that are left of a request are all but those of a signature, in
/// order, whatever the case of their names.
pub proof fn law_only_signatures_are_cleaned_away(pairs: Seq<(Seq<char>, Seq<char>)>)
    ensures
        cleaned(pairs) == pairs.filter(
            |p: (Seq<char>, Seq<char>)|
                ({
                    let name = crate::text::lower(p.0);
                    name != "x-client-ts"@ && name != "x-client-version"@ && name
                        != "x-client-sig"@ && name != "x-client-nonce"@ && name != "x-app-id"@
                        && name != "x-client-pow"@ && name != "x-client-sign-verified"@ && name
                        != "x-session-id"@
                }),
        ),
    decreases pairs.len(),
{
    reveal(Seq::filter);
    if pairs.len() > 0 {
        law_only_signatures_are_cleaned_away(pairs.drop_last());
    }
}

/// A signature tells time, version, session, nonce, the client's id and the work
/// that was done, and signs key, time, version, session and nonce.
pub proof fn law_signatures_cover_what_they_tell(
    job: JobRow,
    key: Seq<u8>,
    version: Seq<char>,
    ts: Seq<char>,
    nonce: Seq<char>,
    pow: Seq<char>,
)
    ensures
        ({
            let p = signature_pairs(job, key, version, ts, nonce, pow);
            &&& p.len() == 7
            &&& p.contains(("X-Client-Ts"@, ts))
            &&& p.contains(("X-Client-Version"@, version))
            &&& p.contains(("X-Session-Id"@, job.session))
            &&& p.contains(("X-Client-Nonce"@, nonce))
            &&& p.contains(("X-App-Id"@, "zcode"@))
            &&& p.contains(("X-Client-Pow"@, pow))
            &&& p.contains(
                (
                    "X-Client-Sig"@,
                    crate::crypto::base64_text(
                        crate::crypto::ed25519_signature(
                            key,
                            vstd::utf8::encode_utf8(
                                job.key_id + "\n"@ + ts + "\n"@ + version + "\n"@ + job.session
                                    + "\n"@ + nonce,
                            ),
                        ),
                    ),
                ),
            )
        }),
{
    let p = signature_pairs(job, key, version, ts, nonce, pow);
    assert(p[0] == ("X-Client-Ts"@, ts) && p[1] == ("X-Client-Version"@, version));
    assert(p[2].0 == "X-Client-Sig"@ && p[3] == ("X-Session-Id"@, job.session));
    assert(p[4] == ("X-Client-Nonce"@, nonce) && p[5] == ("X-App-Id"@, "zcode"@));
    assert(p[6] == ("X-Client-Pow"@, pow));
}

/// A request can be signed where it goes over HTTPS to a path that is signed,
/// bears no signature yet and names a session, and the credential falls into a key
/// and its secret. The job is then for the address' origin, that key and that
/// session.
pub proof fn law_jobs_are_for_key_and_session(
    url: Seq<char>,
    pairs: Seq<(Seq<char>, Seq<char>)>,
    credential: Seq<char>,
)
    ensures
        ({
            let job = signable(url, pairs, credential);
            let p = crate::url::parsed_url(url);
            let parts = credential_parts(credential);
            let session = header_from(pairs, "x-session-id"@, 0);
            &&& job is Some <==> p is Some && p->0.scheme == "https"@ && !goes_unsigned(p->0.path)
                && header_from(pairs, "x-client-sig"@, 0) is None && parts is Some
                && session is Some && crate::text::trim(session->0).len() > 0
            &&& job is Some ==> job->0.origin == p->0.origin && job->0.key_id == (parts->0).0
                && job->0.secret == (parts->0).1 && job->0.session == crate::text::trim(session->0)
                && job->0.state_key == p->0.origin + "\n"@ + credential
        }),
{
}

/// What is known of a signer says what comes next: nothing once signing was given
/// up; while what the switch said holds, nothing where it is off, and otherwise
/// the key, or a request for one; later nothing during a rest, and then a look at
/// the switch.
pub proof fn law_signers_know_what_comes_next(row: SignerRow, now: u64)
    ensures
        row.bypass ==> stage(row, now) is Closed,
        !row.bypass && row.gate_expires_at > now && !row.gate_enabled ==> stage(row, now) is Closed,
        !row.bypass && row.gate_expires_at > now && row.gate_enabled && row.key is None ==> stage(
            row,
            now,
        ) is Keyless,
        !row.bypass && row.gate_expires_at > now && row.gate_enabled && row.key is Some ==> stage(
            row,
            now,
        ) == Stage::Ready(row.key->0),
        !row.bypass && row.gate_expires_at <= now && row.gate_neg_until > now ==> stage(
            row,
            now,
        ) is Closed,
        !row.bypass && row.gate_expires_at <= now && row.gate_neg_until <= now ==> stage(
            row,
            now,
        ) is Unknown,
{
}

/// What the switch said holds for an hour; where it could not be asked, it is left
/// alone for a minute, and where it gave no good answer, for half a minute. Key
/// and bypass stay as they are.
pub proof fn law_the_switch_is_remembered(row: SignerRow, outcome: GateOutcome, now: u64)
    requires
        now <= u64::MAX - 3_600_000,
    ensures
        ({
            let a = after_gate(row, outcome, now);
            &&& a.gate_enabled <==> outcome == GateOutcome::Enabled
            &&& outcome == GateOutcome::Enabled || outcome == GateOutcome::Disabled
                ==> a.gate_expires_at == now + 3_600_000 && a.gate_neg_until == now
            &&& outcome == GateOutcome::NetworkFail ==> a.gate_neg_until == now + 60_000
                && a.gate_expires_at == row.gate_expires_at
            &&& outcome == GateOutcome::Unavailable ==> a.gate_neg_until == now + 30_000
                && a.gate_expires_at == row.gate_expires_at
            &&& a.key == row.key
            &&& a.bypass == row.bypass
        }),
        no_signer().key is None && !no_signer().bypass && !no_signer().gate_enabled
            && no_signer().gate_expires_at == 0 && no_signer().gate_neg_until == 0,
{
}

/// A pass that nothing failed asks for what is missing, once, signs where it can,
/// and ends otherwise; it remembers what it asked for and what failed.
pub proof fn law_passes_ask_for_what_is_missing(
    pass: PassRow,
    key: Seq<u8>,
    m: Move,
    ok: bool,
)
    ensures
        !pass.failed ==> next_move(pass, Stage::Ready(key)) == Move::Sign(key),
        !pass.failed && !pass.asked ==> next_move(pass, Stage::Unknown) is AskSwitch,
        !pass.failed && pass.asked ==> next_move(pass, Stage::Unknown) is Stop,
        !pass.failed && !pass.keyed ==> next_move(pass, Stage::Keyless) is AskKey,
        !pass.failed && pass.keyed ==> next_move(pass, Stage::Keyless) is Stop,
        next_move(pass, Stage::Closed) is Stop,
        pass.failed ==> next_move(pass, Stage::Ready(key)) is Stop,
        moved(pass, m).asked <==> pass.asked || m is AskSwitch,
        moved(pass, m).keyed <==> pass.keyed || m is AskKey,
        moved(pass, m).failed == pass.failed && moved(pass, m).began == pass.began,
        told(pass, ok).failed <==> pass.failed || !ok,
        told(pass, ok).asked == pass.asked && told(pass, ok).keyed == pass.keyed && told(
            pass,
            ok,
        ).began == pass.began,
{
}

/// A signed request bears its other headers and a signature of the time it is
/// sent at, with work that was done for its key, its session and that time.
pub proof fn law_signed_requests_bear_work_of_their_own(
    out: Seq<(Seq<char>, Seq<char>)>,
    pairs: Seq<(Seq<char>, Seq<char>)>,
    job: JobRow,
    key: Seq<u8>,
    version: Seq<char>,
    now: u64,
)
    requires
        is_signed(out, pairs, job, key, version, now),
    ensures
        out.len() == cleaned(pairs).len() + 7,
        out.take(cleaned(pairs).len() as int) == cleaned(pairs),
        out.contains(("X-Client-Ts"@, crate::text::decimal(now as nat))),
        out.contains(("X-Session-Id"@, job.session)),
        out.contains(("X-Client-Version"@, version)),
        exists|pow: Seq<char>|
            #[trigger] pow_proves(
                pow_challenge(job.key_id, job.session, crate::text::decimal(now as nat)),
                pow,
            ) && out.contains(("X-Client-Pow"@, pow)),
{
    let ts = crate::text::decimal(now as nat);
    let (nonce, pow) = choose|nonce: Seq<u8>, pow: Seq<char>|
        nonce.len() == 16 && pow_proves(pow_challenge(job.key_id, job.session, ts), pow) && out
            == cleaned(pairs) + #[trigger] signature_pairs(
            job,
            key,
            version,
            ts,
            crate::text::hex(nonce),
            pow,
        );
    let n = cleaned(pairs).len() as int;
    let s = signature_pairs(job, key, version, ts, crate::text::hex(nonce), pow);
    assert(out.take(n) =~= cleaned(pairs));
    assert(out[n] == s[0] && out[n + 1] == s[1] && out[n + 3] == s[3] && out[n + 6] == s[6]);
    assert(out.contains(("X-Client-Pow"@, pow)));
}

/// Work that was done has 32 characters, 24 of a nonce and 8 of a count, and
/// solves its challenge; it is given up only after all counts of a nonce of that
/// length were tried in vain.
pub proof fn law_work_has_a_nonce_and_a_count(challenge: Seq<char>, answer: Seq<char>)
    ensures
        pow_proves(challenge, answer) ==> answer.len() == 32 && pow_solves(challenge, answer),
        pow_exhausted(challenge) ==> exists|nonce: Seq<u8>|
            nonce.len() == 12 && forall|m: nat|
                m <= 0xffff_ffff ==> !pow_solves(
                    challenge,
                    crate::text::hex(nonce) + #[trigger] crate::text::hex_number(m, 8),
                ),
{
    if pow_proves(challenge, answer) {
        let nonce = choose|nonce: Seq<u8>|
            nonce.len() == 12 && #[trigger] pow_first(
                challenge,
                crate::text::hex(nonce),
                answer,
            );
        law_the_first_answer_is_given(challenge, crate::text::hex(nonce), answer, answer);
    }
    if pow_exhausted(challenge) {
        let nonce = choose|nonce: Seq<u8>|
            nonce.len() == 12 && #[trigger] pow_hopeless(challenge, crate::text::hex(nonce));
        assert forall|m: nat| m <= 0xffff_ffff implies !pow_solves(
            challenge,
            crate::text::hex(nonce) + #[trigger] crate::text::hex_number(m, 8),
        ) by {
            assert(!pow_solves(challenge, pow_candidate(crate::text::hex(nonce), m)));
        }
    }
}

} // verus!
