use aes_gcm::aead::{Aead, KeyInit, Payload};
use base64::Engine;
use ed25519_dalek::Verifier;
use hmac::Mac;
use sha2::Digest;
use zcode_gateway::json::{parse, Json};
use zcode_gateway::signing::{
    create_proof_of_work, ct_eq, decrypt_signing_private_key, find_header, handshake_request_with,
    has_leading_zero_bits, is_unsigned_path, parse_signing_credential, read_gate, read_handshake,
    sign_with, solve_challenge, GateOutcome, HandshakeError, KeyError, SignJob, SignOutcome,
    SignPass, SignStep, SigningManager, GATE_FAILURE_COOLDOWN_MS, GATE_TTL_MS,
    GATE_UNAVAILABLE_COOLDOWN_MS,
};

const URL: &str = "https://api.z.ai/api/anthropic/v1/messages";
const SEED: [u8; 32] = [7; 32];

fn json(text: &str) -> Json {
    parse(text).unwrap()
}

fn pair(name: &str, value: &str) -> (String, String) {
    (name.to_string(), value.to_string())
}

fn hkdf(secret: &str, info: &str) -> [u8; 32] {
    let mut okm = [0u8; 32];
    hkdf::Hkdf::<sha2::Sha256>::new(Some(b"WD_CLIENT_SIGN_KDF_SALT"), secret.as_bytes())
        .expand(info.as_bytes(), &mut okm)
        .unwrap();
    okm
}

fn b64(bytes: &[u8]) -> String {
    base64::engine::general_purpose::STANDARD.encode(bytes)
}

fn pkcs8() -> Vec<u8> {
    let mut doc = vec![
        0x30, 0x2e, 0x02, 0x01, 0x00, 0x30, 0x05, 0x06, 0x03, 0x2b, 0x65, 0x70, 0x04, 0x22, 0x04,
        0x20,
    ];
    doc.extend_from_slice(&SEED);
    doc
}

fn sealed(key_id: &str, secret: &str, plain: &[u8]) -> String {
    let key = hkdf(secret, "ed25519_priv");
    let nonce = [3u8; 12];
    let message = aes_gcm::Aes256Gcm::new_from_slice(&key)
        .unwrap()
        .encrypt(
            aes_gcm::Nonce::from_slice(&nonce),
            Payload { msg: plain, aad: key_id.as_bytes() },
        )
        .unwrap();
    let mut all = nonce.to_vec();
    all.extend_from_slice(&message);
    b64(&all)
}

fn job() -> SignJob {
    SignJob {
        state_key: "https://api.z.ai\nid.sec".into(),
        origin: "https://api.z.ai".into(),
        key_id: "id".into(),
        secret: "sec".into(),
        session: "sess".into(),
    }
}

fn value<'a>(pairs: &'a [(String, String)], name: &str) -> &'a str {
    let found: Vec<&(String, String)> = pairs.iter().filter(|(k, _)| k == name).collect();
    assert_eq!(found.len(), 1, "{name}");
    &found[0].1
}

#[test]
fn credential_parsing() {
    assert!(parse_signing_credential("id.secret").is_some());
    assert!(parse_signing_credential("id.secret.extra").is_none());
    assert!(parse_signing_credential("nokey").is_none());
    assert!(parse_signing_credential(".secret").is_none());
    assert!(parse_signing_credential("id.").is_none());
}

#[test]
fn pow_leading_zero_bits() {
    assert!(has_leading_zero_bits(&[0x00, 0xff], 8));
    assert!(has_leading_zero_bits(&[0x00, 0x3f], 10));
    assert!(!has_leading_zero_bits(&[0x01, 0x00], 8));
    assert!(has_leading_zero_bits(&[0x00, 0x00], 16));
    assert!(!has_leading_zero_bits(&[0x00, 0x80], 16));
    assert!(has_leading_zero_bits(&[], 0));
}

#[test]
fn unsigned_paths() {
    assert!(is_unsigned_path("/api/v1/zcode-plan/anthropic/v1/messages"));
    assert!(is_unsigned_path("/api/v1/zcode-plan/anthropic/v1/messages/"));
    assert!(!is_unsigned_path("/api/anthropic/v1/messages"));
}

#[test]
fn verify_failure_detection() {
    let body = r#"{"code":401,"msg":"VERIFY_SIGNATURE_INVALID"}"#;
    assert!(SigningManager::is_verify_failure(401, body));
    assert!(!SigningManager::is_verify_failure(200, body));
    assert!(!SigningManager::is_verify_failure(401, r#"{"msg":"other"}"#));
}

#[test]
fn pow_solves_quickly() {
    let start = std::time::Instant::now();
    let answer = create_proof_of_work("testkey", "session", "123").unwrap();
    assert!(!answer.is_empty());
    assert!(start.elapsed().as_secs() < 5);
}

#[test]
fn rejections_stand_in_five_places() {
    for body in [
        r#"{"msg":"VERIFY_APIKEY_EXPIRED"}"#,
        r#"{"reason":"VERIFY_APIKEY_EXPIRED"}"#,
        r#"{"data":{"reason":"VERIFY_SIGNATURE_INVALID"}}"#,
        r#"{"error":{"reason":"VERIFY_SIGNATURE_INVALID"}}"#,
        r#"{"error":{"message":"VERIFY_SIGNATURE_INVALID"}}"#,
    ] {
        assert!(SigningManager::is_verify_failure(401, body), "{body}");
    }
    assert!(!SigningManager::is_verify_failure(401, "null"));
    assert!(!SigningManager::is_verify_failure(401, "VERIFY_SIGNATURE_INVALID"));
}

#[test]
fn proof_of_work_solves_its_challenge() {
    let seed = sha2::Sha256::digest(b"key\nzcode\nsession\n42");
    let hex: String = seed.iter().map(|b| format!("{b:02x}")).collect();
    let answer = create_proof_of_work("key", "session", "42").unwrap();
    assert_eq!(answer.len(), 32);
    let digest = sha2::Sha256::digest(format!("{}\n{answer}", &hex[..32]).as_bytes());
    assert_eq!(digest[0], 0);
}

#[test]
fn first_answer_is_taken() {
    let answer = solve_challenge("abc", "n").unwrap();
    let counter = u32::from_str_radix(&answer[1..], 16).unwrap();
    for c in 0..=counter {
        let digest = sha2::Sha256::digest(format!("abc\nn{c:08x}").as_bytes());
        assert_eq!(digest[0] == 0, c == counter, "{c}");
    }
}

#[test]
fn headers_are_found_whatever_their_case() {
    let pairs = vec![pair("X-A", "1"), pair("x-a", "2")];
    assert_eq!(find_header(&pairs, "x-A").as_deref(), Some("1"));
    assert_eq!(find_header(&pairs, "y"), None);
}

#[test]
fn slices_are_compared() {
    assert!(ct_eq(b"abc", b"abc"));
    assert!(!ct_eq(b"abc", b"abd"));
    assert!(!ct_eq(b"abc", b"ab"));
}

#[test]
fn private_keys_are_opened() {
    let cipher = sealed("id", "sec", b64(&pkcs8()).as_bytes());
    assert_eq!(decrypt_signing_private_key("id", "sec", &cipher), Ok(SEED.to_vec()));
    assert_eq!(decrypt_signing_private_key("other", "sec", &cipher), Err(KeyError::Sealed));
    assert_eq!(decrypt_signing_private_key("id", "sec", "*"), Err(KeyError::NotBase64));
    assert_eq!(
        decrypt_signing_private_key("id", "sec", &b64(&[0; 28])),
        Err(KeyError::TooShort)
    );
    assert_eq!(
        decrypt_signing_private_key("id", "sec", &sealed("id", "sec", b"\xff\xfe")),
        Err(KeyError::NotText)
    );
    assert_eq!(
        decrypt_signing_private_key("id", "sec", &sealed("id", "sec", b"***")),
        Err(KeyError::InnerNotBase64)
    );
    assert_eq!(
        decrypt_signing_private_key("id", "sec", &sealed("id", "sec", b"AAAA")),
        Err(KeyError::NoKey)
    );
}

#[test]
fn handshakes_are_authenticated() {
    let r = handshake_request_with("id", "sec", "https://o", "5", "nn");
    assert_eq!(r.url, "https://o/api/paas/c1f3a7e2/v2/client");
    assert_eq!(r.authorization, "id.sec");
    let mut mac = <hmac::Hmac<sha2::Sha256> as Mac>::new_from_slice(&hkdf("sec", "getSignKey_hmac"))
        .unwrap();
    mac.update(b"get_sign_key\nid\n5\nnn");
    let sig = b64(&mac.finalize().into_bytes());
    let body = json(&r.body);
    assert_eq!(body.str_at("apiKey"), Some("id.sec"));
    assert_eq!(body.str_at("nonce"), Some("nn"));
    assert_eq!(body.str_at("ts"), Some("5"));
    assert_eq!(body.str_at("sig"), Some(sig.as_str()));
}

#[test]
fn handshake_answers_are_read() {
    assert!(matches!(read_handshake("id", "sec", 500, None), Err(HandshakeError::Http(500))));
    assert!(matches!(read_handshake("id", "sec", 200, None), Err(HandshakeError::NotJson)));
    let server = json(r#"{"code":500}"#);
    assert!(matches!(read_handshake("id", "sec", 200, Some(&server)), Err(HandshakeError::Server)));
    let refused = json(r#"{"code":403,"msg":"no"}"#);
    match read_handshake("id", "sec", 200, Some(&refused)) {
        Err(HandshakeError::Rejected(msg)) => assert_eq!(msg, "no"),
        _ => panic!("refused"),
    }
    match read_handshake("id", "sec", 200, Some(&json("{}"))) {
        Err(HandshakeError::Rejected(msg)) => assert_eq!(msg, "?"),
        _ => panic!("refused"),
    }
    let none = json(r#"{"code":200,"data":{}}"#);
    assert!(matches!(read_handshake("id", "sec", 200, Some(&none)), Err(HandshakeError::NoCipher)));
    let bad = json(r#"{"code":200,"data":{"privateCipher":"*"}}"#);
    assert!(matches!(
        read_handshake("id", "sec", 200, Some(&bad)),
        Err(HandshakeError::Key(KeyError::NotBase64))
    ));
}

#[test]
fn gate_answers_are_read() {
    let on = json(r#"{"code":0,"data":{"codingPlanSignature":{"enable":true}}}"#);
    let off = json(r#"{"code":0,"data":{"codingPlanSignature":{"enable":false}}}"#);
    assert_eq!(read_gate(true, Some(&on)), GateOutcome::Enabled);
    assert_eq!(read_gate(true, Some(&off)), GateOutcome::Disabled);
    assert_eq!(read_gate(true, Some(&json(r#"{"code":0}"#))), GateOutcome::Disabled);
    assert_eq!(read_gate(true, Some(&json(r#"{"code":1}"#))), GateOutcome::Unavailable);
    assert_eq!(read_gate(true, None), GateOutcome::Unavailable);
    assert_eq!(read_gate(false, Some(&on)), GateOutcome::Unavailable);
}

#[test]
fn signatures_verify() {
    let pairs = vec![
        pair("a", "b"),
        pair("X-Session-Id", " sess "),
        pair("x-client-pow", "stale"),
        pair("c", "d"),
    ];
    let out = sign_with(&pairs, &job(), &SEED.to_vec(), "9.9", "111", "nonce", "pow");
    assert!(out.signed);
    assert_eq!(out.pairs.len(), 9);
    assert_eq!(out.pairs[0], pair("a", "b"));
    assert_eq!(out.pairs[1], pair("c", "d"));
    assert_eq!(value(&out.pairs, "X-Client-Ts"), "111");
    assert_eq!(value(&out.pairs, "X-Client-Version"), "9.9");
    assert_eq!(value(&out.pairs, "X-Session-Id"), "sess");
    assert_eq!(value(&out.pairs, "X-Client-Nonce"), "nonce");
    assert_eq!(value(&out.pairs, "X-App-Id"), "zcode");
    assert_eq!(value(&out.pairs, "X-Client-Pow"), "pow");
    let sig = base64::engine::general_purpose::STANDARD
        .decode(value(&out.pairs, "X-Client-Sig"))
        .unwrap();
    let sig: [u8; 64] = sig.try_into().unwrap();
    let key = ed25519_dalek::SigningKey::from_bytes(&SEED).verifying_key();
    let sig = ed25519_dalek::Signature::from_bytes(&sig);
    assert!(key.verify(b"id\n111\n9.9\nsess\nnonce", &sig).is_ok());
    assert!(key.verify(b"id 111 9.9 sess nonce", &sig).is_err());
}

fn manager() -> SigningManager {
    SigningManager::new(None, vec![pair("u", "v")])
}

fn step(m: &SigningManager, now: u64) -> SignStep {
    let pairs = vec![pair("x-session-id", "sess"), pair("k", "v")];
    m.sign(URL, &pairs, "id.sec", "1.0", now, 1_700_000_000_000)
}

fn done(s: SignStep) -> SignOutcome {
    match s {
        SignStep::Done(out) => out,
        _ => panic!("the pass is not done"),
    }
}

#[test]
fn signing_takes_gate_and_key() {
    let mut m = manager();
    assert_eq!(m.gate_url(), "https://zcode.z.ai/api/v1/agent/configs");
    assert_eq!(m.gate_headers("id.sec"), vec![pair("u", "v"), pair("x-api-key", "id.sec")]);
    let j = match step(&m, 0) {
        SignStep::Probe(j) => j,
        _ => panic!("the switch was not asked"),
    };
    assert_eq!(j.state_key, "https://api.z.ai\nid.sec");
    m.gate_answered(&j.state_key, GateOutcome::Enabled, 0);
    let j = match step(&m, 1) {
        SignStep::Handshake(j) => j,
        _ => panic!("there is no key"),
    };
    let request = m.handshake_request(&j, 9);
    assert_eq!(json(&request.body).str_at("nonce").unwrap().len(), 32);
    let cipher = sealed("id", "sec", b64(&pkcs8()).as_bytes());
    let answer = json(&format!(r#"{{"code":200,"data":{{"privateCipher":"{cipher}"}}}}"#));
    assert!(m.handshake_answered(&j, 401, Some(&answer)).is_err());
    assert!(m.handshake_answered(&j, 200, Some(&answer)).is_ok());
    let out = done(step(&m, 2));
    assert!(out.signed);
    assert_eq!(value(&out.pairs, "X-Client-Ts"), "1700000000000");
    assert_eq!(value(&out.pairs, "X-Client-Nonce").len(), 32);
    m.invalidate(URL, "id.sec");
    assert!(matches!(step(&m, 3), SignStep::Handshake(_)));
    m.set_bypass(URL, "id.sec");
    let out = done(step(&m, 4));
    assert!(!out.signed);
    assert_eq!(out.pairs, vec![pair("x-session-id", "sess"), pair("k", "v")]);
    m.gate_answered(&j.state_key, GateOutcome::Enabled, GATE_TTL_MS * 2);
    assert!(!done(step(&m, GATE_TTL_MS * 2)).signed);
}

#[test]
fn gate_is_left_alone_for_a_while() {
    let mut m = manager();
    let key = "https://api.z.ai\nid.sec";
    m.gate_answered(key, GateOutcome::Unavailable, 0);
    assert!(!done(step(&m, GATE_UNAVAILABLE_COOLDOWN_MS - 1)).signed);
    assert!(matches!(step(&m, GATE_UNAVAILABLE_COOLDOWN_MS), SignStep::Probe(_)));
    m.gate_answered(key, GateOutcome::NetworkFail, 0);
    assert!(!done(step(&m, GATE_FAILURE_COOLDOWN_MS - 1)).signed);
    assert!(matches!(step(&m, GATE_FAILURE_COOLDOWN_MS), SignStep::Probe(_)));
    m.gate_answered(key, GateOutcome::Disabled, 0);
    assert!(!done(step(&m, GATE_TTL_MS - 1)).signed);
    assert!(matches!(step(&m, GATE_TTL_MS), SignStep::Probe(_)));
}

#[test]
fn requests_that_do_not_apply_go_as_they_are() {
    let m = manager();
    let session = pair("x-session-id", "s");
    let cases: Vec<(&str, Vec<(String, String)>, &str)> = vec![
        ("http://api.z.ai/x", vec![session.clone()], "id.sec"),
        ("nonsense", vec![session.clone()], "id.sec"),
        (
            "https://zcode.z.ai/api/v1/zcode-plan/anthropic/v1/messages",
            vec![session.clone()],
            "id.sec",
        ),
        (URL, vec![session.clone(), pair("X-Client-Sig", "s")], "id.sec"),
        (URL, vec![session.clone()], "id"),
        (URL, vec![pair("x-session-id", "  ")], "id.sec"),
        (URL, vec![], "id.sec"),
    ];
    for (url, pairs, credential) in cases {
        let out = done(m.sign(url, &pairs, credential, "1", 0, 0));
        assert!(!out.signed, "{url}");
        assert_eq!(out.pairs, pairs);
    }
}

#[test]
fn failures_end_the_pass() {
    let pairs = vec![pair("x-session-id", "sess"), pair("k", "v")];
    let mut m = manager();
    for outcome in [GateOutcome::Disabled, GateOutcome::NetworkFail, GateOutcome::Unavailable] {
        let mut pass = SignPass::new(0);
        assert!(matches!(pass.advance(&m, URL, &pairs, "id.sec", "1", 9), SignStep::Probe(_)));
        pass.switch_said(outcome);
        let out = done(pass.advance(&m, URL, &pairs, "id.sec", "1", 9));
        assert!(!out.signed);
        assert_eq!(out.pairs, pairs);
    }
    let mut pass = SignPass::new(0);
    let job = match pass.advance(&m, URL, &pairs, "id.sec", "1", 9) {
        SignStep::Probe(job) => job,
        _ => panic!("the switch was not asked"),
    };
    pass.switch_said(GateOutcome::Enabled);
    m.gate_answered(&job.state_key, GateOutcome::Enabled, 5);
    assert!(matches!(pass.advance(&m, URL, &pairs, "id.sec", "1", 9), SignStep::Handshake(_)));
    pass.key_came(false);
    let out = done(pass.advance(&m, URL, &pairs, "id.sec", "1", 9));
    assert!(!out.signed);
    assert_eq!(out.pairs, pairs);
}

#[test]
fn passes_ask_once() {
    let pairs = vec![pair("x-session-id", "sess")];
    let mut m = manager();
    let mut pass = SignPass::new(0);
    assert!(matches!(pass.advance(&m, URL, &pairs, "id.sec", "1", 9), SignStep::Probe(_)));
    pass.switch_said(GateOutcome::Enabled);
    assert!(!done(pass.advance(&m, URL, &pairs, "id.sec", "1", 9)).signed);
    m.gate_answered("https://api.z.ai\nid.sec", GateOutcome::Enabled, 0);
    let mut pass = SignPass::new(1);
    let job = match pass.advance(&m, URL, &pairs, "id.sec", "1", 9) {
        SignStep::Handshake(job) => job,
        _ => panic!("there is no key"),
    };
    pass.key_came(true);
    assert!(!done(pass.advance(&m, URL, &pairs, "id.sec", "1", 9)).signed);
    let cipher = sealed("id", "sec", b64(&pkcs8()).as_bytes());
    let answer = json(&format!(r#"{{"code":200,"data":{{"privateCipher":"{cipher}"}}}}"#));
    assert!(m.handshake_answered(&job, 200, Some(&answer)).is_ok());
    assert!(done(pass.advance(&m, URL, &pairs, "id.sec", "1", 9)).signed);
}
