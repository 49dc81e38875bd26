use base64::engine::general_purpose::{STANDARD, URL_SAFE_NO_PAD};
use base64::Engine;
use ed25519_dalek::pkcs8::EncodePrivateKey;
use ed25519_dalek::{Signature, SigningKey, Verifier, VerifyingKey};
use vnc_bridge::bootstrap::{
    bootstrap_with_retry, either_decoded, exhausted_message, extract_ed25519_seed,
    failure_message, fetch_bootstrap, headers_from_values, is_success, key_document,
    keys_from_pair, keys_from_private, load_agent_keys, parsed_seed, sign_request, sign_with_nonce, signing_text,
    AgentKeyPair, BootstrapResponse, KeyError, KeyFile, RetryAction, RetryEvent, BOOTSTRAP_PATH,
};

/// A seed whose base64 differs between the two alphabets.
fn seed() -> [u8; 32] {
    let mut seed = [0xfbu8; 32];
    seed[0] = 0xff;
    seed[31] = 7;
    seed
}

fn public_key_of(seed: &[u8; 32]) -> [u8; 32] {
    SigningKey::from_bytes(seed).verifying_key().to_bytes()
}

fn key_file(public_key: &str, private_key: &str) -> Option<KeyFile> {
    Some(KeyFile {
        public_key: public_key.to_string(),
        private_key: private_key.to_string(),
    })
}

fn response(token: &str, topic: &str) -> BootstrapResponse {
    BootstrapResponse {
        mqtt_url: "wss://mqtt.example/mqtt".to_string(),
        mqtt_token: token.to_string(),
        device_topic: topic.to_string(),
        ice_servers: Vec::new(),
        expires_at: 17,
    }
}

#[test]
fn bare_seed_in_standard_base64() {
    let text = format!(" \n{}\t\n", STANDARD.encode(seed()));
    assert!(key_document(&text).is_none());
    let keys = load_agent_keys(&text, None).ok().unwrap();
    assert_eq!(keys.signing_key, seed());
    assert_eq!(keys.public_key_bytes, public_key_of(&seed()));
}

#[test]
fn bare_seed_in_url_safe_base64() {
    let text = URL_SAFE_NO_PAD.encode(seed());
    assert!(text.contains('_') || text.contains('-'));
    assert!(STANDARD.decode(&text).is_err());
    let keys = load_agent_keys(&text, None).ok().unwrap();
    assert_eq!(keys.signing_key, seed());
}

#[test]
fn white_space_around_a_key_file_changes_nothing() {
    let text = STANDARD.encode(seed());
    let padded = format!("\u{a0}\r\n {text}\u{3000}\n");
    let keys = load_agent_keys(&padded, None).ok().unwrap();
    let same = load_agent_keys(&text, None).ok().unwrap();
    assert_eq!(keys.signing_key, same.signing_key);
    assert_eq!(keys.public_key_bytes, same.public_key_bytes);
}

#[test]
fn bare_key_ignores_a_parsed_document() {
    let other = STANDARD.encode([1u8; 32]);
    let keys = load_agent_keys(&STANDARD.encode(seed()), key_file(&other, &other)).ok().unwrap();
    assert_eq!(keys.signing_key, seed());
}

#[test]
fn bare_key_that_is_no_base64() {
    let refused = load_agent_keys("not base64!", None).err().unwrap();
    assert!(matches!(refused, KeyError::DecodeRawKey(_)));
    assert_eq!(refused.context(), "decode raw key");
}

#[test]
fn json_document_is_found_behind_white_space() {
    let raw = " \n{\"publicKey\":\"a\",\"privateKey\":\"b\"} \n";
    assert_eq!(
        key_document(raw),
        Some("{\"publicKey\":\"a\",\"privateKey\":\"b\"}")
    );
    assert_eq!(key_document(""), None);
    assert_eq!(key_document("x{"), None);
}

#[test]
fn json_keys_keep_the_public_key_of_the_file() {
    let file = key_file(&URL_SAFE_NO_PAD.encode([0xfeu8; 32]), &STANDARD.encode(seed()));
    let keys = load_agent_keys("{}", file).ok().unwrap();
    assert_eq!(keys.signing_key, seed());
    assert_eq!(keys.public_key_bytes, [0xfeu8; 32]);
}

#[test]
fn json_that_could_not_be_parsed() {
    let refused = load_agent_keys("{", None).err().unwrap();
    assert!(matches!(refused, KeyError::ParseJson));
    assert_eq!(refused.context(), "parse key JSON");
}

#[test]
fn json_faults_come_in_order() {
    let good = STANDARD.encode([3u8; 32]);
    let refused = load_agent_keys("{}", key_file("!", "!")).err().unwrap();
    assert!(matches!(refused, KeyError::DecodePrivateKey(_)));
    assert_eq!(refused.context(), "decode privateKey");
    let refused = load_agent_keys("{}", key_file("!", &STANDARD.encode([9u8; 5]))).err().unwrap();
    assert!(matches!(refused, KeyError::Pkcs8(_)));
    assert_eq!(refused.context(), "parse PKCS#8 DER");
    let refused = load_agent_keys("{}", key_file("!", &good)).err().unwrap();
    assert!(matches!(refused, KeyError::DecodePublicKey(_)));
    assert_eq!(refused.context(), "decode publicKey");
    let refused =
        load_agent_keys("{}", key_file(&STANDARD.encode([9u8; 33]), &good)).err().unwrap();
    assert!(matches!(refused, KeyError::PublicKeyLength(33)));
    assert_eq!(refused.context(), "publicKey is 33 bytes, expected 32");
}

#[test]
fn seed_of_48_bytes_is_the_last_32() {
    let mut bytes = vec![0u8; 16];
    bytes.extend_from_slice(&seed());
    assert_eq!(extract_ed25519_seed(&bytes).ok().unwrap(), seed());
}

#[test]
fn seed_of_a_longer_pkcs8_document() {
    let document = SigningKey::from_bytes(&seed()).to_pkcs8_der().unwrap();
    let bytes = document.as_bytes();
    assert!(bytes.len() != 32 && bytes.len() != 48);
    assert_eq!(extract_ed25519_seed(bytes).ok().unwrap(), seed());
    let keys = load_agent_keys(&STANDARD.encode(bytes), None).ok().unwrap();
    assert_eq!(keys.public_key_bytes, public_key_of(&seed()));
}

#[test]
fn seed_of_anything_else_is_refused() {
    assert!(matches!(extract_ed25519_seed(&[]), Err(KeyError::Pkcs8(_))));
    assert!(matches!(extract_ed25519_seed(&[0u8; 47]), Err(KeyError::Pkcs8(_))));
}

#[test]
fn standard_alphabet_goes_first_and_the_other_gives_the_error() {
    let invalid = |byte: u8| base64::DecodeError::InvalidByte(0, byte);
    assert_eq!(either_decoded(Ok(vec![1]), Ok(vec![2])), Ok(vec![1]));
    assert_eq!(either_decoded(Ok(vec![1]), Err(invalid(2))), Ok(vec![1]));
    assert_eq!(either_decoded(Err(invalid(1)), Ok(vec![2])), Ok(vec![2]));
    assert_eq!(either_decoded(Err(invalid(1)), Err(invalid(2))), Err(invalid(2)));
    let padded = STANDARD.encode([7u8; 31]).replace('=', "=!");
    match load_agent_keys(&padded, None) {
        Err(KeyError::DecodeRawKey(e)) => {
            assert_eq!(e, URL_SAFE_NO_PAD.decode(&padded).err().unwrap());
        }
        _ => panic!("the key is refused"),
    }
}

#[test]
fn parser_error_is_the_cause_of_a_refused_document() {
    assert_eq!(parsed_seed(Ok([4u8; 32])).ok(), Some([4u8; 32]));
    let key_malformed = ed25519_dalek::pkcs8::Error::KeyMalformed;
    match parsed_seed(Err(key_malformed)) {
        Err(KeyError::Pkcs8(e)) => assert_eq!(e, key_malformed),
        _ => panic!("the document is refused"),
    }
}

#[test]
fn refusals_carry_the_cause_of_their_own_key() {
    let invalid = |byte: u8| base64::DecodeError::InvalidByte(0, byte);
    match keys_from_pair(Err(invalid(1)), Err(invalid(2))) {
        Err(KeyError::DecodePrivateKey(e)) => assert_eq!(e, invalid(1)),
        _ => panic!("the private key comes first"),
    }
    match keys_from_pair(Ok(vec![5u8; 32]), Err(invalid(2))) {
        Err(KeyError::DecodePublicKey(e)) => assert_eq!(e, invalid(2)),
        _ => panic!("the public key is refused"),
    }
    match keys_from_private(Err(invalid(3))) {
        Err(KeyError::DecodeRawKey(e)) => assert_eq!(e, invalid(3)),
        _ => panic!("the bare key is refused"),
    }
}

#[test]
fn keys_from_decoded_bytes() {
    let keys = keys_from_pair(Ok(vec![5u8; 32]), Ok(vec![6u8; 32])).ok().unwrap();
    assert_eq!(keys.signing_key, [5u8; 32]);
    assert_eq!(keys.public_key_bytes, [6u8; 32]);
    let short = keys_from_pair(Ok(vec![5u8; 32]), Ok(Vec::new()));
    assert!(matches!(short, Err(KeyError::PublicKeyLength(0))));
    let alone = keys_from_private(Ok(seed().to_vec())).ok().unwrap();
    assert_eq!(alone.public_key_bytes, public_key_of(&seed()));
}

fn keys() -> AgentKeyPair {
    AgentKeyPair {
        signing_key: seed(),
        public_key_bytes: public_key_of(&seed()),
    }
}

#[test]
fn signed_text_joins_with_bars() {
    assert_eq!(signing_text("GET", "/a/b", 1700000000, "n-1"), "GET|/a/b|1700000000|n-1");
    assert_eq!(signing_text("", "", 0, ""), "||0|");
}

#[test]
fn signed_texts_of_different_requests_differ() {
    let base = signing_text("GET", "/a|1", 2, "n");
    assert_ne!(base, signing_text("GET", "/a", 12, "n"));
    assert_ne!(base, signing_text("GET", "/a|1", 2, "m"));
    assert_ne!(base, signing_text("PUT", "/a|1", 2, "n"));
    assert_ne!(base, signing_text("GET", "/a", 1, "n"));
}

#[test]
fn signature_verifies_under_the_public_key() {
    let headers = sign_with_nonce("get", "/p", &keys(), 42, "abc");
    assert_eq!(headers.len(), 4);
    assert_eq!(headers[0].0, "X-Agent-Public-Key");
    assert_eq!(headers[1].0, "X-Agent-Signature");
    assert_eq!(headers[2], ("X-Agent-Timestamp".to_string(), "42".to_string()));
    assert_eq!(headers[3], ("X-Agent-Nonce".to_string(), "abc".to_string()));
    let public: [u8; 32] = STANDARD.decode(&headers[0].1).unwrap().try_into().unwrap();
    assert_eq!(public, public_key_of(&seed()));
    let signature: [u8; 64] = STANDARD.decode(&headers[1].1).unwrap().try_into().unwrap();
    let key = VerifyingKey::from_bytes(&public).unwrap();
    key.verify(b"GET|/p|42|abc", &Signature::from_bytes(&signature)).unwrap();
    assert_eq!(signature.len(), 64);
    assert!(key.verify(b"get|/p|42|abc", &Signature::from_bytes(&signature)).is_err());
}

#[test]
fn verbs_are_capitalised_beyond_ascii() {
    let headers = sign_with_nonce("stra\u{df}e", "/p", &keys(), 1, "n");
    let signature: [u8; 64] = STANDARD.decode(&headers[1].1).unwrap().try_into().unwrap();
    let key = VerifyingKey::from_bytes(&public_key_of(&seed())).unwrap();
    key.verify(b"STRASSE|/p|1|n", &Signature::from_bytes(&signature)).unwrap();
}

#[test]
fn nonce_is_a_random_uuid() {
    let first = sign_request("GET", "/p", &keys(), 1);
    let second = sign_request("GET", "/p", &keys(), 1);
    let nonce = &first[3].1;
    assert_eq!(nonce.len(), 36);
    let chars: Vec<char> = nonce.chars().collect();
    for i in 0..36 {
        if i == 8 || i == 13 || i == 18 || i == 23 {
            assert_eq!(chars[i], '-');
        } else {
            assert!(chars[i].is_ascii_digit() || ('a'..='f').contains(&chars[i]));
        }
    }
    assert_eq!(chars[14], '4');
    assert!("89ab".contains(chars[19]));
    assert!(!nonce.contains('|'));
    assert_ne!(nonce, &second[3].1);
}

#[test]
fn header_values_are_kept() {
    let headers = headers_from_values("pk".to_string(), "sig".to_string(), 9, "n");
    let values: Vec<&str> = headers.iter().map(|h| h.1.as_str()).collect();
    assert_eq!(values, vec!["pk", "sig", "9", "n"]);
}

#[test]
fn bootstrap_request_for_a_gateway() {
    let request = fetch_bootstrap("https://gw.example//", &keys(), 1700000000);
    assert_eq!(request.url, "https://gw.example/api/v1/device/bootstrap");
    assert_eq!(request.timeout_secs, 10);
    let nonce = &request.headers[3].1;
    let signature: [u8; 64] =
        STANDARD.decode(&request.headers[1].1).unwrap().try_into().unwrap();
    let message = format!("GET|{BOOTSTRAP_PATH}|1700000000|{nonce}");
    let key = VerifyingKey::from_bytes(&public_key_of(&seed())).unwrap();
    key.verify(message.as_bytes(), &Signature::from_bytes(&signature)).unwrap();
}

#[test]
fn bootstrap_url_without_slash() {
    let request = fetch_bootstrap("http://gw", &keys(), 1);
    assert_eq!(request.url, "http://gw/api/v1/device/bootstrap");
}

#[test]
fn success_statuses() {
    assert!(!is_success(199));
    assert!(is_success(200));
    assert!(is_success(299));
    assert!(!is_success(300));
    assert!(!is_success(404));
}

#[test]
fn failure_message_cuts_the_body() {
    assert_eq!(
        failure_message("404 Not Found", Some("gone")),
        "bootstrap failed (HTTP 404 Not Found): gone"
    );
    let long = "x".repeat(300);
    assert_eq!(
        failure_message("500", Some(long.as_str())),
        format!("bootstrap failed (HTTP 500): {}", "x".repeat(200))
    );
    let wide = "\u{e9}".repeat(150);
    assert_eq!(
        failure_message("500", Some(wide.as_str())),
        format!("bootstrap failed (HTTP 500): {}", "\u{e9}".repeat(100))
    );
}

#[test]
fn body_that_could_not_be_read_counts_as_empty() {
    let message = failure_message("502 Bad Gateway", None);
    assert_eq!(message, "bootstrap failed (HTTP 502 Bad Gateway): ");
    assert_eq!(message, failure_message("502 Bad Gateway", Some("")));
}

#[test]
fn retry_takes_the_first_usable_credentials() {
    let mut retry = bootstrap_with_retry(5);
    assert!(matches!(retry.on_event(RetryEvent::Started), RetryAction::Fetch));
    assert!(matches!(retry.on_event(RetryEvent::FetchFailed), RetryAction::Sleep(5)));
    assert!(matches!(retry.on_event(RetryEvent::Slept), RetryAction::Fetch));
    let no_token = RetryEvent::Fetched(response("", "devices/1"));
    assert!(matches!(retry.on_event(no_token), RetryAction::Sleep(10)));
    assert!(matches!(retry.on_event(RetryEvent::Slept), RetryAction::Fetch));
    let no_topic = RetryEvent::Fetched(response("t", ""));
    assert!(matches!(retry.on_event(no_topic), RetryAction::Sleep(20)));
    assert!(matches!(retry.on_event(RetryEvent::Slept), RetryAction::Fetch));
    match retry.on_event(RetryEvent::Fetched(response("t", "devices/1"))) {
        RetryAction::Done(done) => {
            assert_eq!(done.mqtt_token, "t");
            assert_eq!(done.device_topic, "devices/1");
            assert_eq!(done.expires_at, 17);
        }
        _ => panic!("usable credentials must end the retries"),
    }
}

#[test]
fn retry_is_exhausted_after_the_last_pause() {
    let mut retry = bootstrap_with_retry(8);
    assert!(matches!(retry.on_event(RetryEvent::Started), RetryAction::Fetch));
    let mut pauses = Vec::new();
    loop {
        match retry.on_event(RetryEvent::FetchFailed) {
            RetryAction::Sleep(secs) => pauses.push(secs),
            _ => panic!("a failed fetch must be followed by a pause"),
        }
        match retry.on_event(RetryEvent::Slept) {
            RetryAction::Fetch => {}
            RetryAction::Exhausted(attempts) => {
                assert_eq!(attempts, 8);
                break;
            }
            _ => panic!("a pause must be followed by a fetch or the end"),
        }
    }
    assert_eq!(pauses, vec![5, 10, 20, 40, 60, 60, 60, 60]);
    assert_eq!(exhausted_message(8), "bootstrap retries exhausted after 8 attempts");
}

#[test]
fn retry_without_attempts() {
    let mut retry = bootstrap_with_retry(0);
    assert!(matches!(retry.on_event(RetryEvent::Started), RetryAction::Exhausted(0)));
}
