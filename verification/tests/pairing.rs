use moonshine::pairing::{
    client_challenge, client_pairing_secret, handle_pair_request, handle_pin_request,
    pair_challenge, server_cert_reply, PairOutcome,
};
use moonshine::registry::{ClientRegistry, PairError};

fn make_cert_pem() -> Vec<u8> {
    let rsa = openssl::rsa::Rsa::generate(2048).unwrap();
    let pkey = openssl::pkey::PKey::from_rsa(rsa).unwrap();
    let mut name = openssl::x509::X509NameBuilder::new().unwrap();
    name.append_entry_by_text("CN", "client").unwrap();
    let name = name.build();
    let mut builder = openssl::x509::X509::builder().unwrap();
    builder.set_subject_name(&name).unwrap();
    builder.set_issuer_name(&name).unwrap();
    builder.set_pubkey(&pkey).unwrap();
    let not_before = openssl::asn1::Asn1Time::days_from_now(0).unwrap();
    let not_after = openssl::asn1::Asn1Time::days_from_now(1).unwrap();
    builder.set_not_before(&not_before).unwrap();
    builder.set_not_after(&not_after).unwrap();
    builder
        .sign(&pkey, openssl::hash::MessageDigest::sha256())
        .unwrap();
    builder.build().to_pem().unwrap()
}

fn params(list: &[(&str, &str)]) -> Vec<(String, String)> {
    list.iter()
        .map(|(k, v)| (k.to_string(), v.to_string()))
        .collect()
}

fn ecb_raw(key: &[u8], data: &[u8], mode: openssl::symm::Mode) -> Vec<u8> {
    let cipher = openssl::symm::Cipher::aes_128_ecb();
    let mut c = openssl::symm::Crypter::new(cipher, mode, key, None).unwrap();
    c.pad(false);
    let mut out = vec![0u8; data.len() + 16];
    let count = c.update(data, &mut out).unwrap();
    let rest = c.finalize(&mut out[count..]).unwrap();
    out.truncate(count + rest);
    out
}

/// The full five-step handshake with salt zero and PIN 1234: the
/// derived key is the first half of SHA-256 of the salt and the PIN,
/// and the registry ends up with the new client.
#[test]
fn happy_path_pair() {
    let mut registry = ClientRegistry::new();
    let cert = make_cert_pem();
    let cert_sig: Vec<u8> = vec![7, 7, 7, 7];
    let salt_hex = "00000000000000000000000000000000";
    let cert_hex = hex::encode(&cert);

    let outcome = handle_pair_request(
        &mut registry,
        &params(&[
            ("phrase", "getservercert"),
            ("clientcert", cert_hex.as_str()),
            ("salt", salt_hex),
            ("uniqueid", "0123456789ABCDEF"),
        ]),
        &cert_sig,
    );
    assert!(matches!(outcome, PairOutcome::PinPending));

    let pin_reply = handle_pin_request(
        &mut registry,
        &params(&[("uniqueid", "0123456789ABCDEF"), ("pin", "1234")]),
    );
    assert_eq!(pin_reply.status, 200);

    let expected_key = hex::decode("e4ae0c82639990744974cc3495a82432").unwrap();
    let mut sha_input = vec![0u8; 16];
    sha_input.extend_from_slice(b"1234");
    let expected_key_again = openssl::sha::sha256(&sha_input)[..16].to_vec();
    assert_eq!(expected_key, expected_key_again);
    let stored_key = registry.pending[0].key.clone().unwrap();
    assert_eq!(stored_key, expected_key);

    let server_pem = b"-----BEGIN CERTIFICATE-----\nAA==\n-----END CERTIFICATE-----\n".to_vec();
    let cert_reply = server_cert_reply(&server_pem);
    assert_eq!(cert_reply.status, 200);
    let expected_body = format!(
        "<root status_code=\"200\"><paired>1</paired><plaincert>{}</plaincert></root>",
        hex::encode(&server_pem)
    );
    assert_eq!(cert_reply.body, expected_body);

    // Step 2: the client poses a challenge.
    let challenge_plain = [9u8; 16];
    let challenge_ct = ecb_raw(&expected_key, &challenge_plain, openssl::symm::Mode::Encrypt);
    let reply = client_challenge(
        &mut registry,
        &params(&[
            ("uniqueid", "0123456789ABCDEF"),
            ("clientchallenge", hex::encode(&challenge_ct).as_str()),
        ]),
        &cert_sig,
    );
    assert_eq!(reply.status, 200);
    // Cross-check the returned challenge response against a direct
    // computation with the same primitives.
    let server_secret = registry.pending[0].server_secret.clone().unwrap();
    let mut hash_input = cert_sig.clone();
    hash_input.extend_from_slice(&challenge_plain);
    hash_input.extend_from_slice(&server_secret);
    let expected_hash = openssl::sha::sha256(&hash_input);
    let expected_response =
        hex::encode(&ecb_raw(&expected_key, &expected_hash, openssl::symm::Mode::Encrypt)[..16]);
    let expected_reply_body = format!(
        "<root status_code=\"200\"><paired>1</paired><challengeresponse>{}</challengeresponse></root>",
        expected_response
    );
    assert_eq!(reply.body, expected_reply_body);

    // Step 3: commit the client hash. The server challenge is known to
    // the test, so a matching hash can be committed ahead of step 5.
    let server_challenge = registry.pending[0].server_challenge.clone().unwrap();
    let secret_plain = [3u8; 16];
    let mut hash_in = server_challenge.clone();
    hash_in.extend_from_slice(&secret_plain);
    let client_hash: Vec<u8> = openssl::sha::sha256(&hash_in)[..16].to_vec();
    let mut resp_plain = vec![1u8; 16];
    resp_plain.extend_from_slice(&client_hash);
    let resp_ct = ecb_raw(&expected_key, &resp_plain, openssl::symm::Mode::Encrypt);
    let reply = moonshine::pairing::server_challenge_response(
        &mut registry,
        &params(&[
            ("uniqueid", "0123456789ABCDEF"),
            ("serverchallengeresp", hex::encode(&resp_ct).as_str()),
        ]),
    );
    assert_eq!(reply.status, 200);
    let expected_secret_hex =
        hex::encode(ecb_raw(&expected_key, &server_secret, openssl::symm::Mode::Encrypt));
    let expected_body = format!(
        "<root status_code=\"200\"><paired>1</paired><pairingsecret>{}</pairingsecret></root>",
        expected_secret_hex
    );
    assert_eq!(reply.body, expected_body);

    // Step 5: the pairing secret must hash to the committed value.
    let secret_ct = ecb_raw(&expected_key, &secret_plain, openssl::symm::Mode::Encrypt);
    let reply = client_pairing_secret(
        &mut registry,
        &params(&[
            ("uniqueid", "0123456789ABCDEF"),
            ("clientpairingsecret", hex::encode(&secret_ct).as_str()),
        ]),
    );
    assert_eq!(reply.status, 200);
    assert_eq!(
        reply.body,
        "<root status_code=\"200\"><paired>1</paired></root>"
    );

    // Step 4: promotion.
    let reply = pair_challenge(
        &mut registry,
        &params(&[("uniqueid", "0123456789ABCDEF")]),
    );
    assert_eq!(reply.status, 200);
    assert_eq!(registry.clients.len(), 1);
    assert_eq!(registry.pending.len(), 0);
    assert_eq!(registry.clients[0].unique_id, "0123456789ABCDEF");
    assert_eq!(registry.clients[0].key, expected_key);
}

/// An unknown pairing phrase is answered with status 400 and a body
/// naming the phrase.
#[test]
fn unknown_phrase() {
    let mut registry = ClientRegistry::new();
    let outcome = handle_pair_request(
        &mut registry,
        &params(&[("phrase", "bogus")]),
        &Vec::new(),
    );
    match outcome {
        PairOutcome::Reply(reply) => {
            assert_eq!(reply.status, 400);
            assert_eq!(reply.body, "Unknown pair phrase received: bogus");
        },
        PairOutcome::PinPending => panic!("unexpected pin wait"),
    }
}

/// A mismatching pairing secret drops the handshake.
#[test]
fn pairing_secret_mismatch() {
    let mut registry = ClientRegistry::new();
    let cert = make_cert_pem();
    let outcome = handle_pair_request(
        &mut registry,
        &params(&[
            ("phrase", "getservercert"),
            ("clientcert", hex::encode(&cert).as_str()),
            ("salt", "000102030405060708090a0b0c0d0e0f"),
            ("uniqueid", "client-a"),
        ]),
        &Vec::new(),
    );
    assert!(matches!(outcome, PairOutcome::PinPending));
    handle_pin_request(
        &mut registry,
        &params(&[("uniqueid", "client-a"), ("pin", "0000")]),
    );
    let key = registry.pending[0].key.clone().unwrap();
    let challenge = ecb_raw(&key, &[0u8; 16], openssl::symm::Mode::Encrypt);
    client_challenge(
        &mut registry,
        &params(&[
            ("uniqueid", "client-a"),
            ("clientchallenge", hex::encode(&challenge).as_str()),
        ]),
        &Vec::new(),
    );
    let resp = ecb_raw(&key, &[5u8; 32], openssl::symm::Mode::Encrypt);
    moonshine::pairing::server_challenge_response(
        &mut registry,
        &params(&[
            ("uniqueid", "client-a"),
            ("serverchallengeresp", hex::encode(&resp).as_str()),
        ]),
    );
    // A secret that does not hash to the committed value.
    let bad_secret = ecb_raw(&key, &[6u8; 16], openssl::symm::Mode::Encrypt);
    let reply = client_pairing_secret(
        &mut registry,
        &params(&[
            ("uniqueid", "client-a"),
            ("clientpairingsecret", hex::encode(&bad_secret).as_str()),
        ]),
    );
    assert_eq!(reply.status, 200);
    assert_eq!(
        reply.body,
        "<root status_code=\"200\"><paired>0</paired></root>"
    );
    assert_eq!(registry.pending.len(), 0);
}

fn run_full_pair(registry: &mut ClientRegistry, uid: &str, pin: &str, cert: &[u8]) {
    let outcome = handle_pair_request(
        registry,
        &params(&[
            ("phrase", "getservercert"),
            ("clientcert", hex::encode(cert).as_str()),
            ("salt", "00000000000000000000000000000000"),
            ("uniqueid", uid),
        ]),
        &Vec::new(),
    );
    assert!(matches!(outcome, PairOutcome::PinPending));
    handle_pin_request(registry, &params(&[("uniqueid", uid), ("pin", pin)]));
    let key = registry
        .pending
        .iter()
        .find(|p| p.unique_id == uid)
        .unwrap()
        .key
        .clone()
        .unwrap();
    let challenge = ecb_raw(&key, &[2u8; 16], openssl::symm::Mode::Encrypt);
    client_challenge(
        registry,
        &params(&[
            ("uniqueid", uid),
            ("clientchallenge", hex::encode(&challenge).as_str()),
        ]),
        &Vec::new(),
    );
    let resp = ecb_raw(&key, &[4u8; 32], openssl::symm::Mode::Encrypt);
    moonshine::pairing::server_challenge_response(
        registry,
        &params(&[
            ("uniqueid", uid),
            ("serverchallengeresp", hex::encode(&resp).as_str()),
        ]),
    );
    let reply = pair_challenge(registry, &params(&[("uniqueid", uid)]));
    assert_eq!(reply.status, 200);
}

/// Two clients pairing with the same unique id in sequence both
/// succeed; the registry keeps one entry, the most recent.
#[test]
fn duplicate_unique_id() {
    let mut registry = ClientRegistry::new();
    let cert_one = make_cert_pem();
    let cert_two = make_cert_pem();
    run_full_pair(&mut registry, "shared-id", "1111", &cert_one);
    assert_eq!(registry.clients.len(), 1);
    let first_key = registry.clients[0].key.clone();
    run_full_pair(&mut registry, "shared-id", "2222", &cert_two);
    assert_eq!(registry.clients.len(), 1);
    assert_eq!(registry.clients[0].certificate, cert_two);
    assert_ne!(registry.clients[0].key, first_key);
}

/// Promotion is idempotent: after a completed promotion, repeating it
/// reports an unknown handshake and leaves the registry unchanged.
#[test]
fn add_client_idempotent() {
    let mut registry = ClientRegistry::new();
    let cert = make_cert_pem();
    run_full_pair(&mut registry, "one-id", "9876", &cert);
    assert_eq!(registry.clients.len(), 1);
    assert_eq!(registry.pending.len(), 0);
    let key_before = registry.clients[0].key.clone();
    let uid = "one-id".to_string();
    let result = registry.add_client(&uid);
    assert_eq!(result, Err(PairError::UnknownUniqueId));
    assert_eq!(registry.clients.len(), 1);
    assert_eq!(registry.pending.len(), 0);
    assert_eq!(registry.clients[0].key, key_before);
}

/// A unique id holding a quote would break the state-file round trip
/// and is rejected at the first step.
#[test]
fn quoted_unique_id_rejected() {
    let mut registry = ClientRegistry::new();
    let cert = make_cert_pem();
    let outcome = handle_pair_request(
        &mut registry,
        &params(&[
            ("phrase", "getservercert"),
            ("clientcert", hex::encode(&cert).as_str()),
            ("salt", "00000000000000000000000000000000"),
            ("uniqueid", "bad\"id"),
        ]),
        &Vec::new(),
    );
    match outcome {
        PairOutcome::Reply(reply) => assert_eq!(reply.status, 400),
        PairOutcome::PinPending => panic!("quoted id accepted"),
    }
    assert_eq!(registry.pending.len(), 0);
}

/// A request with none of the step parameters names them all back.
#[test]
fn unknown_command() {
    let mut registry = ClientRegistry::new();
    let outcome = handle_pair_request(
        &mut registry,
        &params(&[("other", "x")]),
        &Vec::new(),
    );
    match outcome {
        PairOutcome::Reply(reply) => {
            assert_eq!(reply.status, 400);
            assert!(reply.body.starts_with("Unknown pair command with params:"));
            assert!(reply.body.contains("other=x"));
        },
        PairOutcome::PinPending => panic!("unexpected pin wait"),
    }
}

/// A client certificate that does not parse is rejected up front.
#[test]
fn invalid_certificate_rejected() {
    let mut registry = ClientRegistry::new();
    let outcome = handle_pair_request(
        &mut registry,
        &params(&[
            ("phrase", "getservercert"),
            ("clientcert", "deadbeef"),
            ("salt", "00000000000000000000000000000000"),
            ("uniqueid", "x"),
        ]),
        &Vec::new(),
    );
    match outcome {
        PairOutcome::Reply(reply) => assert_eq!(reply.status, 400),
        PairOutcome::PinPending => panic!("invalid certificate accepted"),
    }
    assert_eq!(registry.pending.len(), 0);
}
