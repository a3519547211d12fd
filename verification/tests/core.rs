//! Errors, breakers, body limits, backoff and crypto material.
use relay::breaker::Breaker;
use relay::crypto;
use relay::error::{decimal_u16, ErrorKind, Retry};
use relay::jobs::{backoff_seconds, disposition, Disposition};
use relay::requests::{succeeds, BreakerStrategy, Requests};
use relay::stream::{aggregate, limit_body, Limiter};
use rsa::pkcs8::EncodePublicKey;
use rsa::signature::SignatureEncoding;
use rsa::signature::Signer;

#[test]
fn status_codes_follow_the_taxonomy() {
    assert_eq!(ErrorKind::NotAllowed("a".to_string()).status_code(), 403);
    assert_eq!(
        ErrorKind::WrongActor("e".to_string(), "a".to_string()).status_code(),
        403
    );
    assert_eq!(
        ErrorKind::BadActor("c".to_string(), "p".to_string()).status_code(),
        403
    );
    assert_eq!(ErrorKind::NotSubscribed("a".to_string()).status_code(), 401);
    assert_eq!(ErrorKind::Duplicate.status_code(), 202);
    assert_eq!(ErrorKind::Kind("Like".to_string()).status_code(), 400);
    assert_eq!(ErrorKind::MissingId.status_code(), 400);
    assert_eq!(ErrorKind::MissingKind.status_code(), 400);
    assert_eq!(ErrorKind::ObjectCount.status_code(), 400);
    assert_eq!(ErrorKind::NoSignature.status_code(), 400);
    assert_eq!(ErrorKind::Breaker.status_code(), 500);
    assert_eq!(ErrorKind::Canceled.status_code(), 500);
    assert_eq!(ErrorKind::Status("a".to_string(), 404).status_code(), 500);
}

#[test]
fn retry_classification() {
    assert_eq!(ErrorKind::Breaker.retry(), Retry::Drop);
    assert_eq!(ErrorKind::NotAllowed("a".to_string()).retry(), Retry::Drop);
    assert_eq!(
        ErrorKind::WrongActor("e".to_string(), "a".to_string()).retry(),
        Retry::Drop
    );
    assert_eq!(ErrorKind::Status("a".to_string(), 403).retry(), Retry::Drop);
    assert_eq!(ErrorKind::Status("a".to_string(), 404).retry(), Retry::Drop);
    assert_eq!(
        ErrorKind::Status("a".to_string(), 408).retry(),
        Retry::Backoff
    );
    assert_eq!(
        ErrorKind::Status("a".to_string(), 429).retry(),
        Retry::Backoff
    );
    assert_eq!(
        ErrorKind::Status("a".to_string(), 500).retry(),
        Retry::Backoff
    );
    assert_eq!(
        ErrorKind::SendRequest("a".to_string(), "d".to_string()).retry(),
        Retry::Backoff
    );
    assert_eq!(
        ErrorKind::ReceiveResponse("a".to_string(), "d".to_string()).retry(),
        Retry::Backoff
    );
    assert_eq!(ErrorKind::Canceled.retry(), Retry::Now);
}

#[test]
fn error_messages() {
    assert_eq!(
        ErrorKind::NotAllowed("https://b.example/u/1".to_string()).message(),
        "Actor is not allowed, https://b.example/u/1"
    );
    assert_eq!(
        ErrorKind::Status("c.example".to_string(), 502).message(),
        "Response from c.example has invalid status code, 502"
    );
    assert_eq!(
        ErrorKind::Duplicate.message(),
        "Object has already been relayed"
    );
}

#[test]
fn decimal_rendering() {
    assert_eq!(decimal_u16(0), "0");
    assert_eq!(decimal_u16(7), "7");
    assert_eq!(decimal_u16(410), "410");
    assert_eq!(decimal_u16(65535), "65535");
}

#[test]
fn breaker_trips_after_ten_failures() {
    let mut b = Breaker::new();
    for _ in 0..9 {
        b.fail(100);
        assert!(b.should_try(100));
    }
    b.fail(100);
    // the tenth consecutive failure opens the breaker
    assert!(!b.should_try(100));
    assert!(!b.should_try(100 + 1799));
    // after the cooldown exactly one probe is admitted
    assert!(b.should_try(100 + 1800));
    assert!(!b.should_try(100 + 1800));
    // a successful probe closes the breaker again
    b.succeed();
    assert!(b.should_try(100 + 1801));
}

#[test]
fn breaker_success_resets_failures() {
    let mut b = Breaker::new();
    for _ in 0..9 {
        b.fail(5);
    }
    b.succeed();
    for _ in 0..9 {
        b.fail(6);
    }
    assert!(b.should_try(6));
}

#[test]
fn strategies_classify_statuses() {
    assert!(succeeds(BreakerStrategy::Require2XX, 200));
    assert!(!succeeds(BreakerStrategy::Require2XX, 404));
    assert!(!succeeds(BreakerStrategy::Require2XX, 500));
    assert!(succeeds(BreakerStrategy::Allow401AndAbove, 401));
    assert!(succeeds(BreakerStrategy::Allow401AndAbove, 204));
    assert!(!succeeds(BreakerStrategy::Allow401AndAbove, 301));
    assert!(succeeds(BreakerStrategy::Allow404AndBelow, 404));
    assert!(!succeeds(BreakerStrategy::Allow404AndBelow, 410));
}

#[test]
fn breaker_trip_through_request_engine() {
    let mut requests = Requests::new();
    for i in 0..10 {
        assert!(requests.prepare("c.example", i).is_ok());
        let r = requests.record_status("c.example", BreakerStrategy::Require2XX, 500, i);
        assert!(matches!(r, Err(ErrorKind::Status(_, 500))));
    }
    // the eleventh call is refused without any I/O
    let refused = requests.prepare("c.example", 10);
    assert!(matches!(refused, Err(ErrorKind::Breaker)));
    // thirty minutes later exactly one probe goes out
    assert!(requests.prepare("c.example", 10 + 1800).is_ok());
    assert!(matches!(
        requests.prepare("c.example", 10 + 1800),
        Err(ErrorKind::Breaker)
    ));
}

#[test]
fn transport_failures_mark_seen_and_count() {
    let mut requests = Requests::new();
    let e = requests.record_transport_failure("d.example", "refused".to_string(), 42);
    assert!(matches!(e, ErrorKind::SendRequest(_, _)));
    let listed = requests.last_online_snapshot();
    assert_eq!(listed, vec![("d.example".to_string(), 42)]);
    let drained = requests.take_last_online();
    assert_eq!(drained, vec![("d.example".to_string(), 42)]);
    assert!(requests.last_online_snapshot().is_empty());
}

#[test]
fn limiter_counts_and_rejects() {
    let mut l = Limiter::new(10);
    assert!(l.accept(6).is_ok());
    assert!(l.accept(4).is_ok());
    let r = l.accept(1);
    assert!(matches!(r, Err(ErrorKind::BodyTooLarge)));
}

#[test]
fn body_over_the_limit_is_rejected() {
    // chunks that would pass 16 MiB stop the stream with BodyTooLarge
    let chunk = vec![0u8; 1024 * 1024];
    let chunks: Vec<Vec<u8>> = (0..17).map(|_| chunk.clone()).collect();
    let r = limit_body(&chunks, relay::requests::MEDIA_SIZE_LIMIT);
    assert!(matches!(r, Err(ErrorKind::BodyTooLarge)));
}

#[test]
fn body_within_the_limit_is_whole() {
    let chunks = vec![vec![1u8, 2], vec![3u8], vec![], vec![4u8, 5]];
    let r = limit_body(&chunks, 5).expect("five bytes fit");
    assert_eq!(r, vec![1, 2, 3, 4, 5]);
    assert!(limit_body(&chunks, 4).is_err());
}

#[test]
fn aggregate_concatenates() {
    let chunks = vec![vec![10u8], vec![], vec![20u8, 30]];
    assert_eq!(aggregate(chunks), vec![10, 20, 30]);
}

#[test]
fn backoff_is_exponential_and_capped() {
    assert_eq!(backoff_seconds(0), 10);
    assert_eq!(backoff_seconds(1), 20);
    assert_eq!(backoff_seconds(2), 40);
    assert_eq!(backoff_seconds(7), 1280);
    assert_eq!(backoff_seconds(13), 81920);
    assert_eq!(backoff_seconds(14), 86400);
    assert_eq!(backoff_seconds(60), 86400);
}

#[test]
fn dispositions() {
    assert_eq!(disposition(&ErrorKind::Breaker, 0), Disposition::DeadLetter);
    assert_eq!(
        disposition(&ErrorKind::Status("a".to_string(), 500), 0),
        Disposition::Requeue {
            delay: 10,
            attempt: 1
        }
    );
    assert_eq!(
        disposition(&ErrorKind::Status("a".to_string(), 500), 7),
        Disposition::DeadLetter
    );
    assert_eq!(
        disposition(&ErrorKind::Canceled, 3),
        Disposition::Requeue {
            delay: 0,
            attempt: 3
        }
    );
}

#[test]
fn iri_components() {
    assert_eq!(
        relay::iri::authority_of("https://a.example/u/1"),
        Some("a.example".to_string())
    );
    assert_eq!(
        relay::iri::authority_of("https://a.example:8443/u/1"),
        Some("a.example:8443".to_string())
    );
    assert_eq!(
        relay::iri::authority_of("https://a.example"),
        Some("a.example".to_string())
    );
    assert_eq!(relay::iri::scheme_of("https://a.example/u/1"), Some("https".to_string()));
    assert_eq!(relay::iri::authority_of("not an iri"), None);
    assert_eq!(relay::iri::authority_of("https:///path"), None);
    assert!(relay::iri::same_authority(
        "https://a.example/u/1",
        "https://a.example/u/2"
    ));
    assert!(!relay::iri::same_authority(
        "https://a.example/u/1",
        "https://b.example/u/1"
    ));
    assert!(!relay::iri::same_authority("nope", "nope"));
}

#[test]
fn thread_split() {
    assert_eq!(crypto::signature_thread_split(0), (1, 1));
    assert_eq!(crypto::signature_thread_split(1), (1, 1));
    assert_eq!(crypto::signature_thread_split(4), (4, 1));
    assert_eq!(crypto::signature_thread_split(7), (7, 1));
    assert_eq!(crypto::signature_thread_split(8), (7, 1));
    assert_eq!(crypto::signature_thread_split(21), (18, 3));
}

#[test]
fn signing_string_shape() {
    let s = crypto::signing_string(
        "post",
        "/inbox",
        "a.example",
        "Sun, 06 Nov 1994 08:49:37 GMT",
        "abc123=",
        "application/activity+json",
    );
    assert_eq!(
        s,
        "(request-target): post /inbox\nhost: a.example\ndate: Sun, 06 Nov 1994 08:49:37 GMT\ndigest: SHA-256=abc123=\ncontent-type: application/activity+json"
    );
}

#[test]
fn digest_value_is_base64_sha256() {
    // SHA-256 of the empty body, base64-encoded
    let v = crypto::digest_value(&Vec::new());
    assert_eq!(v, "47DEQpj8HBSa+/TImW+5JCeuQeRkm5NMpJWZG3hSuFU=");
}

#[test]
fn signature_verifies_and_tampering_breaks_it() {
    let mut rng = rand::thread_rng();
    let private_key = rsa::RsaPrivateKey::new(&mut rng, 1024).expect("generate key");
    let public_pem = private_key
        .to_public_key()
        .to_public_key_pem(rsa::pkcs8::LineEnding::LF)
        .expect("encode public key");
    let signing_key = rsa::pkcs1v15::SigningKey::<rsa::sha2::Sha256>::new(private_key);

    let message = crypto::signing_string(
        "post",
        "/inbox",
        "a.example",
        "Sun, 06 Nov 1994 08:49:37 GMT",
        "abc123=",
        "application/activity+json",
    );
    let body: Vec<u8> = message.as_bytes().to_vec();
    let signature: Vec<u8> = signing_key.sign(&body).to_vec();

    assert!(crypto::rsa_verify(&public_pem, &body, &signature));

    // a mutated signed header invalidates the signature
    let tampered = crypto::signing_string(
        "post",
        "/inbox",
        "a.example",
        "Mon, 07 Nov 1994 08:49:37 GMT",
        "abc123=",
        "application/activity+json",
    );
    let tampered_body: Vec<u8> = tampered.as_bytes().to_vec();
    assert!(!crypto::rsa_verify(&public_pem, &tampered_body, &signature));

    // a mutated signature is rejected too
    let mut broken = signature.clone();
    broken[0] ^= 1;
    assert!(!crypto::rsa_verify(&public_pem, &body, &broken));

    // a key that does not parse verifies nothing
    assert!(!crypto::rsa_verify("not a key", &body, &signature));
}

#[test]
fn admin_token_round_trip() {
    let config = relay::admin::AdminConfig::build("instance-admin-token").expect("hash");
    let good = relay::admin::XApiToken::new("instance-admin-token".to_string());
    let bad = relay::admin::XApiToken::new("wrong".to_string());
    assert!(config.authenticate(&good).is_ok());
    assert_eq!(
        config.authenticate(&bad),
        Err(relay::admin::AdminError::Invalid)
    );
}

#[test]
fn last_online_records_and_drains() {
    let mut lo = relay::last_online::LastOnline::empty();
    lo.mark_seen("a.example", 100);
    lo.mark_seen("b.example", 150);
    lo.mark_seen("a.example", 200);
    assert_eq!(lo.last_seen("a.example"), Some(200));
    assert_eq!(lo.last_seen("c.example"), None);
    // listed in first-seen order, each authority once, with its latest time
    assert_eq!(
        lo.snapshot(),
        vec![("a.example".to_string(), 200), ("b.example".to_string(), 150)]
    );
    let drained = lo.take();
    assert_eq!(
        drained,
        vec![("a.example".to_string(), 200), ("b.example".to_string(), 150)]
    );
    assert_eq!(lo.last_seen("a.example"), None);
    assert!(lo.snapshot().is_empty());
}

#[test]
fn signature_header_parameters() {
    let header = "keyId=\"https://a.example/u/1#main-key\",algorithm=\"rsa-sha256\",headers=\"(request-target) host date digest content-type\",signature=\"c2ln\"";
    assert_eq!(
        relay::sig_header::signature_param(header, "keyId"),
        Some("https://a.example/u/1#main-key".to_string())
    );
    assert_eq!(
        relay::sig_header::signature_param(header, "signature"),
        Some("c2ln".to_string())
    );
    assert_eq!(relay::sig_header::signature_param(header, "created"), None);
    assert_eq!(relay::sig_header::signature_param("", "keyId"), None);
}

#[test]
fn base64_decodes_what_it_encoded() {
    let data = vec![0u8, 1, 2, 250];
    let text = relay::crypto::base64_encode(&data);
    assert_eq!(relay::crypto::base64_decode(&text), Some(data));
    assert_eq!(relay::crypto::base64_decode("not base64!!"), None);
}
