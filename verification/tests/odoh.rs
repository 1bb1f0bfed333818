//! Oblivious DNS over HTTPS: keys of targets, sealed queries and replies.
use numa::odoh::{
    after_attempt, cache_control_ttl, fetched_config, parse_odoh_config, read_reply, seal_query,
    AttemptError, Lookup, NextAttempt, OdohConfigCache, OdohTargetConfig, MAX_CONFIG_TTL,
    REFRESH_BACKOFF,
};
use odoh_rs::{
    compose, decrypt_query, encrypt_response, parse, ObliviousDoHConfig, ObliviousDoHConfigs,
    ObliviousDoHKeyPair, ObliviousDoHMessage, ObliviousDoHMessagePlaintext, ResponseNonce,
};

// HPKE ids of the sole mandatory suite:
// KEM = X25519, KDF = HKDF-SHA256, AEAD = AES-128-GCM.
const KEM_X25519: u16 = 0x0020;
const KDF_SHA256: u16 = 0x0001;
const AEAD_AES128GCM: u16 = 0x0001;

const NOW: u64 = 1_000_000;
const HOUR: u64 = 3_600_000;

fn key_pair() -> ObliviousDoHKeyPair {
    ObliviousDoHKeyPair::from_parameters(KEM_X25519, KDF_SHA256, AEAD_AES128GCM, &[0u8; 32])
}

fn synth_configs_bytes() -> Vec<u8> {
    let pk = key_pair().public().clone();
    let configs: ObliviousDoHConfigs = vec![ObliviousDoHConfig::from(pk)].into();
    compose(&configs).unwrap().to_vec()
}

#[test]
fn parse_accepts_well_formed_config() {
    let bytes = synth_configs_bytes();
    let cfg = parse_odoh_config(&bytes, HOUR, NOW).unwrap();
    assert!(!cfg.key_id.is_empty());
    assert!(!cfg.is_expired(NOW));
}

#[test]
fn parsed_key_is_the_published_one() {
    let cfg = parse_odoh_config(&synth_configs_bytes(), HOUR, NOW).unwrap();
    let pair = key_pair();
    assert_eq!(cfg.contents, compose(pair.public()).unwrap().to_vec());
    assert_eq!(cfg.key_id, pair.public().identifier().unwrap());
    assert_eq!(cfg.key_id.len(), 32);
}

#[test]
fn parse_rejects_garbage() {
    let bytes = [0xffu8; 16];
    let err = parse_odoh_config(&bytes, HOUR, NOW).unwrap_err();
    assert!(err.starts_with("failed to parse ObliviousDoHConfigs: "));
}

#[test]
fn parse_rejects_empty() {
    assert!(parse_odoh_config(&[], HOUR, NOW).is_err());
}

#[test]
fn empty_list_has_no_supported_config() {
    let err = parse_odoh_config(&[0, 0], HOUR, NOW).unwrap_err();
    assert_eq!(
        err,
        "target published no ODoH configs with a supported version + ciphersuite"
    );
}

#[test]
fn ttl_capped_at_max() {
    let bytes = synth_configs_bytes();
    let cfg = parse_odoh_config(&bytes, 100 * 24 * HOUR, NOW).unwrap();
    assert_eq!(cfg.expires_at - NOW, MAX_CONFIG_TTL);
}

#[test]
fn cache_control_parses_max_age() {
    assert_eq!(cache_control_ttl(Some("public, max-age=86400")), Some(86400));
}

#[test]
fn cache_control_ignores_max_age_zero() {
    assert_eq!(cache_control_ttl(Some("max-age=0, no-store")), None);
}

#[test]
fn cache_control_missing_falls_back() {
    assert_eq!(cache_control_ttl(None), None);
}

#[test]
fn reply_header_decides_how_long_a_key_is_kept() {
    let bytes = synth_configs_bytes();
    let kept = |header| fetched_config(&bytes, header, NOW).unwrap().expires_at - NOW;
    assert_eq!(kept(Some("max-age=60")), 60_000);
    assert_eq!(kept(None), 24 * HOUR);
    assert_eq!(kept(Some("max-age=99999999")), MAX_CONFIG_TTL);
}

#[test]
fn is_expired_tracks_ttl() {
    let bytes = synth_configs_bytes();
    let mut cfg = parse_odoh_config(&bytes, HOUR, NOW).unwrap();
    assert!(!cfg.is_expired(NOW));
    cfg.expires_at = NOW - 1;
    assert!(cfg.is_expired(NOW));
}

#[test]
fn cache_backoff_blocks_refetch_after_failure() {
    let mut cache = OdohConfigCache::new("odoh-target.invalid".to_string());
    assert_eq!(cache.target_host(), "odoh-target.invalid");
    assert_eq!(cache.configs_url, "https://odoh-target.invalid/.well-known/odohconfigs");
    assert!(matches!(cache.get(NOW), Lookup::Fetch));
    let first = cache.fetched(Err("no such host".to_string()), NOW);
    assert_eq!(first.unwrap_err(), "ODoH config fetch failed: no such host");

    // Within the backoff window, the cached error is returned immediately.
    match cache.get(NOW + REFRESH_BACKOFF - 1) {
        Lookup::Failed(m) => assert!(m.contains("backoff active"), "got: {m}"),
        _ => panic!("expected the failure"),
    }

    // Past the backoff window a fresh attempt is made.
    assert!(matches!(cache.get(NOW + REFRESH_BACKOFF), Lookup::Fetch));
}

#[test]
fn cached_key_is_used_until_dropped() {
    let mut cache = OdohConfigCache::new("t.example".to_string());
    let cfg = parse_odoh_config(&synth_configs_bytes(), HOUR, NOW).unwrap();
    let id = cfg.key_id.clone();
    cache.fetched(Ok(cfg), NOW).unwrap();
    match cache.get(NOW) {
        Lookup::Key(c) => assert_eq!(c.key_id, id),
        _ => panic!("expected the key"),
    }
    assert!(matches!(cache.get(NOW + HOUR), Lookup::Fetch));
    cache.invalidate();
    assert!(matches!(cache.get(NOW), Lookup::Fetch));
}

/// Seals a query, lets a target open it and seal a reply, and opens that.
#[test]
fn seal_unseal_round_trip() {
    let pair = key_pair();
    let cfg: OdohTargetConfig = parse_odoh_config(&synth_configs_bytes(), HOUR, NOW).unwrap();

    let query_wire: &[u8] = b"\x12\x34\x01\x00\x00\x01\x00\x00\x00\x00\x00\x00\x07example\x03com\x00\x00\x01\x00\x01";
    let (sealed, secret) = seal_query(query_wire, &cfg).unwrap();
    assert_eq!(sealed.len(), query_wire.len() + 89);
    assert_eq!(&sealed[3..35], &cfg.key_id[..]);

    let mut buf = &sealed[..];
    let query_enc: ObliviousDoHMessage = parse(&mut buf).unwrap();
    let (query_back, server_secret) = decrypt_query(&query_enc, &pair).unwrap();
    assert_eq!(query_back.clone().into_msg().as_ref(), query_wire);

    let response_wire: &[u8] = b"\x12\x34\x81\x80\x00\x01\x00\x01\x00\x00\x00\x00";
    let response_pt = ObliviousDoHMessagePlaintext::new(response_wire, 0);
    let response_enc =
        encrypt_response(&query_back, &response_pt, server_secret, ResponseNonce::default())
            .unwrap();
    let body = compose(&response_enc).unwrap().to_vec();

    let opened = read_reply(query_wire, 200, "200 OK", &body, secret).unwrap();
    assert_eq!(opened, response_wire);

    // With another secret the reply cannot be opened: the key was changed.
    let err = read_reply(query_wire, 200, "200 OK", &body, [7; 16]).unwrap_err();
    assert!(matches!(&err, AttemptError::KeyRotation(m) if m.starts_with("ODoH decrypt failed: ")));
    assert!(err.into_error().starts_with("ODoH key rotation race: ODoH decrypt failed: "));
}

#[test]
fn long_query_cannot_be_sealed() {
    let cfg = parse_odoh_config(&synth_configs_bytes(), HOUR, NOW).unwrap();
    let err = seal_query(&vec![0u8; 65536], &cfg).unwrap_err();
    assert!(err.into_error().starts_with("ODoH key rotation race: ODoH encrypt failed: "));
    let err = seal_query(&vec![0u8; 65500], &cfg).unwrap_err();
    assert!(err.into_error().starts_with("ODoH compose failed: "));
}

#[test]
fn refusals_of_the_relay_are_told_apart() {
    let reply = |status, text, body: &[u8]| read_reply(b"q", status, text, body, [0; 16]).unwrap_err();
    match reply(401, "401 Unauthorized", b" stale key \n") {
        AttemptError::KeyRotation(m) => {
            assert_eq!(m, "ODoH relay returned 401 Unauthorized: stale key")
        }
        AttemptError::Other(m) => panic!("{m}"),
    }
    match reply(400, "400 Bad Request", &[b'x'; 2000]) {
        AttemptError::Other(m) => {
            assert_eq!(m, format!("ODoH relay returned 400 Bad Request: {}", "x".repeat(1024)))
        }
        AttemptError::KeyRotation(m) => panic!("{m}"),
    }
    match reply(500, "500", &[0xff]) {
        AttemptError::Other(m) => assert_eq!(m, "ODoH relay returned 500: \u{fffd}"),
        AttemptError::KeyRotation(m) => panic!("{m}"),
    }
    match reply(200, "200 OK", b"") {
        AttemptError::Other(m) => assert!(m.starts_with("ODoH response parse failed: ")),
        AttemptError::KeyRotation(m) => panic!("{m}"),
    }
}

#[test]
fn changed_key_is_fetched_anew_once() {
    let stale = || Err(AttemptError::KeyRotation("k".to_string()));
    assert!(matches!(after_attempt(true, stale()), NextAttempt::Again));
    match after_attempt(false, stale()) {
        NextAttempt::Done(Err(m)) => assert_eq!(m, "ODoH key rotation race: k"),
        other => panic!("{other:?}"),
    }
    assert!(matches!(after_attempt(true, Ok(vec![1])), NextAttempt::Done(Ok(_))));
    assert!(matches!(
        after_attempt(true, Err(AttemptError::Other("x".to_string()))),
        NextAttempt::Done(Err(_))
    ));
}
