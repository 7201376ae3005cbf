//! The cookie pool, the authenticated exchange and the connection
//! state machine, exercised with real AES-SIV keys.

use rkik_nts::aead::{aead_open, aead_seal};
use rkik_nts::client::{NtsClient, PendingQuery};
use rkik_nts::config::NtsClientConfig;
use rkik_nts::error::Error;
use rkik_nts::ke::{fault_of_nts_error, KeFault};
use rkik_nts::packet::{encode_ef, ExtField};
use rkik_nts::store::CookieStore;
use rkik_nts::types::{NtsKeResult, ServerAddr};

const NANOS_PER_SEC: u64 = 1_000_000_000;

#[test]
fn test_cookie_pool_fifo_exhaustion() {
    let mut store = CookieStore::new_empty();
    store.add_cookie(vec![1; 8]);
    store.add_cookie(vec![2; 8]);
    store.add_cookie(vec![3; 8]);

    // Exactly three takes succeed, oldest first.
    assert_eq!(store.take_cookie().unwrap(), vec![1; 8]);
    assert_eq!(store.take_cookie().unwrap(), vec![2; 8]);
    assert_eq!(store.take_cookie().unwrap(), vec![3; 8]);
    // The fourth fails.
    assert!(matches!(store.take_cookie(), Err(Error::NoCookiesAvailable)));
}

#[test]
fn test_aead_seal_open_round_trip() {
    let key = vec![0x42u8; 32];
    let nonce = vec![0x24u8; 16];
    let ad = b"header bytes".to_vec();
    let pt = b"plaintext payload".to_vec();

    let ct = aead_seal(&key, &nonce, &ad, &pt);
    assert_eq!(ct.len(), pt.len() + 16);
    assert_ne!(&ct[16..], &pt[..]);

    let opened = aead_open(&key, &nonce, &ad, &ct).expect("round trip must open");
    assert_eq!(opened, pt);

    // A tampered ciphertext byte must not open.
    let mut bad_ct = ct.clone();
    bad_ct[20] ^= 0x01;
    assert!(aead_open(&key, &nonce, &ad, &bad_ct).is_none());

    // Changed associated data must not open.
    let bad_ad = b"header bytez".to_vec();
    assert!(aead_open(&key, &nonce, &bad_ad, &ct).is_none());

    // The 64-byte-key algorithm round trips too.
    let key512 = vec![0x51u8; 64];
    let ct512 = aead_seal(&key512, &nonce, &ad, &pt);
    assert_eq!(aead_open(&key512, &nonce, &ad, &ct512).unwrap(), pt);
}

/// A Ready client whose session was installed with the given cookies
/// and keys.
fn ready_client(cookies: Vec<Vec<u8>>, c2s: Vec<u8>, s2c: Vec<u8>) -> NtsClient {
    let config = NtsClientConfig::new("example-nts-host")
        .with_timeout(5_000)
        .with_max_retries(3);
    let mut client = NtsClient::new(config);
    client.begin_connect().expect("valid configuration");
    let info = NtsKeResult::new(
        ServerAddr {
            host: "10.0.0.7".to_string(),
            port: 123,
        },
        "AEAD_AES_SIV_CMAC_256".to_string(),
        cookies,
        42,
    );
    client.install_session(info, c2s, s2c).expect("acceptable session");
    client
}

/// A server-style response: a 48-byte header carrying the transmit
/// timestamp, the echoed unique identifier, and an authenticator over
/// both whose encrypted payload holds the given new cookies.
fn build_server_response(
    uid: &[u8],
    s2c: &[u8],
    new_cookies: &[Vec<u8>],
    tx_secs: u32,
    tx_frac: u32,
) -> Vec<u8> {
    let mut resp = vec![0u8; 48];
    resp[0] = 0x24; // LI 0, version 4, mode 4 (server)
    resp[40..44].copy_from_slice(&tx_secs.to_be_bytes());
    resp[44..48].copy_from_slice(&tx_frac.to_be_bytes());

    resp.extend_from_slice(&encode_ef(&ExtField::UniqueIdentifier(uid.to_vec())));

    let mut plaintext: Vec<u8> = Vec::new();
    for c in new_cookies {
        plaintext.extend_from_slice(&encode_ef(&ExtField::NtsCookie(c.clone())));
    }

    let nonce = vec![0x0Fu8; 16];
    let ciphertext = aead_seal(&s2c.to_vec(), &nonce, &resp, &plaintext);
    resp.extend_from_slice(&encode_ef(&ExtField::Authenticator { nonce, ciphertext }));
    resp
}

fn send_query(client: &mut NtsClient, now: u64) -> (Vec<u8>, PendingQuery) {
    let uid = vec![0x9Au8; 32];
    let nonce = vec![0x77u8; 16];
    client
        .create_ntp_request(now, uid, nonce)
        .expect("Ready client with cookies must build a request")
}

#[test]
fn test_end_to_end_scenario() {
    let c2s = vec![0x01u8; 32];
    let s2c = vec![0x02u8; 32];
    let cookies: Vec<Vec<u8>> = (1..=8).map(|i| vec![i as u8; 100]).collect();
    let mut client = ready_client(cookies, c2s, s2c.clone());

    assert!(client.is_connected());
    assert_eq!(client.nts_ke_info().unwrap().cookie_count(), 8);
    assert_eq!(client.ntp_server().unwrap().host, "10.0.0.7");

    let now = 1_700_000_000 * NANOS_PER_SEC;
    let (request, pq) = send_query(&mut client, now);
    assert!(request.len() >= 48);
    // One cookie was consumed.
    assert_eq!(client.cookie_pool_count(), 7);

    // The server answers ten seconds behind our clock and returns one
    // replacement cookie: the pool is back at eight.
    let tx_unix = 1_699_999_990u64;
    let tx_secs = (tx_unix + 2_208_988_800) as u32;
    let resp = build_server_response(&pq.unique_id, &s2c, &[vec![0xAA; 100]], tx_secs, 0);
    let recv = now + 50_000_000;
    let snap = client
        .handle_response(&resp, &pq, recv)
        .expect("authentic response must be accepted");

    assert_eq!(client.cookie_pool_count(), 8);
    assert!(snap.authenticated);
    assert_eq!(snap.server, "10.0.0.7");
    assert_eq!(snap.system_time, recv);
    assert_eq!(snap.round_trip_delay, 50_000_000);
    // Our clock reads about ten seconds ahead of the server's.
    assert!(snap.is_ahead());
    assert!(snap.offset_signed() >= 10_000);
    assert!(snap.offset_signed() <= 10_100);
    // The connection survives and the next query still works.
    assert!(client.is_connected());
}

#[test]
fn test_tampered_authenticator_rejected() {
    let c2s = vec![0x01u8; 32];
    let s2c = vec![0x02u8; 32];
    let cookies: Vec<Vec<u8>> = (1..=4).map(|i| vec![i as u8; 100]).collect();
    let mut client = ready_client(cookies, c2s, s2c.clone());

    let now = 1_700_000_000 * NANOS_PER_SEC;
    let (_request, pq) = send_query(&mut client, now);
    let pool_after_send = client.cookie_pool_count();
    let resp = build_server_response(&pq.unique_id, &s2c, &[vec![0xAA; 100]], 0xE0000000, 0);

    // A byte flipped in the authenticator tag.
    let mut bad_tag = resp.clone();
    let last = bad_tag.len() - 1;
    bad_tag[last] ^= 0x01;
    let r = client.handle_response(&bad_tag, &pq, now + 1);
    assert!(matches!(r, Err(Error::AuthenticationFailed(_))));
    // No cookie from the unauthentic packet entered the pool.
    assert_eq!(client.cookie_pool_count(), pool_after_send);

    // A byte flipped in the covered header.
    let mut bad_header = resp.clone();
    bad_header[1] ^= 0x01;
    let r2 = client.handle_response(&bad_header, &pq, now + 1);
    assert!(matches!(r2, Err(Error::AuthenticationFailed(_))));
    assert_eq!(client.cookie_pool_count(), pool_after_send);

    // The untampered response is still accepted afterwards.
    let ok = client.handle_response(&resp, &pq, now + 1);
    assert!(ok.is_ok());
}

#[test]
fn test_unique_identifier_mismatch_rejected() {
    let c2s = vec![0x01u8; 32];
    let s2c = vec![0x02u8; 32];
    let mut client = ready_client(vec![vec![0x05; 100]], c2s, s2c.clone());

    let now = 1_700_000_000 * NANOS_PER_SEC;
    let (_request, pq) = send_query(&mut client, now);
    // The response echoes a different identifier.
    let wrong_uid = vec![0x9Bu8; 32];
    let resp = build_server_response(&wrong_uid, &s2c, &[], 0xE0000000, 0);
    let r = client.handle_response(&resp, &pq, now + 1);
    match r {
        Err(Error::InvalidResponse(m)) => assert!(m.contains("identifier")),
        other => panic!("expected an invalid-response error, got {:?}", other),
    }
}

#[test]
fn test_undersized_response_rejected() {
    let c2s = vec![0x01u8; 32];
    let s2c = vec![0x02u8; 32];
    let mut client = ready_client(vec![vec![0x05; 100]], c2s, s2c);

    let now = 1_700_000_000 * NANOS_PER_SEC;
    let (_request, pq) = send_query(&mut client, now);
    let r = client.handle_response(&[0u8; 47], &pq, now + 1);
    match r {
        Err(Error::InvalidResponse(m)) => assert!(m.contains("too small")),
        other => panic!("expected an invalid-response error, got {:?}", other),
    }
}

#[test]
fn test_query_timeout_keeps_connection() {
    let c2s = vec![0x01u8; 32];
    let s2c = vec![0x02u8; 32];
    let mut client = ready_client(vec![vec![0x05; 100], vec![0x06; 100]], c2s, s2c);

    let now = 1_700_000_000 * NANOS_PER_SEC;
    let (_request, _pq) = send_query(&mut client, now);
    let e = client.on_query_timeout();
    assert!(matches!(e, Error::Timeout));
    // The connection stays Ready; only the consumed cookie is gone.
    assert!(client.is_connected());
    assert_eq!(client.cookie_pool_count(), 1);
}

#[test]
fn test_query_requires_connection_and_cookies() {
    let config = NtsClientConfig::new("example-nts-host");
    let mut disconnected = NtsClient::new(config);
    let r = disconnected.create_ntp_request(0, vec![0; 32], vec![0; 16]);
    match r {
        Err(Error::Other(m)) => assert!(m.contains("Not connected")),
        other => panic!("expected a not-connected error, got {:?}", other.map(|_| ())),
    }

    let mut empty_pool = ready_client(vec![vec![0x05; 100]], vec![1; 32], vec![2; 32]);
    let now = 1_700_000_000 * NANOS_PER_SEC;
    let (_r, _pq) = send_query(&mut empty_pool, now);
    let r2 = empty_pool.create_ntp_request(now, vec![0; 32], vec![0; 16]);
    assert!(matches!(r2, Err(Error::NoCookiesAvailable)));
    // The failed query did not disconnect the client.
    assert!(empty_pool.is_connected());
}

#[test]
fn test_reconnect_discards_previous_session() {
    let c2s = vec![0x01u8; 32];
    let s2c = vec![0x02u8; 32];
    let cookies: Vec<Vec<u8>> = (1..=8).map(|i| vec![i as u8; 100]).collect();
    let mut client = ready_client(cookies, c2s, s2c);
    assert_eq!(client.cookie_pool_count(), 8);

    // Entering a new key exchange discards the old pool and keys at
    // once, before the new exchange could succeed or fail.
    client.begin_connect().expect("valid configuration");
    assert_eq!(client.cookie_pool_count(), 0);
    assert!(client.nts_ke_info().is_none());
    assert!(!client.is_connected());

    // Even when the new exchange then fails, nothing of the old
    // session comes back.
    client.finish_connect_failure();
    assert_eq!(client.cookie_pool_count(), 0);
    assert!(client.nts_ke_info().is_none());
    assert!(!client.is_connected());
}

#[test]
fn test_invalid_config_rejected_at_connect() {
    let mut client = NtsClient::new(NtsClientConfig::default());
    let r = client.begin_connect();
    match r {
        Err(Error::InvalidConfig(m)) => assert!(m.contains("hostname is required")),
        other => panic!("expected an invalid-config error, got {:?}", other),
    }
    assert!(!client.is_connected());

    let mut bad_version = NtsClient::new(NtsClientConfig::new("h").with_ntp_version(5));
    let r2 = bad_version.begin_connect();
    match r2 {
        Err(Error::InvalidConfig(m)) => assert!(m.contains("must be 3 or 4")),
        other => panic!("expected an invalid-config error, got {:?}", other),
    }
}

#[test]
fn test_ke_fault_mapping() {
    let fault = fault_of_nts_error(&ntp_proto::NtsError::NoCookie);
    assert!(matches!(fault, KeFault::NoCookie));
    let err = Error::from_ke_fault(fault);
    assert_eq!(err.message(), "NTS key exchange failed: No cookies received");

    let fault2 = fault_of_nts_error(&ntp_proto::NtsError::NoOverlappingAlgorithm);
    let err2 = Error::from_ke_fault(fault2);
    assert_eq!(
        err2.message(),
        "NTS key exchange failed: No valid AEAD algorithm negotiated"
    );

    let fault4 = fault_of_nts_error(&ntp_proto::NtsError::Tls(rustls::Error::General(
        "handshake failed".to_string(),
    )));
    let err4 = Error::from_ke_fault(fault4);
    assert_eq!(err4.message(), "TLS error: unexpected error: handshake failed");

    let fault3 = fault_of_nts_error(&ntp_proto::NtsError::UnrecognizedCriticalRecord);
    let err3 = Error::from_ke_fault(fault3);
    assert_eq!(
        err3.message(),
        "NTS key exchange failed: Unrecognized critical NTS record"
    );

    // Server-reported error codes keep their numbers.
    let fault5 = fault_of_nts_error(&ntp_proto::NtsError::Error(7u16.into()));
    assert!(matches!(fault5, KeFault::RemoteError(7)));
    let err5 = Error::from_ke_fault(fault5);
    assert_eq!(err5.message(), "NTS key exchange failed: Unknown error code: 7");

    let err6 = Error::from_ke_fault(fault_of_nts_error(&ntp_proto::NtsError::Error(1u16.into())));
    assert_eq!(err6.message(), "NTS key exchange failed: Bad request");

    let err7 = Error::from_ke_fault(fault_of_nts_error(&ntp_proto::NtsError::UnknownWarning(300)));
    assert_eq!(
        err7.message(),
        "NTS key exchange failed: Unknown warning code: 300"
    );
}

#[test]
fn test_session_install_rejects_bad_material() {
    let info_no_cookies = NtsKeResult::new(
        ServerAddr {
            host: "10.0.0.7".to_string(),
            port: 123,
        },
        "AEAD_AES_SIV_CMAC_256".to_string(),
        vec![],
        1,
    );
    let mut client = NtsClient::new(NtsClientConfig::new("example-nts-host"));
    client.begin_connect().unwrap();
    let r = client.install_session(info_no_cookies, vec![1; 32], vec![2; 32]);
    match r {
        Err(Error::KeyExchange(m)) => assert!(m.contains("No cookies")),
        other => panic!("expected a key-exchange error, got {:?}", other.map(|_| ())),
    }
    assert!(!client.is_connected());

    let info = NtsKeResult::new(
        ServerAddr {
            host: "10.0.0.7".to_string(),
            port: 123,
        },
        "AEAD_AES_SIV_CMAC_256".to_string(),
        vec![vec![0x05; 100]],
        1,
    );
    let mut client2 = NtsClient::new(NtsClientConfig::new("example-nts-host"));
    client2.begin_connect().unwrap();
    // Mismatched key lengths are refused.
    let r2 = client2.install_session(info, vec![1; 32], vec![2; 64]);
    match r2 {
        Err(Error::KeyExchange(m)) => assert!(m.contains("key length")),
        other => panic!("expected a key-exchange error, got {:?}", other.map(|_| ())),
    }
    assert!(!client2.is_connected());
}

#[test]
fn test_request_authenticates_under_client_key() {
    let c2s = vec![0x09u8; 32];
    let s2c = vec![0x08u8; 32];
    let cookies: Vec<Vec<u8>> = (1..=3).map(|i| vec![i as u8; 100]).collect();
    let mut client = ready_client(cookies, c2s.clone(), s2c);

    let now = 1_700_000_000 * NANOS_PER_SEC;
    let (request, pq) = send_query(&mut client, now);

    // The request's own authenticator opens under the client-to-server
    // key over everything before it, and carries no cookies in its
    // (empty) encrypted payload.
    let (cookies, secs, frac) = rkik_nts::exchange::process_response(&request, &pq.unique_id, &c2s)
        .expect("request must authenticate under the client-to-server key");
    assert!(cookies.is_empty());
    assert_eq!(secs, ((1_700_000_000u64 + 2_208_988_800) % 0x1_0000_0000) as u32);
    assert_eq!(frac, 0);
}

#[test]
fn test_oversized_cookie_fails_query() {
    let mut client = ready_client(
        vec![vec![0x05; 70_000], vec![0x06; 100]],
        vec![1; 32],
        vec![2; 32],
    );
    let r = client.create_ntp_request(0, vec![0; 32], vec![0; 16]);
    assert!(matches!(r, Err(Error::Protocol(_))));
    // The oversized cookie was consumed (single use); the next query
    // uses the remaining good cookie.
    assert_eq!(client.cookie_pool_count(), 1);
    let r2 = client.create_ntp_request(0, vec![0; 32], vec![0; 16]);
    assert!(r2.is_ok());
}

#[test]
fn test_unaligned_cookie_is_padded() {
    let c2s = vec![7u8; 32];
    let mut client = ready_client(vec![vec![0x05; 101]], c2s.clone(), vec![8u8; 32]);
    let (request, pq) = client
        .create_ntp_request(0, vec![0; 32], vec![0; 16])
        .expect("unaligned cookie must be padded into its field");
    // The request still parses and authenticates.
    let r = rkik_nts::exchange::process_response(&request, &pq.unique_id, &c2s);
    assert!(r.is_ok());
}
