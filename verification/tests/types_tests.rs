//! Time snapshots and key-exchange results.

use rkik_nts::error::{to_decimal, Error};
use rkik_nts::types::{NtsKeResult, ServerAddr, TimeSnapshot};

const NANOS_PER_SEC: u64 = 1_000_000_000;

#[test]
fn test_time_snapshot_offset_signed_ahead() {
    let network_time: u64 = 1_700_000_000 * NANOS_PER_SEC;
    let system_time = network_time + 10 * NANOS_PER_SEC;

    let snapshot = TimeSnapshot {
        system_time,
        network_time,
        offset: 10 * NANOS_PER_SEC,
        round_trip_delay: 50_000_000,
        server: "test.server".to_string(),
        authenticated: true,
    };

    assert!(snapshot.offset_signed() > 0);
    assert!(snapshot.is_ahead());
    assert!(!snapshot.is_behind());
}

#[test]
fn test_time_snapshot_offset_signed_behind() {
    let system_time: u64 = 1_700_000_000 * NANOS_PER_SEC;
    let network_time = system_time + 5 * NANOS_PER_SEC;

    let snapshot = TimeSnapshot {
        system_time,
        network_time,
        offset: 5 * NANOS_PER_SEC,
        round_trip_delay: 50_000_000,
        server: "test.server".to_string(),
        authenticated: true,
    };

    assert!(snapshot.offset_signed() < 0);
    assert!(!snapshot.is_ahead());
    assert!(snapshot.is_behind());
}

#[test]
fn test_offset_signed_exact_milliseconds() {
    let network_time: u64 = 1_700_000_000 * NANOS_PER_SEC;
    let snapshot = TimeSnapshot {
        system_time: network_time + 10 * NANOS_PER_SEC,
        network_time,
        offset: 10 * NANOS_PER_SEC,
        round_trip_delay: 0,
        server: "test.server".to_string(),
        authenticated: true,
    };
    assert_eq!(snapshot.offset_signed(), 10_000);

    let snapshot_behind = TimeSnapshot {
        system_time: network_time,
        network_time: network_time + 5 * NANOS_PER_SEC,
        offset: 5 * NANOS_PER_SEC,
        round_trip_delay: 0,
        server: "test.server".to_string(),
        authenticated: true,
    };
    assert_eq!(snapshot_behind.offset_signed(), -5_000);
}

#[test]
fn test_nts_ke_result_cookie_count() {
    let cookies = vec![vec![1, 2, 3, 4], vec![5, 6, 7, 8, 9]];
    assert_eq!(cookies.len(), 2);
    assert!(!cookies.is_empty());

    let sizes: Vec<usize> = cookies.iter().map(|c| c.len()).collect();
    assert_eq!(sizes, vec![4, 5]);

    let result = NtsKeResult::new(
        ServerAddr {
            host: "test.server".to_string(),
            port: 123,
        },
        "AEAD_AES_SIV_CMAC_256".to_string(),
        cookies,
        7,
    );
    assert_eq!(result.cookie_count(), 2);
    assert!(result.has_cookies());
    assert_eq!(result.cookie_sizes(), vec![4, 5]);
    assert_eq!(result.ke_duration(), 7);
    assert_eq!(result.cookies_ref().len(), 2);
    assert_eq!(result.cookies_ref()[0], vec![1, 2, 3, 4]);
}

#[test]
fn test_nts_ke_result_empty_cookies() {
    let cookies: Vec<Vec<u8>> = vec![];
    assert_eq!(cookies.len(), 0);
    assert!(cookies.is_empty());

    let result = NtsKeResult::new(
        ServerAddr {
            host: "test.server".to_string(),
            port: 123,
        },
        "AEAD_AES_SIV_CMAC_256".to_string(),
        cookies,
        0,
    );
    assert_eq!(result.cookie_count(), 0);
    assert!(!result.has_cookies());
}

#[test]
fn test_error_messages() {
    assert_eq!(Error::Timeout.message(), "Operation timed out");
    assert_eq!(Error::NoCookiesAvailable.message(), "No cookies available");
    assert_eq!(
        Error::InvalidConfig("NTP version must be 3 or 4".to_string()).message(),
        "Invalid configuration: NTP version must be 3 or 4"
    );
    assert_eq!(
        Error::AuthenticationFailed("authenticator verification failed".to_string()).message(),
        "Authentication failed: authenticator verification failed"
    );
    assert_eq!(Error::Io("broken pipe".to_string()).message(), "I/O error: broken pipe");
}

#[test]
fn test_decimal_rendering() {
    assert_eq!(to_decimal(0), "0");
    assert_eq!(to_decimal(7), "7");
    assert_eq!(to_decimal(10), "10");
    assert_eq!(to_decimal(305), "305");
    assert_eq!(to_decimal(65535), "65535");
}
