//! Configuration construction and validation.

use rkik_nts::client::NtsClient;
use rkik_nts::config::NtsClientConfig;
use rkik_nts::types::ServerAddr;

#[test]
fn test_default_config() {
    let config = NtsClientConfig::default();
    assert_eq!(config.nts_ke_server, ""); // Default is empty
    assert_eq!(config.nts_ke_port, 4460);
    assert_eq!(config.ntp_version, 4);
    assert!(config.verify_tls_cert);
    // Default config with empty server should fail validation
    assert!(config.validate().is_err());
}

#[test]
fn test_builder_pattern() {
    let config = NtsClientConfig::new("custom.server.com")
        .with_port(1234)
        .with_timeout(10_000)
        .with_max_retries(5);

    assert_eq!(config.nts_ke_server, "custom.server.com");
    assert_eq!(config.nts_ke_port, 1234);
    assert_eq!(config.timeout_ms, 10_000);
    assert_eq!(config.max_retries, 5);
}

#[test]
fn test_empty_server_validation() {
    let config = NtsClientConfig {
        nts_ke_server: String::new(),
        ..Default::default()
    };
    let result = config.validate();
    assert!(result.is_err());
    assert!(result.unwrap_err().message().contains("hostname is required"));
}

#[test]
fn test_invalid_ntp_version() {
    let config = NtsClientConfig {
        ntp_version: 2,
        ..Default::default()
    };
    assert!(config.validate().is_err());

    let config = NtsClientConfig {
        ntp_version: 5,
        ..Default::default()
    };
    assert!(config.validate().is_err());
}

#[test]
fn test_valid_ntp_versions() {
    let config3 = NtsClientConfig::new("test.server.com").with_ntp_version(3);
    assert!(config3.validate().is_ok());

    let config4 = NtsClientConfig::new("test.server.com").with_ntp_version(4);
    assert!(config4.validate().is_ok());
}

#[test]
fn test_tls_verification_disable() {
    let config = NtsClientConfig::new("test.server.com").with_tls_verification(false);
    assert!(!config.verify_tls_cert);
}

#[test]
fn test_config_builder() {
    let config = NtsClientConfig::new("time.cloudflare.com")
        .with_port(4460)
        .with_timeout(10_000)
        .with_max_retries(3);

    assert_eq!(config.nts_ke_server, "time.cloudflare.com");
    assert_eq!(config.nts_ke_port, 4460);
    assert_eq!(config.timeout_ms, 10_000);
    assert_eq!(config.max_retries, 3);
}

#[test]
fn test_config_default() {
    let config = NtsClientConfig::default();
    assert_eq!(config.nts_ke_port, 4460);
    assert_eq!(config.timeout_ms, 10_000);
    assert_eq!(config.max_retries, 3);
    assert!(config.verify_tls_cert);
}

#[test]
fn test_config_with_ntp_version() {
    let config_v3 = NtsClientConfig::new("time.cloudflare.com").with_ntp_version(3);
    assert_eq!(config_v3.ntp_version, 3);

    let config_v4 = NtsClientConfig::new("time.cloudflare.com").with_ntp_version(4);
    assert_eq!(config_v4.ntp_version, 4);
}

#[test]
fn test_client_creation() {
    let config = NtsClientConfig::new("time.cloudflare.com");
    let client = NtsClient::new(config);

    assert!(!client.is_connected());
    assert!(client.ntp_server().is_none());
}

#[test]
fn test_ntp_server_override() {
    let addr = ServerAddr {
        host: "192.0.2.1".to_string(),
        port: 123,
    };
    let config = NtsClientConfig::new("time.cloudflare.com").with_ntp_server(addr);
    let client = NtsClient::new(config);
    let server = client.ntp_server().expect("override should be visible before connecting");
    assert_eq!(server.host, "192.0.2.1");
    assert_eq!(server.port, 123);
}
