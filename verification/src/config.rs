//! Configuration for NTS client.

use vstd::prelude::*;
use crate::error::Error;
use crate::types::ServerAddr;

verus! {

/// Configuration for an NTS client.
///
/// Immutable once validation succeeds; all durations are milliseconds.
#[derive(Debug, Clone)]
pub struct NtsClientConfig {
    /// The NTS key exchange server hostname.
    pub nts_ke_server: String,

    /// The NTS key exchange server port (default: 4460).
    pub nts_ke_port: u16,

    /// Timeout for network operations, in milliseconds.
    pub timeout_ms: u64,

    /// Maximum number of retry attempts for failed operations.
    pub max_retries: u32,

    /// Whether to verify the server's TLS certificate.
    ///
    /// The embedding shell may be unable to honor `false`: a TLS
    /// channel that offers no hook for disabling verification will
    /// still check the certificate against its platform roots.
    pub verify_tls_cert: bool,

    /// Optional: specific NTP server address to use after key exchange.
    /// If None, uses the server provided during NTS-KE.
    pub ntp_server: Option<ServerAddr>,

    /// NTP version to use (default: 4).
    pub ntp_version: u8,
}

impl NtsClientConfig {
    /// A configuration is valid when the key-exchange server name is
    /// non-empty and the NTP version is 3 or 4.
    pub open spec fn spec_valid(&self) -> bool {
        self.nts_ke_server@.len() > 0 && (self.ntp_version == 3 || self.ntp_version == 4)
    }
}

impl Default for NtsClientConfig {
    /// The default configuration: standard NTS-KE port, ten-second
    /// timeout, three retries, TLS verification on, NTP version 4 and
    /// an empty server name (which fails validation until set).
    fn default() -> (r: Self)
        ensures
            r.nts_ke_server@.len() == 0,
            r.nts_ke_port == 4460,
            r.timeout_ms == 10_000,
            r.max_retries == 3,
            r.verify_tls_cert == true,
            r.ntp_server is None,
            r.ntp_version == 4,
    {
        NtsClientConfig {
            nts_ke_server: String::new(),
            nts_ke_port: 4460,
            timeout_ms: 10_000,
            max_retries: 3,
            verify_tls_cert: true,
            ntp_server: None,
            ntp_version: 4,
        }
    }
}

impl NtsClientConfig {
    /// Create a new configuration with the given NTS-KE server.
    pub fn new(server: &str) -> (r: Self)
        ensures
            r.nts_ke_server@ == server@,
            r.nts_ke_port == 4460,
            r.timeout_ms == 10_000,
            r.max_retries == 3,
            r.verify_tls_cert == true,
            r.ntp_server is None,
            r.ntp_version == 4,
    {
        NtsClientConfig {
            nts_ke_server: server.to_owned(),
            nts_ke_port: 4460,
            timeout_ms: 10_000,
            max_retries: 3,
            verify_tls_cert: true,
            ntp_server: None,
            ntp_version: 4,
        }
    }

    /// Set the NTS-KE server port.
    pub fn with_port(self, port: u16) -> (r: Self)
        ensures
            r == (NtsClientConfig { nts_ke_port: port, ..self }),
    {
        NtsClientConfig { nts_ke_port: port, ..self }
    }

    /// Set the timeout, in milliseconds.
    pub fn with_timeout(self, timeout_ms: u64) -> (r: Self)
        ensures
            r == (NtsClientConfig { timeout_ms, ..self }),
    {
        NtsClientConfig { timeout_ms, ..self }
    }

    /// Set the maximum number of retries.
    pub fn with_max_retries(self, retries: u32) -> (r: Self)
        ensures
            r == (NtsClientConfig { max_retries: retries, ..self }),
    {
        NtsClientConfig { max_retries: retries, ..self }
    }

    /// Set whether to verify TLS certificates.
    pub fn with_tls_verification(self, verify: bool) -> (r: Self)
        ensures
            r == (NtsClientConfig { verify_tls_cert: verify, ..self }),
    {
        NtsClientConfig { verify_tls_cert: verify, ..self }
    }

    /// Set a specific NTP server to use.
    pub fn with_ntp_server(self, server: ServerAddr) -> (r: Self)
        ensures
            r == (NtsClientConfig { ntp_server: Some(server), ..self }),
    {
        NtsClientConfig { ntp_server: Some(server), ..self }
    }

    /// Set the NTP version.
    pub fn with_ntp_version(self, version: u8) -> (r: Self)
        ensures
            r == (NtsClientConfig { ntp_version: version, ..self }),
    {
        NtsClientConfig { ntp_version: version, ..self }
    }

    /// Validate the configuration.
    ///
    /// Succeeds exactly when the server name is non-empty and the NTP
    /// version is 3 or 4; no I/O is attempted before this check passes.
    pub fn validate(&self) -> (r: Result<(), Error>)
        ensures
            r is Ok <==> self.spec_valid(),
            self.nts_ke_server@.len() == 0 ==> (r matches Err(e)
                && e matches Error::InvalidConfig(m)
                && m@ == "NTS-KE server hostname is required"@),
            self.nts_ke_server@.len() > 0 && !(self.ntp_version == 3 || self.ntp_version == 4)
                ==> (r matches Err(e) && e matches Error::InvalidConfig(m)
                    && m@ == "NTP version must be 3 or 4"@),
    {
        if self.nts_ke_server.as_str().is_empty() {
            return Err(Error::InvalidConfig("NTS-KE server hostname is required".to_owned()));
        }

        if self.ntp_version < 3 || self.ntp_version > 4 {
            return Err(Error::InvalidConfig("NTP version must be 3 or 4".to_owned()));
        }

        Ok(())
    }
}

} // verus!
