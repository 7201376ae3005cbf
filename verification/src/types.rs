//! Common types used throughout the library.

use vstd::prelude::*;

verus! {

/// A server address as host name (or textual IP address) and port.
///
/// The embedding application resolves the host to a socket address when
/// it opens the transport; inside the library an address is plain data.
#[derive(Debug, Clone)]
pub struct ServerAddr {
    /// Host name or textual IP address.
    pub host: String,
    /// Port number.
    pub port: u16,
}

/// Nanoseconds in one millisecond.
pub const NANOS_PER_MILLI: u64 = 1_000_000;

/// Result of a time synchronization query.
///
/// All times are nanoseconds since the Unix epoch; durations are in
/// nanoseconds.
#[derive(Debug, Clone)]
pub struct TimeSnapshot {
    /// The current system time when the measurement was taken.
    pub system_time: u64,

    /// The network time received from the NTP server.
    pub network_time: u64,

    /// The magnitude of the offset between system time and network time.
    pub offset: u64,

    /// Round-trip delay to the server.
    pub round_trip_delay: u64,

    /// Server that provided the time.
    pub server: String,

    /// Whether the response was authenticated via NTS.
    pub authenticated: bool,
}

impl TimeSnapshot {
    /// The signed clock offset in milliseconds.
    /// Positive means the system clock is ahead of network time.
    pub open spec fn spec_offset_signed(&self) -> int {
        if self.system_time >= self.network_time {
            (self.system_time - self.network_time) / (NANOS_PER_MILLI as int)
        } else {
            -((self.network_time - self.system_time) / (NANOS_PER_MILLI as int))
        }
    }

    /// Calculate the clock offset as signed milliseconds.
    /// Positive means the system clock is ahead of network time.
    pub fn offset_signed(&self) -> (r: i64)
        ensures
            r == self.spec_offset_signed(),
    {
        if self.system_time >= self.network_time {
            ((self.system_time - self.network_time) / NANOS_PER_MILLI) as i64
        } else {
            -(((self.network_time - self.system_time) / NANOS_PER_MILLI) as i64)
        }
    }

    /// Check if the system clock is ahead of network time.
    pub fn is_ahead(&self) -> (r: bool)
        ensures
            r == (self.system_time > self.network_time),
    {
        self.system_time > self.network_time
    }

    /// Check if the system clock is behind network time.
    pub fn is_behind(&self) -> (r: bool)
        ensures
            r == (self.system_time < self.network_time),
    {
        self.system_time < self.network_time
    }
}

/// Sign convention of the clock offset: a system clock ahead of network
/// time by at least one millisecond gives a positive signed offset, and
/// a system clock behind by at least one millisecond gives a negative
/// one; the signed offset never contradicts the direction of the clock
/// difference.
pub proof fn lemma_offset_sign_convention(s: TimeSnapshot)
    ensures
        s.system_time >= s.network_time + NANOS_PER_MILLI ==> s.spec_offset_signed() > 0,
        s.system_time >= s.network_time ==> s.spec_offset_signed() >= 0,
        s.network_time >= s.system_time + NANOS_PER_MILLI ==> s.spec_offset_signed() < 0,
        s.network_time >= s.system_time ==> s.spec_offset_signed() <= 0,
{
    if s.system_time >= s.network_time + NANOS_PER_MILLI {
        vstd::arithmetic::div_mod::lemma_div_non_zero(
            s.system_time - s.network_time,
            NANOS_PER_MILLI as int,
        );
    }
    if s.network_time >= s.system_time + NANOS_PER_MILLI {
        vstd::arithmetic::div_mod::lemma_div_non_zero(
            s.network_time - s.system_time,
            NANOS_PER_MILLI as int,
        );
    }
    if s.system_time >= s.network_time {
        vstd::arithmetic::div_mod::lemma_div_pos_is_pos(
            s.system_time - s.network_time,
            NANOS_PER_MILLI as int,
        );
    }
    if s.network_time >= s.system_time {
        vstd::arithmetic::div_mod::lemma_div_pos_is_pos(
            s.network_time - s.system_time,
            NANOS_PER_MILLI as int,
        );
    }
}

/// NTS key exchange result containing the negotiated parameters.
///
/// This is the immutable diagnostic view of one successful key
/// exchange; the working cookies and keys live in the cookie store.
#[derive(Debug)]
pub struct NtsKeResult {
    /// The NTP server to use for time queries.
    pub ntp_server: ServerAddr,

    /// The negotiated AEAD algorithm.
    pub aead_algorithm: String,

    /// Cookies received during the key exchange.
    pub cookies: Vec<Vec<u8>>,

    /// Duration of the NTS-KE handshake in milliseconds (for diagnostics).
    pub ke_duration_ms: u64,
}

impl NtsKeResult {
    /// Create a new NtsKeResult from the negotiated parameters.
    pub fn new(
        ntp_server: ServerAddr,
        aead_algorithm: String,
        cookies: Vec<Vec<u8>>,
        ke_duration_ms: u64,
    ) -> (r: NtsKeResult)
        ensures
            r.ntp_server == ntp_server,
            r.aead_algorithm == aead_algorithm,
            r.cookies == cookies,
            r.ke_duration_ms == ke_duration_ms,
    {
        NtsKeResult { ntp_server, aead_algorithm, cookies, ke_duration_ms }
    }

    /// Get the number of available cookies.
    pub fn cookie_count(&self) -> (r: usize)
        ensures
            r == self.cookies@.len(),
    {
        self.cookies.len()
    }

    /// Check if there are sufficient cookies available.
    pub fn has_cookies(&self) -> (r: bool)
        ensures
            r == (self.cookies@.len() > 0),
    {
        self.cookies.len() > 0
    }

    /// Get the sizes of all cookies (useful for diagnostics).
    ///
    /// Returns a vector containing the size in bytes of each cookie.
    pub fn cookie_sizes(&self) -> (r: Vec<usize>)
        ensures
            r@.len() == self.cookies@.len(),
            forall|i: int| 0 <= i < r@.len() ==> r@[i] == self.cookies@[i]@.len(),
    {
        let mut sizes: Vec<usize> = Vec::new();
        let mut i: usize = 0;
        while i < self.cookies.len()
            invariant
                i <= self.cookies@.len(),
                sizes@.len() == i,
                forall|j: int| 0 <= j < i ==> sizes@[j] == self.cookies@[j]@.len(),
            decreases self.cookies@.len() - i,
        {
            sizes.push(self.cookies[i].len());
            i = i + 1;
        }
        sizes
    }

    /// Get the duration of the NTS-KE handshake in milliseconds.
    ///
    /// This is useful for diagnostic purposes to measure the overhead
    /// of the TLS key exchange process.
    pub fn ke_duration(&self) -> (r: u64)
        ensures
            r == self.ke_duration_ms,
    {
        self.ke_duration_ms
    }

    /// Get a reference to the cookies (for diagnostic purposes).
    pub fn cookies_ref(&self) -> (r: &Vec<Vec<u8>>)
        ensures
            r == &self.cookies,
    {
        &self.cookies
    }
}

} // verus!
