//! The client orchestrator.
//!
//! A finite-state machine over the connection lifecycle: Disconnected,
//! KeyExchangeInFlight, Ready. The embedding application owns the
//! sockets and the TLS channel; it reports the outcome of each
//! key-exchange and each request/response round into this state
//! machine, which owns the configuration, the cookie and key store and
//! the diagnostic view of the last key exchange.

use vstd::prelude::*;
use crate::config::NtsClientConfig;
use crate::error::Error;
use crate::exchange::{build_request, process_response, spec_request_bytes, SpecRespOutcome};
use crate::exchange::spec_process_response;
use crate::ke::{harvest_ke_result, spec_ke_transfer_ok, KeTransfer};
use crate::ke::{c2s_key_of, s2c_key_of, stash_of};
use crate::packet::{
    ntp_to_unix_nanos, push_zeros, spec_ntp_to_unix_nanos, spec_pad4, spec_unix_nanos_to_ntp,
};
use crate::store::CookieStore;
use crate::types::{NtsKeResult, ServerAddr, TimeSnapshot};
use crate::wire::{copy_bytes, lemma_deep_view_push};

verus! {

/// The pool size the client aims to keep: enough placeholders are sent
/// with each request to bring the pool back to this many cookies.
pub const COOKIE_POOL_TARGET: usize = 8;

/// The connection state of an NTS client.
#[derive(Debug, PartialEq, Eq, Structural)]
pub enum ConnState {
    /// No session; `connect` starts a key exchange.
    Disconnected,
    /// A key exchange is in flight.
    KeyExchangeInFlight,
    /// A key exchange succeeded; time queries may run.
    Ready,
}

/// The request side of one in-flight time query.
pub struct PendingQuery {
    /// The unique identifier the request carried.
    pub unique_id: Vec<u8>,
    /// When the request was sent, in nanoseconds since the Unix epoch.
    pub send_unix_nanos: u64,
}

/// A high-level NTS (Network Time Security) client.
///
/// This state machine handles NTS key exchange bookkeeping and
/// authenticated NTP time queries; the embedding application performs
/// the I/O and feeds packets and timestamps through it.
pub struct NtsClient {
    /// The configuration the client was created with.
    pub config: NtsClientConfig,
    /// Where in the connection lifecycle the client stands.
    pub state: ConnState,
    /// The AEAD keys and cookie pool of the current session.
    pub store: CookieStore,
    /// The diagnostic view of the last successful key exchange.
    pub nts_state: Option<NtsKeResult>,
}

impl NtsClient {
    /// A client is well formed when a Ready state is backed by a valid
    /// configuration, a usable key pair and a key-exchange result.
    pub open spec fn wf(&self) -> bool {
        self.state is Ready ==> {
            &&& self.config.spec_valid()
            &&& self.store.spec_has_keys()
            &&& self.nts_state is Some
        }
    }

    /// The NTP server the client queries: the configured override when
    /// one is set, otherwise the server the key exchange negotiated.
    pub open spec fn spec_effective_server(&self) -> Option<ServerAddr> {
        match self.config.ntp_server {
            Some(a) => Some(a),
            None => match self.nts_state {
                Some(info) => Some(info.ntp_server),
                None => None,
            },
        }
    }

    /// Create a new NTS client with the given configuration.
    pub fn new(config: NtsClientConfig) -> (r: NtsClient)
        ensures
            r.config == config,
            r.state is Disconnected,
            r.nts_state is None,
            r.store.cookies@.len() == 0,
            r.store.c2s_key@.len() == 0,
            r.store.s2c_key@.len() == 0,
            r.wf(),
    {
        NtsClient {
            config,
            state: ConnState::Disconnected,
            store: CookieStore::new_empty(),
            nts_state: None,
        }
    }

    /// Check if the client is connected and ready to query time.
    pub fn is_connected(&self) -> (r: bool)
        ensures
            r == (self.state is Ready),
    {
        matches!(self.state, ConnState::Ready)
    }

    /// Get the NTP server address being used: the configured override,
    /// or the negotiated server once a key exchange succeeded.
    pub fn ntp_server(&self) -> (r: Option<&ServerAddr>)
        ensures
            match self.spec_effective_server() {
                Some(a) => r matches Some(ra) && *ra == a,
                None => r is None,
            },
    {
        match &self.config.ntp_server {
            Some(a) => Some(a),
            None => match &self.nts_state {
                Some(info) => Some(&info.ntp_server),
                None => None,
            },
        }
    }

    /// Get a reference to the NTS key exchange result for diagnostic
    /// purposes. Returns `None` if not connected.
    pub fn nts_ke_info(&self) -> (r: Option<&NtsKeResult>)
        ensures
            match self.nts_state {
                Some(info) => r matches Some(ri) && *ri == info,
                None => r is None,
            },
    {
        match &self.nts_state {
            Some(info) => Some(info),
            None => None,
        }
    }

    /// The number of unused cookies in the pool.
    pub fn cookie_pool_count(&self) -> (r: usize)
        ensures
            r == self.store.cookies@.len(),
    {
        self.store.cookie_count()
    }

    /// Start connecting: validate the configuration and enter the
    /// key-exchange state.
    ///
    /// The previous session's keys, cookies and key-exchange result
    /// are discarded unconditionally, whether or not the new exchange
    /// ever succeeds. Fails exactly when the configuration is invalid,
    /// in which case the client stays Disconnected.
    pub fn begin_connect(&mut self) -> (r: Result<(), Error>)
        ensures
            r is Ok <==> old(self).config.spec_valid(),
            final(self).config == old(self).config,
            final(self).nts_state is None,
            final(self).store.cookies@.len() == 0,
            final(self).store.c2s_key@.len() == 0,
            final(self).store.s2c_key@.len() == 0,
            old(self).config.spec_valid() ==> final(self).state is KeyExchangeInFlight,
            !old(self).config.spec_valid() ==> final(self).state is Disconnected && (r matches Err(
                e,
            ) && e matches Error::InvalidConfig(_)),
            final(self).wf(),
    {
        self.store.clear();
        self.nts_state = None;
        match self.config.validate() {
            Ok(()) => {
                self.state = ConnState::KeyExchangeInFlight;
                Ok(())
            },
            Err(e) => {
                self.state = ConnState::Disconnected;
                Err(e)
            },
        }
    }

    /// Install a completed session from plain values: the diagnostic
    /// result and the two raw traffic keys.
    ///
    /// Succeeds exactly when the keys are a supported, matching pair
    /// and at least one cookie came with them; then the client becomes
    /// Ready, the store is replaced wholesale with the new keys and
    /// cookies, and the diagnostic view records the result. Otherwise
    /// the client falls back to Disconnected with an empty store.
    pub fn install_session(
        &mut self,
        info: NtsKeResult,
        c2s_key: Vec<u8>,
        s2c_key: Vec<u8>,
    ) -> (r: Result<(), Error>)
        requires
            old(self).state is KeyExchangeInFlight,
            old(self).config.spec_valid(),
        ensures
            r is Ok <==> ((c2s_key@.len() == 32 || c2s_key@.len() == 64) && s2c_key@.len()
                == c2s_key@.len() && info.cookies@.len() > 0),
            final(self).config == old(self).config,
            final(self).wf(),
            match r {
                Ok(()) => {
                    &&& final(self).state is Ready
                    &&& final(self).store.cookies.deep_view() == info.cookies.deep_view()
                    &&& final(self).store.c2s_key == c2s_key
                    &&& final(self).store.s2c_key == s2c_key
                    &&& final(self).nts_state == Some(info)
                },
                Err(e) => {
                    &&& final(self).state is Disconnected
                    &&& final(self).nts_state is None
                    &&& final(self).store.cookies@.len() == 0
                    &&& final(self).store.c2s_key@.len() == 0
                    &&& final(self).store.s2c_key@.len() == 0
                    &&& e matches Error::KeyExchange(m)
                    &&& info.cookies@.len() == 0 ==> m@ == "No cookies received"@
                    &&& (info.cookies@.len() > 0 && !((c2s_key@.len() == 32 || c2s_key@.len()
                        == 64) && s2c_key@.len() == c2s_key@.len())) ==> m@
                        == "Invalid key length"@
                },
            },
    {
        if info.cookies.len() == 0 {
            self.store.clear();
            self.nts_state = None;
            self.state = ConnState::Disconnected;
            return Err(Error::KeyExchange("No cookies received".to_owned()));
        }
        if !((c2s_key.len() == 32 || c2s_key.len() == 64) && s2c_key.len() == c2s_key.len()) {
            self.store.clear();
            self.nts_state = None;
            self.state = ConnState::Disconnected;
            return Err(Error::KeyExchange("Invalid key length".to_owned()));
        }
        let pool = copy_cookies(&info.cookies);
        self.store.install(c2s_key, s2c_key, pool);
        self.nts_state = Some(info);
        self.state = ConnState::Ready;
        Ok(())
    }

    /// Complete a connect after the key exchange finished.
    ///
    /// On an acceptable transfer the client becomes Ready, the store
    /// is replaced with the new keys and cookies, and the diagnostic
    /// view records the negotiated parameters; otherwise the client
    /// falls back to Disconnected with an empty store.
    pub fn finish_connect_success(&mut self, t: KeTransfer) -> (r: Result<(), Error>)
        requires
            old(self).state is KeyExchangeInFlight,
            old(self).config.spec_valid(),
        ensures
            r is Ok <==> spec_ke_transfer_ok(t),
            final(self).config == old(self).config,
            final(self).wf(),
            match r {
                Ok(()) => {
                    &&& final(self).state is Ready
                    &&& final(self).store.cookies.deep_view() == stash_of(*t.nts)
                    &&& final(self).store.c2s_key@ == c2s_key_of(*t.nts)
                    &&& final(self).store.s2c_key@ == s2c_key_of(*t.nts)
                    &&& final(self).nts_state matches Some(info) && info.cookies.deep_view()
                        == stash_of(*t.nts) && info.ntp_server.host == t.remote
                        && info.ntp_server.port == t.port && info.ke_duration_ms == t.duration_ms
                },
                Err(_) => {
                    &&& final(self).state is Disconnected
                    &&& final(self).nts_state is None
                    &&& final(self).store.cookies@.len() == 0
                    &&& final(self).store.c2s_key@.len() == 0
                    &&& final(self).store.s2c_key@.len() == 0
                },
            },
    {
        match harvest_ke_result(t) {
            Ok((info, c2s, s2c)) => self.install_session(info, c2s, s2c),
            Err(e) => {
                self.store.clear();
                self.nts_state = None;
                self.state = ConnState::Disconnected;
                Err(e)
            },
        }
    }

    /// Record that the key exchange failed or timed out: back to
    /// Disconnected with nothing of the session kept.
    pub fn finish_connect_failure(&mut self)
        ensures
            final(self).config == old(self).config,
            final(self).state is Disconnected,
            final(self).nts_state is None,
            final(self).store.cookies@.len() == 0,
            final(self).store.c2s_key@.len() == 0,
            final(self).store.s2c_key@.len() == 0,
            final(self).wf(),
    {
        self.store.clear();
        self.nts_state = None;
        self.state = ConnState::Disconnected;
    }

    /// The number of placeholder fields a request sends when the pool
    /// holds `pool_after_take` cookies after the one consumed: enough
    /// for the response to bring the pool back to the target, counting
    /// the replacement for the consumed cookie itself.
    pub open spec fn spec_placeholder_count(pool_after_take: nat) -> nat {
        if pool_after_take + 1 >= COOKIE_POOL_TARGET {
            0
        } else {
            (COOKIE_POOL_TARGET - 1 - pool_after_take) as nat
        }
    }

    /// Build one NTS-protected time request.
    ///
    /// Consumes the oldest cookie (single use: it is not refunded even
    /// if the query later fails). Fails with a not-connected error
    /// when the client is not Ready, with `NoCookiesAvailable` when
    /// the pool is empty, and with a protocol error when the consumed
    /// cookie cannot fit an extension field; the connection state
    /// never changes.
    pub fn create_ntp_request(
        &mut self,
        now_unix_nanos: u64,
        unique_id: Vec<u8>,
        nonce: Vec<u8>,
    ) -> (r: Result<(Vec<u8>, PendingQuery), Error>)
        requires
            old(self).wf(),
            unique_id@.len() == 32,
            nonce@.len() == 16,
        ensures
            final(self).config == old(self).config,
            final(self).state == old(self).state,
            final(self).nts_state == old(self).nts_state,
            final(self).store.c2s_key == old(self).store.c2s_key,
            final(self).store.s2c_key == old(self).store.s2c_key,
            final(self).wf(),
            !(old(self).state is Ready) ==> (r matches Err(e) && e matches Error::Other(m) && m@
                == "Not connected. Call connect() first."@ && final(self).store.cookies
                == old(self).store.cookies),
            old(self).state is Ready && old(self).store.cookies@.len() == 0 ==> (r matches Err(e)
                && e is NoCookiesAvailable && final(self).store.cookies
                == old(self).store.cookies),
            old(self).state is Ready && old(self).store.cookies@.len() > 0 ==> {
                &&& final(self).store.cookies@ == old(self).store.cookies@.drop_first()
                &&& {
                    let cookie = old(self).store.cookies@[0]@;
                    let padded = cookie + crate::packet::zero_bytes(
                        spec_pad4(cookie.len() as int) as nat,
                    );
                    if 4 + padded.len() <= 0xFFFF {
                        r matches Ok((pkt, pq)) && pq.unique_id@ == unique_id@
                            && pq.send_unix_nanos == now_unix_nanos && pkt@ == spec_request_bytes(
                            old(self).config.ntp_version,
                            spec_unix_nanos_to_ntp(now_unix_nanos).0,
                            spec_unix_nanos_to_ntp(now_unix_nanos).1,
                            unique_id@,
                            padded,
                            Self::spec_placeholder_count(
                                (old(self).store.cookies@.len() - 1) as nat,
                            ),
                            padded.len(),
                            old(self).store.c2s_key@,
                            nonce@,
                        )
                    } else {
                        r matches Err(e) && e matches Error::Protocol(m) && m@
                            == "cookie too large"@
                    }
                }
            },
    {
        if !matches!(self.state, ConnState::Ready) {
            return Err(Error::Other("Not connected. Call connect() first.".to_owned()));
        }

        let mut cookie = match self.store.take_cookie() {
            Ok(c) => c,
            Err(e) => {
                return Err(e);
            },
        };

        let pad = (4 - cookie.len() % 4) % 4;
        if cookie.len() > 0xFFFF - 4 - pad {
            return Err(Error::Protocol("cookie too large".to_owned()));
        }
        push_zeros(&mut cookie, pad);

        let pool_after = self.store.cookie_count();
        let n_placeholders: usize = if pool_after >= COOKIE_POOL_TARGET - 1 {
            0
        } else {
            COOKIE_POOL_TARGET - 1 - pool_after
        };

        let pkt = build_request(
            self.config.ntp_version,
            now_unix_nanos,
            &unique_id,
            &cookie,
            n_placeholders,
            cookie.len(),
            &self.store.c2s_key,
            &nonce,
        );
        Ok((pkt, PendingQuery { unique_id, send_unix_nanos: now_unix_nanos }))
    }

    /// Handle one response packet for an in-flight query.
    ///
    /// On an authenticated, matching response the replacement cookies
    /// join the pool and the result is the time snapshot of this
    /// exchange; on any failure the store and the state are untouched
    /// and the query fails with the cause — no time value is ever
    /// returned from an unauthenticated packet.
    pub fn handle_response(
        &mut self,
        data: &[u8],
        query: &PendingQuery,
        recv_unix_nanos: u64,
    ) -> (r: Result<TimeSnapshot, Error>)
        requires
            old(self).wf(),
            old(self).state is Ready,
        ensures
            final(self).config == old(self).config,
            final(self).state == old(self).state,
            final(self).nts_state == old(self).nts_state,
            final(self).store.c2s_key == old(self).store.c2s_key,
            final(self).store.s2c_key == old(self).store.s2c_key,
            final(self).wf(),
            match spec_process_response(data@, query.unique_id@, old(self).store.s2c_key@) {
                SpecRespOutcome::Accepted { cookies, secs, frac } => {
                    &&& r matches Ok(snap)
                    &&& final(self).store.cookies.deep_view() == old(
                        self,
                    ).store.cookies.deep_view() + cookies
                    &&& snap.network_time == spec_ntp_to_unix_nanos(secs, frac)
                    &&& snap.system_time == recv_unix_nanos
                    &&& snap.offset == (if recv_unix_nanos >= spec_ntp_to_unix_nanos(secs, frac) {
                        recv_unix_nanos - spec_ntp_to_unix_nanos(secs, frac)
                    } else {
                        spec_ntp_to_unix_nanos(secs, frac) - recv_unix_nanos
                    })
                    &&& snap.round_trip_delay == (if recv_unix_nanos >= query.send_unix_nanos {
                        recv_unix_nanos - query.send_unix_nanos
                    } else {
                        0
                    })
                    &&& snap.authenticated == true
                    &&& (old(self).spec_effective_server() matches Some(a) && snap.server@
                        == a.host@)
                },
                outcome => {
                    &&& final(self).store.cookies == old(self).store.cookies
                    &&& r matches Err(e)
                    &&& match outcome {
                        SpecRespOutcome::Accepted { .. } => false,
                        SpecRespOutcome::TooSmall => e matches Error::InvalidResponse(_),
                        SpecRespOutcome::MalformedField => e matches Error::InvalidResponse(_),
                        SpecRespOutcome::NoAuthenticator => e matches Error::AuthenticationFailed(
                            _,
                        ),
                        SpecRespOutcome::AuthFailed => e matches Error::AuthenticationFailed(_),
                        SpecRespOutcome::UidMismatch => e matches Error::InvalidResponse(_),
                        SpecRespOutcome::MalformedEncrypted => e matches Error::InvalidResponse(_),
                    }
                },
            },
    {
        let (cookies, secs, frac) = match process_response(data, &query.unique_id, &self.store.s2c_key) {
            Ok(out) => out,
            Err(e) => {
                return Err(e);
            },
        };

        let ghost base = self.store.cookies.deep_view();
        let ghost newly = cookies.deep_view();
        let mut i: usize = 0;
        while i < cookies.len()
            invariant
                i <= cookies@.len(),
                newly == cookies.deep_view(),
                self.store.cookies.deep_view() == base + newly.subrange(0, i as int),
                self.store.c2s_key == old(self).store.c2s_key,
                self.store.s2c_key == old(self).store.s2c_key,
                self.config == old(self).config,
                self.state == old(self).state,
                self.nts_state == old(self).nts_state,
            decreases cookies@.len() - i,
        {
            let c = copy_bytes(&cookies[i]);
            let ghost prev = self.store.cookies;
            self.store.add_cookie(c);
            proof {
                lemma_deep_view_push(prev, self.store.cookies, c);
                assert(newly[i as int] == cookies@[i as int].deep_view());
                assert((base + newly.subrange(0, i as int)).push(newly[i as int]) =~= base
                    + newly.subrange(0, i + 1));
            }
            i = i + 1;
        }
        proof {
            assert(newly.subrange(0, newly.len() as int) =~= newly);
        }

        let network_time = ntp_to_unix_nanos(secs, frac);
        let system_time = recv_unix_nanos;
        let offset: u64 = if system_time >= network_time {
            system_time - network_time
        } else {
            network_time - system_time
        };
        let round_trip_delay: u64 = if recv_unix_nanos >= query.send_unix_nanos {
            recv_unix_nanos - query.send_unix_nanos
        } else {
            0
        };

        let server: String = match &self.config.ntp_server {
            Some(a) => a.host.clone(),
            None => match &self.nts_state {
                Some(info) => info.ntp_server.host.clone(),
                None => String::new(),
            },
        };

        Ok(
            TimeSnapshot {
                system_time,
                network_time,
                offset,
                round_trip_delay,
                server,
                authenticated: true,
            },
        )
    }

    /// Record that no response arrived within the configured timeout.
    ///
    /// The query fails with a timeout error; the connection stays as
    /// it was — in particular a Ready client remains Ready, only the
    /// consumed cookie is gone.
    pub fn on_query_timeout(&mut self) -> (r: Error)
        ensures
            *final(self) == *old(self),
            r is Timeout,
    {
        Error::Timeout
    }
}

/// Copy a vector of byte vectors.
fn copy_cookies(v: &Vec<Vec<u8>>) -> (r: Vec<Vec<u8>>)
    ensures
        r.deep_view() == v.deep_view(),
{
    let mut r: Vec<Vec<u8>> = Vec::new();
    let mut i: usize = 0;
    assert(r.deep_view() =~= v.deep_view().subrange(0, 0));
    while i < v.len()
        invariant
            i <= v@.len(),
            r.deep_view() == v.deep_view().subrange(0, i as int),
        decreases v@.len() - i,
    {
        let c = copy_bytes(&v[i]);
        let ghost prev = r;
        r.push(c);
        proof {
            lemma_deep_view_push(prev, r, c);
            assert(v.deep_view()[i as int] == v@[i as int].deep_view());
            assert(v.deep_view().subrange(0, i as int).push(v.deep_view()[i as int]) =~= v
                .deep_view()
                .subrange(0, i + 1));
        }
        i = i + 1;
    }
    assert(v.deep_view().subrange(0, v.deep_view().len() as int) =~= v.deep_view());
    r
}

} // verus!
