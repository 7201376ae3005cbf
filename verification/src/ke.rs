//! The key-exchange boundary.
//!
//! The NTS-KE handshake itself runs over TLS inside `ntp_proto`; the
//! embedding application drives it and hands the completed result into
//! this module as a [`KeTransfer`]. Everything after that point is
//! verified: draining the cookie stash, extracting the raw traffic
//! keys, checking them, and mapping key-exchange faults to this
//! library's error type.

use vstd::prelude::*;
use ntp_proto::Cipher;
use ntp_proto::NtsError as KeError;
use crate::aead::spec_key_len_ok;
use crate::error::{spec_decimal, to_decimal, Error};
use crate::types::{NtsKeResult, ServerAddr};
use crate::wire::lemma_deep_view_push;
use vstd::string::StringExecFns;

verus! {

#[verifier::external_type_specification]
#[verifier::external_body]
/// Declares `ntp_proto::SourceNtsData`, the cookies and AEAD ciphers
/// that one completed key exchange produced.
pub struct ExSourceNtsData(ntp_proto::SourceNtsData);

#[verifier::external_type_specification]
#[verifier::external_body]
/// Declares `ntp_proto::NtsError`, the key-exchange error type.
pub struct ExNtsError(ntp_proto::NtsError);

/// The cookies held by a key-exchange result, oldest first.
pub uninterp spec fn stash_of(nts: ntp_proto::SourceNtsData) -> Seq<Seq<u8>>;

/// The raw client-to-server AEAD key held by a key-exchange result.
pub uninterp spec fn c2s_key_of(nts: ntp_proto::SourceNtsData) -> Seq<u8>;

/// The raw server-to-client AEAD key held by a key-exchange result.
pub uninterp spec fn s2c_key_of(nts: ntp_proto::SourceNtsData) -> Seq<u8>;

/// Relies on `ntp_proto::SourceNtsData::get_cookie` (backed by the
/// crate's cookie stash): returns the oldest stored cookie and removes
/// it, or nothing when the stash is empty; the keys are untouched.
#[verifier::external_body]
fn stash_take(nts: &mut Box<ntp_proto::SourceNtsData>) -> (r: Option<Vec<u8>>)
    ensures
        stash_of(**old(nts)).len() > 0 ==> (r matches Some(c) && c@ == stash_of(**old(nts))[0]
            && stash_of(**final(nts)) == stash_of(**old(nts)).drop_first()),
        stash_of(**old(nts)).len() == 0 ==> r is None && stash_of(**final(nts)) == stash_of(
            **old(nts),
        ),
        c2s_key_of(**final(nts)) == c2s_key_of(**old(nts)),
        s2c_key_of(**final(nts)) == s2c_key_of(**old(nts)),
{
    nts.get_cookie()
}

/// Relies on `ntp_proto::SourceNtsData::get_keys` and
/// `ntp_proto::Cipher::key_bytes`: hands out the raw client-to-server
/// and server-to-client key bytes of the two traffic ciphers.
#[verifier::external_body]
fn extract_keys(nts: Box<ntp_proto::SourceNtsData>) -> (r: (Vec<u8>, Vec<u8>))
    ensures
        r.0@ == c2s_key_of(*nts),
        r.1@ == s2c_key_of(*nts),
{
    let (c2s, s2c) = nts.get_keys();
    (c2s.key_bytes().to_vec(), s2c.key_bytes().to_vec())
}

/// A key-exchange fault, mirroring `ntp_proto::NtsError` as plain
/// values, with the server-reported error codes spelled out.
#[derive(Debug)]
pub enum KeFault {
    /// Transport I/O failed during the exchange.
    Io(String),
    /// The TLS layer failed.
    Tls(String),
    /// The server name was not a valid DNS name.
    Dns(String),
    /// A received record was critical and unrecognized.
    UnrecognizedCriticalRecord,
    /// A request or response was malformed.
    Invalid,
    /// The exchange completed without yielding any cookie.
    NoCookie,
    /// No protocol acceptable to both sides.
    NoOverlappingProtocol,
    /// No AEAD algorithm acceptable to both sides.
    NoOverlappingAlgorithm,
    /// The server sent a warning this client does not know.
    UnknownWarning(u16),
    /// The server reported an error by its numeric code.
    RemoteError(u16),
    /// A fixed-key request used an AEAD this client does not support.
    AeadNotSupported(u16),
    /// A fixed key had the wrong length.
    IncorrectSizedKey,
    /// The request was not permitted without authentication.
    NotPermitted,
}

/// Relies on the variants of `ntp_proto::NtsError`: each arm moves the
/// matching variant's data into [`KeFault`], rendering carried errors
/// as their messages and server-reported error codes as their numeric
/// values.
#[verifier::external_body]
pub fn fault_of_nts_error(e: &ntp_proto::NtsError) -> (r: KeFault)
{
    match e {
        KeError::IO(err) => KeFault::Io(format!("{}", err)),
        KeError::Tls(err) => KeFault::Tls(format!("{}", err)),
        KeError::Dns(err) => KeFault::Dns(format!("{}", err)),
        KeError::UnrecognizedCriticalRecord => KeFault::UnrecognizedCriticalRecord,
        KeError::Invalid => KeFault::Invalid,
        KeError::NoCookie => KeFault::NoCookie,
        KeError::NoOverlappingProtocol => KeFault::NoOverlappingProtocol,
        KeError::NoOverlappingAlgorithm => KeFault::NoOverlappingAlgorithm,
        KeError::UnknownWarning(c) => KeFault::UnknownWarning(*c),
        KeError::Error(code) => KeFault::RemoteError(u16::from(*code)),
        KeError::AeadNotSupported(c) => KeFault::AeadNotSupported(*c),
        KeError::IncorrectSizedKey => KeFault::IncorrectSizedKey,
        KeError::NotPermitted => KeFault::NotPermitted,
    }
}

impl Error {
    /// Map a key-exchange fault to this library's error type.
    pub fn from_ke_fault(f: KeFault) -> (r: Error)
        ensures
            match f {
                KeFault::Io(m) => r matches Error::Io(mm) && mm@ == m@,
                KeFault::Tls(m) => r matches Error::Tls(mm) && mm@ == m@,
                KeFault::Dns(m) => r matches Error::Tls(mm) && mm@ == "DNS name error: "@ + m@,
                KeFault::UnrecognizedCriticalRecord => r matches Error::KeyExchange(mm) && mm@
                    == "Unrecognized critical NTS record"@,
                KeFault::Invalid => r matches Error::KeyExchange(mm) && mm@
                    == "Invalid request or response"@,
                KeFault::NoCookie => r matches Error::KeyExchange(mm) && mm@
                    == "No cookies received"@,
                KeFault::NoOverlappingProtocol => r matches Error::KeyExchange(mm) && mm@
                    == "No valid protocol negotiated"@,
                KeFault::NoOverlappingAlgorithm => r matches Error::KeyExchange(mm) && mm@
                    == "No valid AEAD algorithm negotiated"@,
                KeFault::UnknownWarning(c) => r matches Error::KeyExchange(mm) && mm@
                    == "Unknown warning code: "@ + spec_decimal(c as int),
                KeFault::RemoteError(c) => r matches Error::KeyExchange(mm) && (if c == 0 {
                    mm@ == "Unrecognized critical NTS record"@
                } else if c == 1 {
                    mm@ == "Bad request"@
                } else if c == 2 {
                    mm@ == "Internal server error"@
                } else {
                    mm@ == "Unknown error code: "@ + spec_decimal(c as int)
                }),
                KeFault::AeadNotSupported(_) => r matches Error::KeyExchange(mm) && mm@
                    == "Unsupported AEAD algorithm"@,
                KeFault::IncorrectSizedKey => r matches Error::KeyExchange(mm) && mm@
                    == "Invalid fixed key length"@,
                KeFault::NotPermitted => r matches Error::KeyExchange(mm) && mm@
                    == "Request not permitted"@,
            },
    {
        match f {
            KeFault::Io(m) => Error::Io(m),
            KeFault::Tls(m) => Error::Tls(m),
            KeFault::Dns(m) => {
                let mut s = "DNS name error: ".to_owned();
                s.append(m.as_str());
                Error::Tls(s)
            },
            KeFault::UnrecognizedCriticalRecord => Error::KeyExchange(
                "Unrecognized critical NTS record".to_owned(),
            ),
            KeFault::Invalid => Error::KeyExchange("Invalid request or response".to_owned()),
            KeFault::NoCookie => Error::KeyExchange("No cookies received".to_owned()),
            KeFault::NoOverlappingProtocol => Error::KeyExchange(
                "No valid protocol negotiated".to_owned(),
            ),
            KeFault::NoOverlappingAlgorithm => Error::KeyExchange(
                "No valid AEAD algorithm negotiated".to_owned(),
            ),
            KeFault::UnknownWarning(c) => {
                let mut s = "Unknown warning code: ".to_owned();
                let digits = to_decimal(c);
                s.append(digits.as_str());
                Error::KeyExchange(s)
            },
            KeFault::RemoteError(c) => {
                if c == 0 {
                    Error::KeyExchange("Unrecognized critical NTS record".to_owned())
                } else if c == 1 {
                    Error::KeyExchange("Bad request".to_owned())
                } else if c == 2 {
                    Error::KeyExchange("Internal server error".to_owned())
                } else {
                    let mut s = "Unknown error code: ".to_owned();
                    let digits = to_decimal(c);
                    s.append(digits.as_str());
                    Error::KeyExchange(s)
                }
            },
            KeFault::AeadNotSupported(_) => Error::KeyExchange(
                "Unsupported AEAD algorithm".to_owned(),
            ),
            KeFault::IncorrectSizedKey => Error::KeyExchange("Invalid fixed key length".to_owned()),
            KeFault::NotPermitted => Error::KeyExchange("Request not permitted".to_owned()),
        }
    }
}

/// Plain data of one completed key exchange, as the embedding
/// application hands it over: the negotiated server, the key material
/// holder, and the measured handshake duration.
pub struct KeTransfer {
    /// The NTP host the server negotiated.
    pub remote: String,
    /// The NTP port the server negotiated.
    pub port: u16,
    /// The cookies and traffic ciphers of the completed exchange.
    pub nts: Box<ntp_proto::SourceNtsData>,
    /// How long the handshake took, in milliseconds.
    pub duration_ms: u64,
}

/// A key-exchange transfer is acceptable when it carries at least one
/// cookie and a supported, matching pair of traffic keys.
pub open spec fn spec_ke_transfer_ok(t: KeTransfer) -> bool {
    &&& stash_of(*t.nts).len() > 0
    &&& spec_key_len_ok(c2s_key_of(*t.nts))
    &&& s2c_key_of(*t.nts).len() == c2s_key_of(*t.nts).len()
}

/// Turn a completed key exchange into the diagnostic result and the
/// two raw traffic keys.
///
/// Succeeds exactly when the exchange yielded at least one cookie and
/// a supported key pair; the cookies come out in stash order, oldest
/// first.
pub fn harvest_ke_result(t: KeTransfer) -> (r: Result<(NtsKeResult, Vec<u8>, Vec<u8>), Error>)
    ensures
        r is Ok <==> spec_ke_transfer_ok(t),
        match r {
            Ok((info, c2s, s2c)) => {
                &&& c2s@ == c2s_key_of(*t.nts)
                &&& s2c@ == s2c_key_of(*t.nts)
                &&& spec_key_len_ok(c2s@)
                &&& s2c@.len() == c2s@.len()
                &&& info.cookies.deep_view() == stash_of(*t.nts)
                &&& info.cookies@.len() > 0
                &&& info.ntp_server.host == t.remote
                &&& info.ntp_server.port == t.port
                &&& info.ke_duration_ms == t.duration_ms
                &&& (c2s@.len() == 32 ==> info.aead_algorithm@ == "AEAD_AES_SIV_CMAC_256"@)
                &&& (c2s@.len() == 64 ==> info.aead_algorithm@ == "AEAD_AES_SIV_CMAC_512"@)
            },
            Err(e) => {
                &&& stash_of(*t.nts).len() == 0 ==> (e matches Error::KeyExchange(m) && m@
                    == "No cookies received"@)
                &&& (stash_of(*t.nts).len() > 0 && !(spec_key_len_ok(c2s_key_of(*t.nts))
                    && s2c_key_of(*t.nts).len() == c2s_key_of(*t.nts).len())) ==> (e matches
                    Error::KeyExchange(m) && m@ == "Invalid key length"@)
            },
        },
{
    let KeTransfer { remote, port, nts, duration_ms } = t;
    let mut nts = nts;
    let ghost orig_stash = stash_of(*nts);
    let ghost orig_c2s = c2s_key_of(*nts);
    let ghost orig_s2c = s2c_key_of(*nts);

    let mut cookies: Vec<Vec<u8>> = Vec::new();
    assert(cookies.deep_view() =~= Seq::<Seq<u8>>::empty());
    assert(cookies.deep_view() + stash_of(*nts) =~= orig_stash);
    loop
        invariant
            cookies.deep_view() + stash_of(*nts) == orig_stash,
            c2s_key_of(*nts) == orig_c2s,
            s2c_key_of(*nts) == orig_s2c,
        ensures
            stash_of(*nts).len() == 0,
            cookies.deep_view() == orig_stash,
            c2s_key_of(*nts) == orig_c2s,
            s2c_key_of(*nts) == orig_s2c,
        decreases stash_of(*nts).len(),
    {
        let ghost pre = cookies.deep_view();
        let ghost pre_stash = stash_of(*nts);
        match stash_take(&mut nts) {
            None => {
                assert(cookies.deep_view() + stash_of(*nts) =~= cookies.deep_view());
                break ;
            },
            Some(c) => {
                let ghost cv = c@;
                let ghost prev = cookies;
                cookies.push(c);
                proof {
                    lemma_deep_view_push(prev, cookies, c);
                    assert(pre.push(cv) =~= pre + seq![cv]);
                    assert(pre + pre_stash =~= orig_stash);
                    assert((pre + seq![cv]) + pre_stash.drop_first() =~= pre + pre_stash);
                }
            },
        }
    }

    if cookies.len() == 0 {
        return Err(Error::KeyExchange("No cookies received".to_owned()));
    }

    let (c2s, s2c) = extract_keys(nts);
    if !((c2s.len() == 32 || c2s.len() == 64) && s2c.len() == c2s.len()) {
        return Err(Error::KeyExchange("Invalid key length".to_owned()));
    }

    let algorithm: String = if c2s.len() == 32 {
        "AEAD_AES_SIV_CMAC_256".to_owned()
    } else {
        "AEAD_AES_SIV_CMAC_512".to_owned()
    };

    let info = NtsKeResult::new(
        ServerAddr { host: remote, port },
        algorithm,
        cookies,
        duration_ms,
    );
    Ok((info, c2s, s2c))
}

} // verus!
