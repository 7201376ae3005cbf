//! The authenticated exchange engine.
//!
//! Builds NTS-protected NTP requests and validates NTS-protected
//! responses. A request is the legacy header, a unique identifier, one
//! cookie, placeholders asking for replacement cookies, and an
//! authenticator sealing the whole preceding packet. A response is
//! accepted only when its authenticator opens under the
//! server-to-client key and its unique identifier matches the request;
//! replacement cookies travel inside the encrypted extension fields.

use vstd::prelude::*;
use crate::aead::{aead_open, aead_seal, spec_aead_opened, spec_aead_sealed, spec_key_len_ok};
use crate::error::Error;
use crate::packet::{
    build_ntp_header, decode_ef, encode_ef, spec_decode_ef, spec_ef_body_at, spec_ef_bytes,
    spec_ef_fits, spec_ef_interp, spec_ef_next, spec_malformed_ef_msg, spec_ntp_header,
    push_zeros, spec_transmit_frac, spec_transmit_secs, spec_unix_nanos_to_ntp,
    unix_nanos_to_ntp, zero_bytes,
    ExtField, SpecExtField, NTP_HEADER_LEN,
};
use crate::wire::{be16_of, bytes_eq, bytes_range, copy_bytes, lemma_deep_view_push};

verus! {

/// The bytes of `n` cookie-placeholder fields of the given body
/// length.
pub open spec fn spec_placeholders(n: nat, len: nat) -> Seq<u8>
    decreases n,
{
    if n == 0 {
        Seq::empty()
    } else {
        spec_ef_bytes(SpecExtField::CookiePlaceholder(zero_bytes(len))) + spec_placeholders(
            (n - 1) as nat,
            len,
        )
    }
}

/// Appending one more placeholder field appends its bytes.
proof fn lemma_placeholders_snoc(n: nat, len: nat)
    ensures
        spec_placeholders(n + 1, len) == spec_placeholders(n, len) + spec_ef_bytes(
            SpecExtField::CookiePlaceholder(zero_bytes(len)),
        ),
    decreases n,
{
    let ef = spec_ef_bytes(SpecExtField::CookiePlaceholder(zero_bytes(len)));
    if n == 0 {
        assert(spec_placeholders(1, len) =~= spec_placeholders(0, len) + ef);
    } else {
        lemma_placeholders_snoc((n - 1) as nat, len);
        assert(ef + (spec_placeholders((n - 1) as nat, len) + ef) =~= (ef + spec_placeholders(
            (n - 1) as nat,
            len,
        )) + ef);
    }
}

/// The authenticated plain part of one request: header, unique
/// identifier, cookie, placeholders.
pub open spec fn spec_request_plain(
    version: u8,
    secs: u32,
    frac: u32,
    uid: Seq<u8>,
    cookie: Seq<u8>,
    n_ph: nat,
    ph_len: nat,
) -> Seq<u8> {
    spec_ntp_header(version, secs, frac) + spec_ef_bytes(SpecExtField::UniqueIdentifier(uid))
        + spec_ef_bytes(SpecExtField::NtsCookie(cookie)) + spec_placeholders(n_ph, ph_len)
}

/// The bytes of one full request: the plain part followed by the
/// authenticator field sealing it under the client-to-server key.
pub open spec fn spec_request_bytes(
    version: u8,
    secs: u32,
    frac: u32,
    uid: Seq<u8>,
    cookie: Seq<u8>,
    n_ph: nat,
    ph_len: nat,
    key: Seq<u8>,
    nonce: Seq<u8>,
) -> Seq<u8> {
    let plain = spec_request_plain(version, secs, frac, uid, cookie, n_ph, ph_len);
    plain + spec_ef_bytes(
        SpecExtField::Authenticator {
            nonce,
            ciphertext: spec_aead_sealed(key, nonce, plain, Seq::empty()),
        },
    )
}

/// Build one NTS-protected request packet.
///
/// The transmit timestamp is the given wall-clock time; the
/// authenticator seals the header and every preceding extension field
/// under the client-to-server key, with an empty encrypted payload.
pub fn build_request(
    version: u8,
    now_unix_nanos: u64,
    uid: &Vec<u8>,
    cookie: &Vec<u8>,
    n_placeholders: usize,
    placeholder_len: usize,
    c2s_key: &Vec<u8>,
    nonce: &Vec<u8>,
) -> (out: Vec<u8>)
    requires
        version == 3 || version == 4,
        uid@.len() % 4 == 0,
        4 + uid@.len() <= 0xFFFF,
        cookie@.len() % 4 == 0,
        4 + cookie@.len() <= 0xFFFF,
        placeholder_len % 4 == 0,
        4 + placeholder_len <= 0xFFFF,
        spec_key_len_ok(c2s_key@),
        nonce@.len() == 16,
    ensures
        out@ == spec_request_bytes(
            version,
            spec_unix_nanos_to_ntp(now_unix_nanos).0,
            spec_unix_nanos_to_ntp(now_unix_nanos).1,
            uid@,
            cookie@,
            n_placeholders as nat,
            placeholder_len as nat,
            c2s_key@,
            nonce@,
        ),
{
    let (secs, frac) = unix_nanos_to_ntp(now_unix_nanos);
    let mut out = build_ntp_header(version, secs, frac);

    let uid_ef = encode_ef(&ExtField::UniqueIdentifier(copy_bytes(uid)));
    out.extend_from_slice(uid_ef.as_slice());

    let cookie_ef = encode_ef(&ExtField::NtsCookie(copy_bytes(cookie)));
    out.extend_from_slice(cookie_ef.as_slice());

    let mut ph_body: Vec<u8> = Vec::new();
    push_zeros(&mut ph_body, placeholder_len);
    let ph_ef = encode_ef(&ExtField::CookiePlaceholder(ph_body));

    let ghost before_ph = out@;
    let mut i: usize = 0;
    while i < n_placeholders
        invariant
            i <= n_placeholders,
            out@ == before_ph + spec_placeholders(i as nat, placeholder_len as nat),
            ph_ef@ == spec_ef_bytes(
                SpecExtField::CookiePlaceholder(zero_bytes(placeholder_len as nat)),
            ),
        decreases n_placeholders - i,
    {
        out.extend_from_slice(ph_ef.as_slice());
        proof {
            lemma_placeholders_snoc(i as nat, placeholder_len as nat);
            assert(out@ =~= before_ph + spec_placeholders((i + 1) as nat, placeholder_len as nat));
        }
        i = i + 1;
    }

    let ghost plain = spec_request_plain(
        version,
        secs,
        frac,
        uid@,
        cookie@,
        n_placeholders as nat,
        placeholder_len as nat,
    );
    assert(out@ =~= plain);

    let empty_pt: Vec<u8> = Vec::new();
    let ciphertext = aead_seal(c2s_key, nonce, out.as_slice(), empty_pt.as_slice());
    assert(ciphertext@ == spec_aead_sealed(c2s_key@, nonce@, plain, Seq::empty()));
    let auth_ef = encode_ef(&ExtField::Authenticator { nonce: copy_bytes(nonce), ciphertext });
    out.extend_from_slice(auth_ef.as_slice());
    assert(out@ =~= spec_request_bytes(
        version,
        secs,
        frac,
        uid@,
        cookie@,
        n_placeholders as nat,
        placeholder_len as nat,
        c2s_key@,
        nonce@,
    ));
    out
}

/// Where the search for the authenticator field ends.
pub enum SpecAuthSearch {
    /// An authenticator field starts at `apos` with this nonce and
    /// ciphertext.
    Found { apos: int, nonce: Seq<u8>, ciphertext: Seq<u8> },
    /// The fields end, cleanly, without an authenticator.
    Missing,
    /// A field before any authenticator is malformed.
    Malformed,
}

/// Search the extension fields from `pos` for the first authenticator.
pub open spec fn spec_find_auth(b: Seq<u8>, pos: int) -> SpecAuthSearch
    decreases b.len() - pos,
{
    if pos == b.len() {
        SpecAuthSearch::Missing
    } else if !spec_ef_fits(b, pos) {
        SpecAuthSearch::Malformed
    } else {
        match spec_ef_interp(be16_of(b[pos], b[pos + 1]), spec_ef_body_at(b, pos)) {
            None => SpecAuthSearch::Malformed,
            Some(f) => match f {
                SpecExtField::Authenticator { nonce, ciphertext } => SpecAuthSearch::Found {
                    apos: pos,
                    nonce,
                    ciphertext,
                },
                _ => spec_find_auth(b, spec_ef_next(b, pos)),
            },
        }
    }
}

/// The value of the first unique-identifier field between `pos` and
/// `apos`, if the fields there decode and one is present.
pub open spec fn spec_find_uid(b: Seq<u8>, pos: int, apos: int) -> Option<Seq<u8>>
    decreases b.len() - pos,
{
    if pos >= apos {
        None
    } else {
        match spec_decode_ef(b, pos) {
            None => None,
            Some((f, next)) => match f {
                SpecExtField::UniqueIdentifier(u) => Some(u),
                _ => spec_find_uid(b, next, apos),
            },
        }
    }
}

/// The cookies carried by the extension fields of `b` from `pos` on,
/// in order; `None` when a field is malformed.
pub open spec fn spec_cookies_in(b: Seq<u8>, pos: int) -> Option<Seq<Seq<u8>>>
    decreases b.len() - pos,
{
    if pos == b.len() {
        Some(Seq::empty())
    } else {
        match spec_decode_ef(b, pos) {
            None => None,
            Some((f, next)) => match spec_cookies_in(b, next) {
                None => None,
                Some(rest) => match f {
                    SpecExtField::NtsCookie(c) => Some(seq![c] + rest),
                    _ => Some(rest),
                },
            },
        }
    }
}

/// How processing a response ends.
pub enum SpecRespOutcome {
    /// The response authenticated and matched: its new cookies and its
    /// transmit timestamp.
    Accepted { cookies: Seq<Seq<u8>>, secs: u32, frac: u32 },
    /// The packet is shorter than the legacy header.
    TooSmall,
    /// An extension field is malformed.
    MalformedField,
    /// No authenticator field is present.
    NoAuthenticator,
    /// The authenticator did not open under the server-to-client key.
    AuthFailed,
    /// The authenticated unique identifier does not match the request.
    UidMismatch,
    /// The decrypted extension fields are malformed.
    MalformedEncrypted,
}

/// Validate a response against the request's unique identifier and the
/// server-to-client key, per the NTS rules: find the authenticator,
/// open it over everything before it, then check the identifier and
/// collect the cookies inside the encrypted fields.
pub open spec fn spec_process_response(data: Seq<u8>, uid: Seq<u8>, key: Seq<u8>) -> SpecRespOutcome {
    if data.len() < NTP_HEADER_LEN {
        SpecRespOutcome::TooSmall
    } else {
        match spec_find_auth(data, NTP_HEADER_LEN as int) {
            SpecAuthSearch::Malformed => SpecRespOutcome::MalformedField,
            SpecAuthSearch::Missing => SpecRespOutcome::NoAuthenticator,
            SpecAuthSearch::Found { apos, nonce, ciphertext } => {
                match spec_aead_opened(key, nonce, data.subrange(0, apos), ciphertext) {
                    None => SpecRespOutcome::AuthFailed,
                    Some(pt) => {
                        if spec_find_uid(data, NTP_HEADER_LEN as int, apos) != Some(uid) {
                            SpecRespOutcome::UidMismatch
                        } else {
                            match spec_cookies_in(pt, 0) {
                                None => SpecRespOutcome::MalformedEncrypted,
                                Some(cookies) => SpecRespOutcome::Accepted {
                                    cookies,
                                    secs: spec_transmit_secs(data),
                                    frac: spec_transmit_frac(data),
                                },
                            }
                        }
                    },
                }
            },
        }
    }
}

/// Find the first authenticator field of a response.
fn find_auth(data: &[u8]) -> (r: Result<(usize, Vec<u8>, Vec<u8>), Error>)
    requires
        data@.len() >= NTP_HEADER_LEN,
    ensures
        match r {
            Ok((apos, nonce, ct)) => {
                &&& spec_find_auth(data@, NTP_HEADER_LEN as int) == SpecAuthSearch::Found {
                    apos: apos as int,
                    nonce: nonce@,
                    ciphertext: ct@,
                }
                &&& NTP_HEADER_LEN <= apos
                &&& apos + 4 <= data@.len()
            },
            Err(e) => match spec_find_auth(data@, NTP_HEADER_LEN as int) {
                SpecAuthSearch::Found { .. } => false,
                SpecAuthSearch::Missing => e matches Error::AuthenticationFailed(m) && m@
                    == "no authenticator in response"@,
                SpecAuthSearch::Malformed => e matches Error::InvalidResponse(m) && m@
                    == spec_malformed_ef_msg(),
            },
        },
{
    let n = data.len();
    let mut pos: usize = NTP_HEADER_LEN;
    while pos < n
        invariant
            NTP_HEADER_LEN <= pos <= n,
            n == data@.len(),
            spec_find_auth(data@, NTP_HEADER_LEN as int) == spec_find_auth(data@, pos as int),
        decreases n - pos,
    {
        match decode_ef(data, pos) {
            Err(e) => {
                return Err(e);
            },
            Ok((f, next)) => {
                proof {
                    assert(spec_decode_ef(data@, pos as int) == Some((f@, next as int)));
                    assert(spec_ef_fits(data@, pos as int));
                    assert(next as int == spec_ef_next(data@, pos as int));
                }
                match f {
                    ExtField::Authenticator { nonce, ciphertext } => {
                        return Ok((pos, nonce, ciphertext));
                    },
                    _ => {
                        pos = next;
                    },
                }
            },
        }
    }
    Err(Error::AuthenticationFailed("no authenticator in response".to_owned()))
}

/// Find the first unique-identifier field before the authenticator.
fn find_uid(data: &[u8], apos: usize) -> (r: Option<Vec<u8>>)
    requires
        NTP_HEADER_LEN <= apos <= data@.len(),
    ensures
        match r {
            Some(u) => spec_find_uid(data@, NTP_HEADER_LEN as int, apos as int) == Some(u@),
            None => spec_find_uid(data@, NTP_HEADER_LEN as int, apos as int) is None,
        },
{
    let mut pos: usize = NTP_HEADER_LEN;
    while pos < apos
        invariant
            NTP_HEADER_LEN <= pos,
            apos <= data@.len(),
            spec_find_uid(data@, NTP_HEADER_LEN as int, apos as int) == spec_find_uid(
                data@,
                pos as int,
                apos as int,
            ),
        decreases apos - pos,
    {
        match decode_ef(data, pos) {
            Err(_) => {
                return None;
            },
            Ok((f, next)) => {
                proof {
                    assert(spec_decode_ef(data@, pos as int) == Some((f@, next as int)));
                }
                match f {
                    ExtField::UniqueIdentifier(u) => {
                        return Some(u);
                    },
                    _ => {
                        proof {
                            assert(spec_find_uid(data@, pos as int, apos as int) == spec_find_uid(
                                data@,
                                next as int,
                                apos as int,
                            ));
                        }
                        if next >= apos {
                            assert(spec_find_uid(data@, next as int, apos as int) is None);
                            return None;
                        }
                        pos = next;
                    },
                }
            },
        }
    }
    None
}

/// Resume collected cookies with the cookies of the remaining fields.
pub open spec fn spec_cookies_resume(acc: Seq<Seq<u8>>, o: Option<Seq<Seq<u8>>>) -> Option<
    Seq<Seq<u8>>,
> {
    match o {
        Some(rest) => Some(acc + rest),
        None => None,
    }
}

/// Collect the cookies among the extension fields of `pt`.
fn collect_cookies(pt: &[u8]) -> (r: Option<Vec<Vec<u8>>>)
    ensures
        match r {
            Some(cs) => spec_cookies_in(pt@, 0) == Some(cs.deep_view()),
            None => spec_cookies_in(pt@, 0) is None,
        },
{
    let n = pt.len();
    let mut acc: Vec<Vec<u8>> = Vec::new();
    let mut pos: usize = 0;
    assert(acc.deep_view() =~= Seq::<Seq<u8>>::empty());
    while pos < n
        invariant
            pos <= n,
            n == pt@.len(),
            spec_cookies_resume(acc.deep_view(), spec_cookies_in(pt@, pos as int))
                == spec_cookies_in(pt@, 0),
        decreases n - pos,
    {
        match decode_ef(pt, pos) {
            Err(_) => {
                return None;
            },
            Ok((f, next)) => {
                let ghost accv = acc.deep_view();
                let ghost after = spec_cookies_in(pt@, next as int);
                match f {
                    ExtField::NtsCookie(c) => {
                        let ghost cv = c@;
                        let ghost prev = acc;
                        acc.push(c);
                        proof {
                            lemma_deep_view_push(prev, acc, c);
                            match after {
                                Some(rest) => {
                                    assert(accv + (seq![cv] + rest) =~= (accv + seq![cv]) + rest);
                                },
                                None => {},
                            }
                        }
                    },
                    _ => {},
                }
                pos = next;
            },
        }
    }
    proof {
        assert(spec_cookies_in(pt@, pos as int) == Some(Seq::<Seq<u8>>::empty()));
        assert(acc.deep_view() + Seq::<Seq<u8>>::empty() =~= acc.deep_view());
    }
    Some(acc)
}

/// Validate one response packet.
///
/// Succeeds exactly when the packet carries an authenticator that
/// opens under the server-to-client key over everything before it and
/// an authenticated unique identifier equal to the request's, and the
/// encrypted payload decodes; then returns the replacement cookies and
/// the server's transmit timestamp. Each failure names its cause:
/// undersized packet, malformed field, missing or failing
/// authenticator, identifier mismatch, malformed encrypted fields.
pub fn process_response(data: &[u8], unique_id: &Vec<u8>, s2c_key: &Vec<u8>) -> (r: Result<
    (Vec<Vec<u8>>, u32, u32),
    Error,
>)
    requires
        spec_key_len_ok(s2c_key@),
    ensures
        match r {
            Ok((cookies, secs, frac)) => spec_process_response(data@, unique_id@, s2c_key@)
                == SpecRespOutcome::Accepted { cookies: cookies.deep_view(), secs, frac },
            Err(e) => match spec_process_response(data@, unique_id@, s2c_key@) {
                SpecRespOutcome::Accepted { .. } => false,
                SpecRespOutcome::TooSmall => e matches Error::InvalidResponse(m) && m@
                    == "NTP packet too small"@,
                SpecRespOutcome::MalformedField => e matches Error::InvalidResponse(m) && m@
                    == spec_malformed_ef_msg(),
                SpecRespOutcome::NoAuthenticator => e matches Error::AuthenticationFailed(m) && m@
                    == "no authenticator in response"@,
                SpecRespOutcome::AuthFailed => e matches Error::AuthenticationFailed(m) && m@
                    == "authenticator verification failed"@,
                SpecRespOutcome::UidMismatch => e matches Error::InvalidResponse(m) && m@
                    == "unique identifier mismatch"@,
                SpecRespOutcome::MalformedEncrypted => e matches Error::InvalidResponse(m) && m@
                    == spec_malformed_ef_msg(),
            },
        },
{
    if data.len() < NTP_HEADER_LEN {
        return Err(Error::InvalidResponse("NTP packet too small".to_owned()));
    }

    let (apos, nonce, ciphertext) = match find_auth(data) {
        Ok(found) => found,
        Err(e) => {
            return Err(e);
        },
    };

    let ad = bytes_range(data, 0, apos);
    let pt = match aead_open(s2c_key, &nonce, ad.as_slice(), ciphertext.as_slice()) {
        Some(pt) => pt,
        None => {
            return Err(Error::AuthenticationFailed("authenticator verification failed".to_owned()));
        },
    };

    let uid_ok: bool = match find_uid(data, apos) {
        Some(u) => bytes_eq(u.as_slice(), unique_id.as_slice()),
        None => false,
    };
    if !uid_ok {
        return Err(Error::InvalidResponse("unique identifier mismatch".to_owned()));
    }

    let cookies = match collect_cookies(pt.as_slice()) {
        Some(cs) => cs,
        None => {
            return Err(Error::InvalidResponse("malformed NTS extension field".to_owned()));
        },
    };

    let (secs, frac) = crate::packet::read_transmit_timestamp(data);
    Ok((cookies, secs, frac))
}

} // verus!
