//! Codec for NTP packets and NTS extension fields.
//!
//! An NTS-protected NTP packet is the 48-byte legacy header followed
//! by extension fields, each a type-length-value tuple padded to a
//! four-byte boundary. The authenticator field carries its own nonce
//! and ciphertext lengths, so its contents need no outer padding
//! convention.

use vstd::prelude::*;
use crate::error::Error;
use crate::wire::{
    be16_bytes, be16_of, be32_bytes, be32_of, bytes_range, lemma_be16_round_trip,
    lemma_be32_round_trip, push_be16, push_be32, push_bytes, read_be16, read_be32,
};

verus! {

/// Extension field type number: unique identifier.
pub const EF_UNIQUE_IDENTIFIER: u16 = 0x0104;
/// Extension field type number: NTS cookie.
pub const EF_NTS_COOKIE: u16 = 0x0204;
/// Extension field type number: NTS cookie placeholder.
pub const EF_COOKIE_PLACEHOLDER: u16 = 0x0304;
/// Extension field type number: NTS authenticator and encrypted
/// extension fields.
pub const EF_AUTHENTICATOR: u16 = 0x0404;

/// Size of the legacy NTP header in bytes.
pub const NTP_HEADER_LEN: usize = 48;

/// Seconds between the NTP epoch (1900) and the Unix epoch (1970).
pub const NTP_UNIX_OFFSET: u64 = 2_208_988_800;

/// Nanoseconds in one second.
pub const NANOS_PER_SEC: u64 = 1_000_000_000;

/// Two to the thirty-second power.
pub const TWO_POW_32: u64 = 0x1_0000_0000;

/// Mathematical model of one NTS extension field.
pub enum SpecExtField {
    /// The random identifier correlating a response with its request.
    UniqueIdentifier(Seq<u8>),
    /// One single-use cookie.
    NtsCookie(Seq<u8>),
    /// A placeholder asking for one replacement cookie of equal size.
    CookiePlaceholder(Seq<u8>),
    /// The AEAD nonce and ciphertext authenticating the packet.
    Authenticator { nonce: Seq<u8>, ciphertext: Seq<u8> },
    /// A field of a type this client does not recognize.
    Unknown { ftype: u16, body: Seq<u8> },
}

/// One NTS extension field.
#[derive(Debug, PartialEq, Eq)]
pub enum ExtField {
    /// The random identifier correlating a response with its request.
    UniqueIdentifier(Vec<u8>),
    /// One single-use cookie.
    NtsCookie(Vec<u8>),
    /// A placeholder asking for one replacement cookie of equal size.
    CookiePlaceholder(Vec<u8>),
    /// The AEAD nonce and ciphertext authenticating the packet.
    Authenticator { nonce: Vec<u8>, ciphertext: Vec<u8> },
    /// A field of a type this client does not recognize.
    Unknown { ftype: u16, body: Vec<u8> },
}

impl View for ExtField {
    type V = SpecExtField;

    open spec fn view(&self) -> SpecExtField {
        match self {
            ExtField::UniqueIdentifier(d) => SpecExtField::UniqueIdentifier(d@),
            ExtField::NtsCookie(d) => SpecExtField::NtsCookie(d@),
            ExtField::CookiePlaceholder(d) => SpecExtField::CookiePlaceholder(d@),
            ExtField::Authenticator { nonce, ciphertext } => SpecExtField::Authenticator {
                nonce: nonce@,
                ciphertext: ciphertext@,
            },
            ExtField::Unknown { ftype, body } => SpecExtField::Unknown {
                ftype: *ftype,
                body: body@,
            },
        }
    }
}

impl DeepView for ExtField {
    type V = SpecExtField;

    open spec fn deep_view(&self) -> SpecExtField {
        self.view()
    }
}

/// A sequence of `k` zero bytes.
pub open spec fn zero_bytes(k: nat) -> Seq<u8> {
    Seq::new(k, |i: int| 0u8)
}

/// The number of padding bytes that align `n` to four bytes.
pub open spec fn spec_pad4(n: int) -> int {
    (4 - n % 4) % 4
}

/// Append `k` zero bytes to `out`.
pub fn push_zeros(out: &mut Vec<u8>, k: usize)
    ensures
        final(out)@ == old(out)@ + zero_bytes(k as nat),
{
    let mut i: usize = 0;
    while i < k
        invariant
            i <= k,
            out@ == old(out)@ + zero_bytes(i as nat),
        decreases k - i,
    {
        out.push(0);
        assert(out@ =~= old(out)@ + zero_bytes((i + 1) as nat));
        i = i + 1;
    }
}

/// Whether an extension field type number is one this codec
/// understands.
pub open spec fn spec_known_ef_type(t: u16) -> bool {
    t == EF_UNIQUE_IDENTIFIER || t == EF_NTS_COOKIE || t == EF_COOKIE_PLACEHOLDER
        || t == EF_AUTHENTICATOR
}

/// The type number of an extension field.
pub open spec fn spec_ef_type(f: SpecExtField) -> u16 {
    match f {
        SpecExtField::UniqueIdentifier(_) => EF_UNIQUE_IDENTIFIER,
        SpecExtField::NtsCookie(_) => EF_NTS_COOKIE,
        SpecExtField::CookiePlaceholder(_) => EF_COOKIE_PLACEHOLDER,
        SpecExtField::Authenticator { .. } => EF_AUTHENTICATOR,
        SpecExtField::Unknown { ftype, .. } => ftype,
    }
}

/// The body bytes of the authenticator field: both lengths, then the
/// nonce and the ciphertext, each zero-padded to four bytes.
pub open spec fn spec_auth_body(nonce: Seq<u8>, ciphertext: Seq<u8>) -> Seq<u8> {
    be16_bytes(nonce.len() as u16) + be16_bytes(ciphertext.len() as u16) + nonce + zero_bytes(
        spec_pad4(nonce.len() as int) as nat,
    ) + ciphertext + zero_bytes(spec_pad4(ciphertext.len() as int) as nat)
}

/// The body bytes of an extension field.
pub open spec fn spec_ef_body(f: SpecExtField) -> Seq<u8> {
    match f {
        SpecExtField::UniqueIdentifier(d) => d,
        SpecExtField::NtsCookie(d) => d,
        SpecExtField::CookiePlaceholder(d) => d,
        SpecExtField::Authenticator { nonce, ciphertext } => spec_auth_body(nonce, ciphertext),
        SpecExtField::Unknown { body, .. } => body,
    }
}

/// An extension field is well formed when its body is aligned to four
/// bytes, the whole field fits the 16-bit length word, and for the
/// authenticator the nonce and ciphertext lengths fit their own length
/// words.
pub open spec fn spec_ef_wf(f: SpecExtField) -> bool {
    &&& spec_ef_body(f).len() % 4 == 0
    &&& 4 + spec_ef_body(f).len() <= 0xFFFF
    &&& (f matches SpecExtField::Authenticator { nonce, ciphertext } ==> nonce.len() <= 0xFFFF
        && ciphertext.len() <= 0xFFFF)
    &&& (f matches SpecExtField::Unknown { ftype, .. } ==> !spec_known_ef_type(ftype))
}

/// The encoded bytes of an extension field: type, total length
/// (including this four-byte header), body.
pub open spec fn spec_ef_bytes(f: SpecExtField) -> Seq<u8> {
    be16_bytes(spec_ef_type(f)) + be16_bytes((4 + spec_ef_body(f).len()) as u16) + spec_ef_body(f)
}

/// Parse an authenticator body into nonce and ciphertext.
pub open spec fn spec_parse_auth_body(body: Seq<u8>) -> Option<(Seq<u8>, Seq<u8>)> {
    if body.len() < 4 {
        None
    } else {
        let nlen = be16_of(body[0], body[1]) as int;
        let clen = be16_of(body[2], body[3]) as int;
        let nonce_end = 4 + nlen;
        let ct_start = nonce_end + spec_pad4(nlen);
        let ct_end = ct_start + clen;
        let padded_end = ct_end + spec_pad4(clen);
        if padded_end > body.len() {
            None
        } else {
            Some((body.subrange(4, nonce_end), body.subrange(ct_start, ct_end)))
        }
    }
}

/// The total field length declared by the extension-field header at
/// `pos`.
pub open spec fn spec_ef_len_at(b: Seq<u8>, pos: int) -> int {
    be16_of(b[pos + 2], b[pos + 3]) as int
}

/// The position just after the extension field at `pos`.
pub open spec fn spec_ef_next(b: Seq<u8>, pos: int) -> int {
    pos + spec_ef_len_at(b, pos)
}

/// Whether a whole extension field sits at `pos`: the header is in
/// bounds and the declared length is aligned, covers the header, and
/// stays inside the buffer.
pub open spec fn spec_ef_fits(b: Seq<u8>, pos: int) -> bool {
    &&& 0 <= pos
    &&& pos + 4 <= b.len()
    &&& spec_ef_len_at(b, pos) >= 4
    &&& spec_ef_len_at(b, pos) % 4 == 0
    &&& spec_ef_next(b, pos) <= b.len()
}

/// The body bytes of the extension field at `pos`.
pub open spec fn spec_ef_body_at(b: Seq<u8>, pos: int) -> Seq<u8> {
    b.subrange(pos + 4, spec_ef_next(b, pos))
}

/// Interpret an extension-field type and body. `None` means the body
/// does not fit the type: the field is malformed.
pub open spec fn spec_ef_interp(t: u16, body: Seq<u8>) -> Option<SpecExtField> {
    if t == EF_UNIQUE_IDENTIFIER {
        Some(SpecExtField::UniqueIdentifier(body))
    } else if t == EF_NTS_COOKIE {
        Some(SpecExtField::NtsCookie(body))
    } else if t == EF_COOKIE_PLACEHOLDER {
        Some(SpecExtField::CookiePlaceholder(body))
    } else if t == EF_AUTHENTICATOR {
        match spec_parse_auth_body(body) {
            None => None,
            Some((nonce, ciphertext)) => Some(SpecExtField::Authenticator { nonce, ciphertext }),
        }
    } else {
        Some(SpecExtField::Unknown { ftype: t, body })
    }
}

/// Decode the extension field at `pos`: the field and the position
/// after it, or `None` when no well-formed field starts there.
pub open spec fn spec_decode_ef(b: Seq<u8>, pos: int) -> Option<(SpecExtField, int)> {
    if !spec_ef_fits(b, pos) {
        None
    } else {
        match spec_ef_interp(be16_of(b[pos], b[pos + 1]), spec_ef_body_at(b, pos)) {
            None => None,
            Some(f) => Some((f, spec_ef_next(b, pos))),
        }
    }
}

/// Round trip for one NTS extension field: decoding an encoded
/// well-formed field, with any bytes following it, yields the field
/// itself and consumes exactly its encoding.
pub proof fn lemma_ext_field_round_trip(f: SpecExtField, tail: Seq<u8>)
    requires
        spec_ef_wf(f),
    ensures
        spec_ef_bytes(f).len() == 4 + spec_ef_body(f).len(),
        spec_decode_ef(spec_ef_bytes(f) + tail, 0) == Some((f, spec_ef_bytes(f).len() as int)),
{
    let t = spec_ef_type(f);
    let body = spec_ef_body(f);
    let lf = (4 + body.len()) as u16;
    let enc = spec_ef_bytes(f);
    let b = enc + tail;

    lemma_be16_round_trip(t);
    lemma_be16_round_trip(lf);
    assert(b[0] == be16_bytes(t)[0]);
    assert(b[1] == be16_bytes(t)[1]);
    assert(b[2] == be16_bytes(lf)[0]);
    assert(b[3] == be16_bytes(lf)[1]);
    assert(be16_of(b[0], b[1]) == t);
    assert(be16_of(b[2], b[3]) == lf);
    assert(spec_ef_len_at(b, 0) == 4 + body.len());
    assert(spec_ef_fits(b, 0));
    assert(spec_ef_body_at(b, 0) =~= body);

    match f {
        SpecExtField::Authenticator { nonce, ciphertext } => {
            let ab = spec_auth_body(nonce, ciphertext);
            lemma_be16_round_trip(nonce.len() as u16);
            lemma_be16_round_trip(ciphertext.len() as u16);
            assert(ab[0] == be16_bytes(nonce.len() as u16)[0]);
            assert(ab[1] == be16_bytes(nonce.len() as u16)[1]);
            assert(ab[2] == be16_bytes(ciphertext.len() as u16)[0]);
            assert(ab[3] == be16_bytes(ciphertext.len() as u16)[1]);
            let nlen = nonce.len() as int;
            let clen = ciphertext.len() as int;
            assert(be16_of(ab[0], ab[1]) == nlen);
            assert(be16_of(ab[2], ab[3]) == clen);
            assert(ab.len() == 4 + nlen + spec_pad4(nlen) + clen + spec_pad4(clen));
            assert(ab.subrange(4, 4 + nlen) =~= nonce);
            assert(ab.subrange(4 + nlen + spec_pad4(nlen), 4 + nlen + spec_pad4(nlen) + clen)
                =~= ciphertext);
            assert(spec_parse_auth_body(ab) == Some((nonce, ciphertext)));
        },
        _ => {},
    }
}

/// The message attached to a malformed-extension-field error.
pub open spec fn spec_malformed_ef_msg() -> Seq<char> {
    "malformed NTS extension field"@
}

fn malformed_ef() -> (r: Error)
    ensures
        r matches Error::InvalidResponse(m) && m@ == spec_malformed_ef_msg(),
{
    Error::InvalidResponse("malformed NTS extension field".to_owned())
}

/// Encode one well-formed extension field as its wire bytes.
pub fn encode_ef(f: &ExtField) -> (out: Vec<u8>)
    requires
        spec_ef_wf(f@),
    ensures
        out@ == spec_ef_bytes(f@),
{
    let mut body: Vec<u8> = Vec::new();
    let t: u16 = match f {
        ExtField::UniqueIdentifier(d) => {
            body.extend_from_slice(d.as_slice());
            EF_UNIQUE_IDENTIFIER
        },
        ExtField::NtsCookie(d) => {
            body.extend_from_slice(d.as_slice());
            EF_NTS_COOKIE
        },
        ExtField::CookiePlaceholder(d) => {
            body.extend_from_slice(d.as_slice());
            EF_COOKIE_PLACEHOLDER
        },
        ExtField::Authenticator { nonce, ciphertext } => {
            push_be16(&mut body, nonce.len() as u16);
            push_be16(&mut body, ciphertext.len() as u16);
            push_bytes(&mut body, nonce.as_slice());
            push_zeros(&mut body, (4 - nonce.len() % 4) % 4);
            push_bytes(&mut body, ciphertext.as_slice());
            push_zeros(&mut body, (4 - ciphertext.len() % 4) % 4);
            assert(body@ =~= spec_auth_body(nonce@, ciphertext@));
            EF_AUTHENTICATOR
        },
        ExtField::Unknown { ftype, body: raw } => {
            body.extend_from_slice(raw.as_slice());
            *ftype
        },
    };
    assert(body@ =~= spec_ef_body(f@));
    assert(t == spec_ef_type(f@));

    let mut out: Vec<u8> = Vec::new();
    push_be16(&mut out, t);
    push_be16(&mut out, 4 + body.len() as u16);
    out.extend_from_slice(body.as_slice());
    assert(out@ =~= spec_ef_bytes(f@));
    out
}

/// Decode the extension field starting at `pos`.
///
/// Fails exactly when no well-formed field starts there: the header is
/// truncated, the declared length is unaligned or exceeds the buffer,
/// or an authenticator body does not hold the lengths it declares.
pub fn decode_ef(b: &[u8], pos: usize) -> (r: Result<(ExtField, usize), Error>)
    ensures
        match r {
            Ok((f, next)) => spec_decode_ef(b@, pos as int) == Some((f@, next as int)) && pos
                < next <= b@.len(),
            Err(e) => {
                &&& spec_decode_ef(b@, pos as int) is None
                &&& e matches Error::InvalidResponse(m) && m@ == spec_malformed_ef_msg()
            },
        },
{
    let n = b.len();
    if n < 4 || pos > n - 4 {
        return Err(malformed_ef());
    }
    let t = read_be16(b, pos);
    let lf = read_be16(b, pos + 2) as usize;
    if lf < 4 || lf % 4 != 0 || n - pos < lf {
        assert(!spec_ef_fits(b@, pos as int));
        return Err(malformed_ef());
    }
    let body_start = pos + 4;
    let next = pos + lf;
    assert(spec_ef_fits(b@, pos as int));
    let ghost body = spec_ef_body_at(b@, pos as int);
    assert(body.len() == lf - 4);

    if t == EF_UNIQUE_IDENTIFIER {
        let d = bytes_range(b, body_start, next);
        Ok((ExtField::UniqueIdentifier(d), next))
    } else if t == EF_NTS_COOKIE {
        let d = bytes_range(b, body_start, next);
        Ok((ExtField::NtsCookie(d), next))
    } else if t == EF_COOKIE_PLACEHOLDER {
        let d = bytes_range(b, body_start, next);
        Ok((ExtField::CookiePlaceholder(d), next))
    } else if t == EF_AUTHENTICATOR {
        if lf - 4 < 4 {
            assert(spec_parse_auth_body(body) is None);
            return Err(malformed_ef());
        }
        let nlen = read_be16(b, body_start) as usize;
        let clen = read_be16(b, body_start + 2) as usize;
        assert(nlen == be16_of(body[0], body[1]));
        assert(clen == be16_of(body[2], body[3]));
        let npad = (4 - nlen % 4) % 4;
        let cpad = (4 - clen % 4) % 4;
        // 4 + nlen + npad + clen + cpad, computed without overflow in u64.
        let needed: u64 = 4u64 + nlen as u64 + npad as u64 + clen as u64 + cpad as u64;
        if needed > (lf - 4) as u64 {
            assert(spec_parse_auth_body(body) is None);
            return Err(malformed_ef());
        }
        let nonce_start = body_start + 4;
        let nonce_end = nonce_start + nlen;
        let ct_start = nonce_end + npad;
        let ct_end = ct_start + clen;
        let nonce = bytes_range(b, nonce_start, nonce_end);
        let ciphertext = bytes_range(b, ct_start, ct_end);
        proof {
            assert(body.subrange(4, 4 + nlen as int) =~= b@.subrange(
                nonce_start as int,
                nonce_end as int,
            ));
            assert(body.subrange(
                4 + nlen as int + npad as int,
                4 + nlen as int + npad as int + clen as int,
            ) =~= b@.subrange(ct_start as int, ct_end as int));
            assert(spec_parse_auth_body(body) == Some((nonce@, ciphertext@)));
        }
        Ok((ExtField::Authenticator { nonce, ciphertext }, next))
    } else {
        let raw = bytes_range(b, body_start, next);
        Ok((ExtField::Unknown { ftype: t, body: raw }, next))
    }
}

/// The 48 header bytes of a client-mode NTP packet: leap indicator
/// zero, the given version, mode three, poll six, and the transmit
/// timestamp in the last eight bytes.
pub open spec fn spec_ntp_header(version: u8, secs: u32, frac: u32) -> Seq<u8> {
    Seq::new(
        NTP_HEADER_LEN as nat,
        |i: int|
            if i == 0 {
                (version * 8 + 3) as u8
            } else if i == 2 {
                6u8
            } else if 40 <= i < 44 {
                be32_bytes(secs)[i - 40]
            } else if 44 <= i < 48 {
                be32_bytes(frac)[i - 44]
            } else {
                0u8
            },
    )
}

/// Build the 48-byte client-mode NTP header.
pub fn build_ntp_header(version: u8, secs: u32, frac: u32) -> (out: Vec<u8>)
    requires
        version == 3 || version == 4,
    ensures
        out@ == spec_ntp_header(version, secs, frac),
{
    let mut out: Vec<u8> = Vec::new();
    out.push(version * 8 + 3);
    out.push(0);
    out.push(6);
    let mut i: usize = 3;
    while i < 40
        invariant
            3 <= i <= 40,
            version == 3 || version == 4,
            out@.len() == i,
            forall|j: int| 0 <= j < i ==> out@[j] == spec_ntp_header(version, secs, frac)[j],
        decreases 40 - i,
    {
        out.push(0);
        i = i + 1;
    }
    push_be32(&mut out, secs);
    push_be32(&mut out, frac);
    assert(out@ =~= spec_ntp_header(version, secs, frac));
    out
}

/// The transmit-timestamp seconds held in header bytes 40 to 43.
pub open spec fn spec_transmit_secs(b: Seq<u8>) -> u32 {
    be32_of(b[40], b[41], b[42], b[43])
}

/// The transmit-timestamp fraction held in header bytes 44 to 47.
pub open spec fn spec_transmit_frac(b: Seq<u8>) -> u32 {
    be32_of(b[44], b[45], b[46], b[47])
}

/// Round trip for the header's transmit timestamp: the timestamp read
/// from a built header, with any extension fields following it, is the
/// timestamp the header was built with.
pub proof fn lemma_header_transmit_round_trip(version: u8, secs: u32, frac: u32, tail: Seq<u8>)
    ensures
        spec_ntp_header(version, secs, frac).len() == NTP_HEADER_LEN,
        spec_transmit_secs(spec_ntp_header(version, secs, frac) + tail) == secs,
        spec_transmit_frac(spec_ntp_header(version, secs, frac) + tail) == frac,
{
    let b = spec_ntp_header(version, secs, frac) + tail;
    lemma_be32_round_trip(secs);
    lemma_be32_round_trip(frac);
    assert(b[40] == be32_bytes(secs)[0]);
    assert(b[41] == be32_bytes(secs)[1]);
    assert(b[42] == be32_bytes(secs)[2]);
    assert(b[43] == be32_bytes(secs)[3]);
    assert(b[44] == be32_bytes(frac)[0]);
    assert(b[45] == be32_bytes(frac)[1]);
    assert(b[46] == be32_bytes(frac)[2]);
    assert(b[47] == be32_bytes(frac)[3]);
}

/// Read the transmit timestamp from an NTP packet.
pub fn read_transmit_timestamp(b: &[u8]) -> (r: (u32, u32))
    requires
        b@.len() >= NTP_HEADER_LEN,
    ensures
        r.0 == spec_transmit_secs(b@),
        r.1 == spec_transmit_frac(b@),
{
    let secs = read_be32(b, 40);
    let frac = read_be32(b, 44);
    (secs, frac)
}

/// Nanoseconds since the Unix epoch denoted by an NTP timestamp,
/// taking the seconds to lie in the NTP era that begins at the Unix
/// epoch.
pub open spec fn spec_ntp_to_unix_nanos(secs: u32, frac: u32) -> int {
    let unix_secs = if secs >= NTP_UNIX_OFFSET {
        secs - NTP_UNIX_OFFSET
    } else {
        secs + TWO_POW_32 - NTP_UNIX_OFFSET
    };
    unix_secs * NANOS_PER_SEC + (frac * NANOS_PER_SEC) / (TWO_POW_32 as int)
}

/// Convert an NTP timestamp to nanoseconds since the Unix epoch.
pub fn ntp_to_unix_nanos(secs: u32, frac: u32) -> (r: u64)
    ensures
        r == spec_ntp_to_unix_nanos(secs, frac),
{
    let unix_secs: u64 = if secs as u64 >= NTP_UNIX_OFFSET {
        secs as u64 - NTP_UNIX_OFFSET
    } else {
        secs as u64 + TWO_POW_32 - NTP_UNIX_OFFSET
    };
    proof {
        vstd::arithmetic::mul::lemma_mul_inequality(
            frac as int,
            0xFFFF_FFFF,
            NANOS_PER_SEC as int,
        );
        vstd::arithmetic::div_mod::lemma_div_nonincreasing(
            frac as int * NANOS_PER_SEC as int,
            TWO_POW_32 as int,
        );
        vstd::arithmetic::mul::lemma_mul_inequality(
            unix_secs as int,
            0xFFFF_FFFF,
            NANOS_PER_SEC as int,
        );
    }
    let prod: u64 = frac as u64 * NANOS_PER_SEC;
    let frac_nanos: u64 = prod / TWO_POW_32;
    unix_secs * NANOS_PER_SEC + frac_nanos
}

/// The NTP timestamp denoting a Unix time, truncated to the NTP era
/// that begins at the Unix epoch.
pub open spec fn spec_unix_nanos_to_ntp(nanos: u64) -> (u32, u32) {
    let secs = nanos / NANOS_PER_SEC;
    let sub = nanos % NANOS_PER_SEC;
    (((secs + NTP_UNIX_OFFSET) % (TWO_POW_32 as int)) as u32, ((sub * TWO_POW_32) / (NANOS_PER_SEC as int)) as u32)
}

/// Convert nanoseconds since the Unix epoch to an NTP timestamp.
pub fn unix_nanos_to_ntp(nanos: u64) -> (r: (u32, u32))
    ensures
        r == spec_unix_nanos_to_ntp(nanos),
{
    let secs = nanos / NANOS_PER_SEC;
    let sub = nanos % NANOS_PER_SEC;
    proof {
        vstd::arithmetic::div_mod::lemma_div_is_ordered(
            nanos as int,
            u64::MAX as int,
            NANOS_PER_SEC as int,
        );
        vstd::arithmetic::mul::lemma_mul_strict_inequality(
            sub as int,
            NANOS_PER_SEC as int,
            TWO_POW_32 as int,
        );
        vstd::arithmetic::div_mod::lemma_multiply_divide_lt(
            sub as int * TWO_POW_32 as int,
            NANOS_PER_SEC as int,
            TWO_POW_32 as int,
        );
    }
    let ntp_secs = ((secs + NTP_UNIX_OFFSET) % TWO_POW_32) as u32;
    let frac = ((sub * TWO_POW_32) / NANOS_PER_SEC) as u32;
    (ntp_secs, frac)
}

/// Round trip for the timestamp conversion: converting a wall-clock
/// time to an NTP timestamp and back recovers the time up to one
/// nanosecond (the fraction is quantized to 32 bits), as long as the
/// seconds stay below the wrap of the NTP era that begins at the Unix
/// epoch.
pub proof fn lemma_timestamp_conversion_round_trip(nanos: u64)
    requires
        nanos / NANOS_PER_SEC + NTP_UNIX_OFFSET < TWO_POW_32,
    ensures
        ({
            let (secs, frac) = spec_unix_nanos_to_ntp(nanos);
            let back = spec_ntp_to_unix_nanos(secs, frac);
            back <= nanos && nanos - back <= 1
        }),
{
    let nps = NANOS_PER_SEC as int;
    let p32 = TWO_POW_32 as int;
    let s = nanos as int / nps;
    let sub = nanos as int % nps;
    vstd::arithmetic::div_mod::lemma_fundamental_div_mod(nanos as int, nps);
    vstd::arithmetic::div_mod::lemma_mod_division_less_than_divisor(nanos as int, nps);
    vstd::arithmetic::div_mod::lemma_div_pos_is_pos(nanos as int, nps);

    // The seconds survive unchanged: no wrap under the era bound.
    let off = NTP_UNIX_OFFSET as int;
    vstd::arithmetic::div_mod::lemma_small_mod((s + off) as nat, p32 as nat);
    let (secs, frac) = spec_unix_nanos_to_ntp(nanos);
    assert(secs == s + off);

    // The fraction is floor(sub * 2^32 / 10^9), below 2^32.
    let a = sub * p32;
    vstd::arithmetic::mul::lemma_mul_nonnegative(sub, p32);
    vstd::arithmetic::mul::lemma_mul_strict_inequality(sub, nps, p32);
    vstd::arithmetic::div_mod::lemma_multiply_divide_lt(a, nps, p32);
    vstd::arithmetic::div_mod::lemma_div_pos_is_pos(a, nps);
    let f = a / nps;
    assert(frac == f);

    let back = spec_ntp_to_unix_nanos(secs, frac);
    assert(secs >= NTP_UNIX_OFFSET);
    let x = (f * nps) / p32;
    assert(back == s * nps + x);

    // floor(f * 10^9 / 2^32) lands within one nanosecond below sub.
    vstd::arithmetic::div_mod::lemma_fundamental_div_mod(a, nps);
    vstd::arithmetic::div_mod::lemma_mod_division_less_than_divisor(a, nps);
    assert(f * nps == a - a % nps);
    assert(f * nps <= a);
    vstd::arithmetic::div_mod::lemma_div_is_ordered(f * nps, a, p32);
    assert(a == p32 * sub) by {
        vstd::arithmetic::mul::lemma_mul_is_commutative(sub, p32);
    }
    vstd::arithmetic::div_mod::lemma_div_multiples_vanish(sub, p32);
    assert(x <= sub);

    if sub == 0 {
        assert(a == 0);
        vstd::arithmetic::div_mod::lemma_div_of0(nps);
        assert(x == 0);
    } else {
        assert(f * nps >= a - (nps - 1));
        assert((sub - 1) * p32 == sub * p32 - p32) by {
            vstd::arithmetic::mul::lemma_mul_is_distributive_sub_other_way(p32, sub, 1);
        }
        assert((sub - 1) * p32 <= f * nps);
        vstd::arithmetic::div_mod::lemma_div_is_ordered((sub - 1) * p32, f * nps, p32);
        vstd::arithmetic::div_mod::lemma_div_multiples_vanish(sub - 1, p32);
        assert(((sub - 1) * p32) / p32 == sub - 1) by {
            vstd::arithmetic::mul::lemma_mul_is_commutative(sub - 1, p32);
        }
        assert(x >= sub - 1);
    }
    assert(back <= nanos);
    assert(nanos - back <= 1);
}

} // verus!
