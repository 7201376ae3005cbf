//! Codec for NTS-KE records.
//!
//! NTS-KE records are type-length-value tuples carried over the
//! TLS-protected key-exchange channel: a 16-bit type word whose high
//! bit is the critical bit, a 16-bit body length, and the body. The
//! codec is a pure data transform, usable independently of any I/O.

use vstd::prelude::*;
use crate::error::Error;
use crate::wire::{
    be16_bytes, be16_of, bytes_range, lemma_be16_round_trip, push_be16, read_be16,
};

verus! {

/// Record type number: end of message.
pub const KE_END_OF_MESSAGE: u16 = 0;
/// Record type number: NTS next protocol negotiation.
pub const KE_NEXT_PROTOCOL: u16 = 1;
/// Record type number: error.
pub const KE_ERROR: u16 = 2;
/// Record type number: warning.
pub const KE_WARNING: u16 = 3;
/// Record type number: AEAD algorithm negotiation.
pub const KE_AEAD_ALGORITHM: u16 = 4;
/// Record type number: new cookie.
pub const KE_NEW_COOKIE: u16 = 5;
/// Record type number: NTPv4 server negotiation.
pub const KE_SERVER: u16 = 6;
/// Record type number: NTPv4 port negotiation.
pub const KE_PORT: u16 = 7;
/// The critical bit in a record's type word.
pub const KE_CRITICAL_BIT: u16 = 0x8000;

/// Mathematical model of one NTS-KE record.
///
/// The four record types that the protocol forces to be critical carry
/// no critical flag of their own; for the others the flag is part of
/// the value.
pub enum SpecKeRecord {
    /// End of the record sequence.
    EndOfMessage,
    /// The protocols the sender supports or the one chosen.
    NextProtocol(Seq<u16>),
    /// A fatal error code reported by the peer.
    ErrorCode(u16),
    /// A warning code reported by the peer.
    WarningCode(u16),
    /// The AEAD algorithms offered or the one chosen.
    AeadAlgorithm { critical: bool, algorithms: Seq<u16> },
    /// One single-use cookie.
    NewCookie { critical: bool, cookie: Seq<u8> },
    /// The NTP server to use after the exchange.
    Server { critical: bool, name: Seq<u8> },
    /// The NTP port to use after the exchange.
    Port { critical: bool, port: u16 },
    /// A record of a type this client does not recognize.
    Unknown { critical: bool, rtype: u16, body: Seq<u8> },
}

/// One NTS-KE record.
#[derive(Debug, PartialEq, Eq)]
pub enum KeRecord {
    /// End of the record sequence.
    EndOfMessage,
    /// The protocols the sender supports or the one chosen.
    NextProtocol(Vec<u16>),
    /// A fatal error code reported by the peer.
    ErrorCode(u16),
    /// A warning code reported by the peer.
    WarningCode(u16),
    /// The AEAD algorithms offered or the one chosen.
    AeadAlgorithm { critical: bool, algorithms: Vec<u16> },
    /// One single-use cookie.
    NewCookie { critical: bool, cookie: Vec<u8> },
    /// The NTP server to use after the exchange.
    Server { critical: bool, name: Vec<u8> },
    /// The NTP port to use after the exchange.
    Port { critical: bool, port: u16 },
    /// A record of a type this client does not recognize.
    Unknown { critical: bool, rtype: u16, body: Vec<u8> },
}

impl View for KeRecord {
    type V = SpecKeRecord;

    open spec fn view(&self) -> SpecKeRecord {
        match self {
            KeRecord::EndOfMessage => SpecKeRecord::EndOfMessage,
            KeRecord::NextProtocol(p) => SpecKeRecord::NextProtocol(p@),
            KeRecord::ErrorCode(c) => SpecKeRecord::ErrorCode(*c),
            KeRecord::WarningCode(c) => SpecKeRecord::WarningCode(*c),
            KeRecord::AeadAlgorithm { critical, algorithms } => SpecKeRecord::AeadAlgorithm {
                critical: *critical,
                algorithms: algorithms@,
            },
            KeRecord::NewCookie { critical, cookie } => SpecKeRecord::NewCookie {
                critical: *critical,
                cookie: cookie@,
            },
            KeRecord::Server { critical, name } => SpecKeRecord::Server {
                critical: *critical,
                name: name@,
            },
            KeRecord::Port { critical, port } => SpecKeRecord::Port {
                critical: *critical,
                port: *port,
            },
            KeRecord::Unknown { critical, rtype, body } => SpecKeRecord::Unknown {
                critical: *critical,
                rtype: *rtype,
                body: body@,
            },
        }
    }
}

impl DeepView for KeRecord {
    type V = SpecKeRecord;

    open spec fn deep_view(&self) -> SpecKeRecord {
        self.view()
    }
}

/// Whether a record type number is one this codec understands.
pub open spec fn spec_known_type(t: u16) -> bool {
    t <= 7
}

/// The type number of a record.
pub open spec fn spec_rec_type(r: SpecKeRecord) -> u16 {
    match r {
        SpecKeRecord::EndOfMessage => KE_END_OF_MESSAGE,
        SpecKeRecord::NextProtocol(_) => KE_NEXT_PROTOCOL,
        SpecKeRecord::ErrorCode(_) => KE_ERROR,
        SpecKeRecord::WarningCode(_) => KE_WARNING,
        SpecKeRecord::AeadAlgorithm { .. } => KE_AEAD_ALGORITHM,
        SpecKeRecord::NewCookie { .. } => KE_NEW_COOKIE,
        SpecKeRecord::Server { .. } => KE_SERVER,
        SpecKeRecord::Port { .. } => KE_PORT,
        SpecKeRecord::Unknown { rtype, .. } => rtype,
    }
}

/// Whether a record is sent with the critical bit set.
pub open spec fn spec_rec_critical(r: SpecKeRecord) -> bool {
    match r {
        SpecKeRecord::EndOfMessage => true,
        SpecKeRecord::NextProtocol(_) => true,
        SpecKeRecord::ErrorCode(_) => true,
        SpecKeRecord::WarningCode(_) => true,
        SpecKeRecord::AeadAlgorithm { critical, .. } => critical,
        SpecKeRecord::NewCookie { critical, .. } => critical,
        SpecKeRecord::Server { critical, .. } => critical,
        SpecKeRecord::Port { critical, .. } => critical,
        SpecKeRecord::Unknown { critical, .. } => critical,
    }
}

/// The big-endian byte string of a sequence of 16-bit values.
pub open spec fn spec_u16s_bytes(v: Seq<u16>) -> Seq<u8> {
    Seq::new(
        2 * v.len(),
        |i: int| if i % 2 == 0 { (v[i / 2] / 256) as u8 } else { (v[i / 2] % 256) as u8 },
    )
}

/// The sequence of 16-bit values held by a big-endian byte string.
pub open spec fn spec_bytes_u16s(b: Seq<u8>) -> Seq<u16> {
    Seq::new(b.len() / 2, |i: int| be16_of(b[2 * i], b[2 * i + 1]))
}

/// Reading back the bytes of a sequence of 16-bit values yields the
/// sequence.
pub proof fn lemma_u16s_round_trip(v: Seq<u16>)
    ensures
        spec_u16s_bytes(v).len() == 2 * v.len(),
        spec_u16s_bytes(v).len() % 2 == 0,
        spec_bytes_u16s(spec_u16s_bytes(v)) == v,
{
    let b = spec_u16s_bytes(v);
    assert forall|i: int| 0 <= i < v.len() implies spec_bytes_u16s(b)[i] == v[i] by {
        assert(b[2 * i] == (v[i] / 256) as u8);
        assert(b[2 * i + 1] == (v[i] % 256) as u8);
        vstd::arithmetic::div_mod::lemma_fundamental_div_mod(v[i] as int, 256);
    }
    assert(spec_bytes_u16s(b) =~= v);
}

/// The body bytes of a record.
pub open spec fn spec_rec_body(r: SpecKeRecord) -> Seq<u8> {
    match r {
        SpecKeRecord::EndOfMessage => Seq::empty(),
        SpecKeRecord::NextProtocol(p) => spec_u16s_bytes(p),
        SpecKeRecord::ErrorCode(c) => be16_bytes(c),
        SpecKeRecord::WarningCode(c) => be16_bytes(c),
        SpecKeRecord::AeadAlgorithm { algorithms, .. } => spec_u16s_bytes(algorithms),
        SpecKeRecord::NewCookie { cookie, .. } => cookie,
        SpecKeRecord::Server { name, .. } => name,
        SpecKeRecord::Port { port, .. } => be16_bytes(port),
        SpecKeRecord::Unknown { body, .. } => body,
    }
}

/// A record is well formed when its body fits the 16-bit length field
/// and, for an unrecognized record, its type number has no critical
/// bit and is indeed not one of the known numbers.
pub open spec fn spec_rec_wf(r: SpecKeRecord) -> bool {
    &&& spec_rec_body(r).len() <= 0xFFFF
    &&& (r matches SpecKeRecord::Unknown { rtype, .. } ==> rtype <= 0x7FFF && !spec_known_type(
        rtype,
    ))
}

/// The type word of a record: type number plus critical bit.
pub open spec fn spec_rec_typeword(r: SpecKeRecord) -> u16 {
    if spec_rec_critical(r) {
        (spec_rec_type(r) + KE_CRITICAL_BIT) as u16
    } else {
        spec_rec_type(r)
    }
}

/// The encoded bytes of a record.
pub open spec fn spec_record_bytes(r: SpecKeRecord) -> Seq<u8> {
    be16_bytes(spec_rec_typeword(r)) + be16_bytes(spec_rec_body(r).len() as u16) + spec_rec_body(
        r,
    )
}

/// The body length declared by the record header at `pos`.
pub open spec fn spec_rec_len_at(b: Seq<u8>, pos: int) -> int {
    be16_of(b[pos + 2], b[pos + 3]) as int
}

/// The position just after the record at `pos`.
pub open spec fn spec_rec_next(b: Seq<u8>, pos: int) -> int {
    pos + 4 + spec_rec_len_at(b, pos)
}

/// Whether a whole record fits at `pos`: its header is in bounds and
/// the body length it declares does not exceed the remaining buffer.
pub open spec fn spec_rec_fits(b: Seq<u8>, pos: int) -> bool {
    0 <= pos && pos + 4 <= b.len() && spec_rec_next(b, pos) <= b.len()
}

/// The body bytes of the record at `pos`.
pub open spec fn spec_rec_body_at(b: Seq<u8>, pos: int) -> Seq<u8> {
    b.subrange(pos + 4, spec_rec_next(b, pos))
}

/// Interpret a type word and body as a record. `None` means the body
/// does not fit the type: the record is malformed.
pub open spec fn spec_rec_interp(tw: u16, body: Seq<u8>) -> Option<SpecKeRecord> {
    let t = (tw % KE_CRITICAL_BIT) as u16;
    let critical = tw >= KE_CRITICAL_BIT;
    if t == KE_END_OF_MESSAGE {
        if body.len() == 0 {
            Some(SpecKeRecord::EndOfMessage)
        } else {
            None
        }
    } else if t == KE_NEXT_PROTOCOL {
        if body.len() % 2 == 0 {
            Some(SpecKeRecord::NextProtocol(spec_bytes_u16s(body)))
        } else {
            None
        }
    } else if t == KE_ERROR {
        if body.len() == 2 {
            Some(SpecKeRecord::ErrorCode(be16_of(body[0], body[1])))
        } else {
            None
        }
    } else if t == KE_WARNING {
        if body.len() == 2 {
            Some(SpecKeRecord::WarningCode(be16_of(body[0], body[1])))
        } else {
            None
        }
    } else if t == KE_AEAD_ALGORITHM {
        if body.len() % 2 == 0 {
            Some(SpecKeRecord::AeadAlgorithm { critical, algorithms: spec_bytes_u16s(body) })
        } else {
            None
        }
    } else if t == KE_NEW_COOKIE {
        Some(SpecKeRecord::NewCookie { critical, cookie: body })
    } else if t == KE_SERVER {
        Some(SpecKeRecord::Server { critical, name: body })
    } else if t == KE_PORT {
        if body.len() == 2 {
            Some(SpecKeRecord::Port { critical, port: be16_of(body[0], body[1]) })
        } else {
            None
        }
    } else {
        Some(SpecKeRecord::Unknown { critical, rtype: t, body })
    }
}

/// Decode the record at `pos`: the record and the position after it,
/// or `None` when no well-formed record starts there.
pub open spec fn spec_decode_record(b: Seq<u8>, pos: int) -> Option<(SpecKeRecord, int)> {
    if !spec_rec_fits(b, pos) {
        None
    } else {
        match spec_rec_interp(be16_of(b[pos], b[pos + 1]), spec_rec_body_at(b, pos)) {
            None => None,
            Some(r) => Some((r, spec_rec_next(b, pos))),
        }
    }
}

/// Round trip for one NTS-KE record: decoding an encoded well-formed
/// record, with any bytes following it, yields the record itself and
/// consumes exactly its encoding.
pub proof fn lemma_ke_record_round_trip(r: SpecKeRecord, tail: Seq<u8>)
    requires
        spec_rec_wf(r),
    ensures
        spec_record_bytes(r).len() == 4 + spec_rec_body(r).len(),
        spec_decode_record(spec_record_bytes(r) + tail, 0) == Some(
            (r, spec_record_bytes(r).len() as int),
        ),
{
    let tw = spec_rec_typeword(r);
    let body = spec_rec_body(r);
    let enc = spec_record_bytes(r);
    let b = enc + tail;

    lemma_be16_round_trip(tw);
    lemma_be16_round_trip(body.len() as u16);
    assert(b[0] == be16_bytes(tw)[0]);
    assert(b[1] == be16_bytes(tw)[1]);
    assert(b[2] == be16_bytes(body.len() as u16)[0]);
    assert(b[3] == be16_bytes(body.len() as u16)[1]);
    assert(be16_of(b[0], b[1]) == tw);
    assert(be16_of(b[2], b[3]) == body.len() as u16);
    assert(spec_rec_len_at(b, 0) == body.len());
    assert(spec_rec_fits(b, 0));
    assert(spec_rec_body_at(b, 0) =~= body);

    let t = spec_rec_type(r);
    assert(t <= 0x7FFF);
    if spec_rec_critical(r) {
        assert(tw == t + KE_CRITICAL_BIT);
        assert(tw % KE_CRITICAL_BIT == t) by {
            vstd::arithmetic::div_mod::lemma_mod_sub_multiples_vanish(
                t as int,
                KE_CRITICAL_BIT as int,
            );
            vstd::arithmetic::div_mod::lemma_small_mod(t as nat, KE_CRITICAL_BIT as nat);
        }
        assert(tw >= KE_CRITICAL_BIT);
    } else {
        assert(tw == t);
        assert(tw % KE_CRITICAL_BIT == t) by {
            vstd::arithmetic::div_mod::lemma_small_mod(t as nat, KE_CRITICAL_BIT as nat);
        }
        assert(!(tw >= KE_CRITICAL_BIT));
    }

    match r {
        SpecKeRecord::EndOfMessage => {},
        SpecKeRecord::NextProtocol(p) => {
            lemma_u16s_round_trip(p);
        },
        SpecKeRecord::ErrorCode(c) => {
            lemma_be16_round_trip(c);
        },
        SpecKeRecord::WarningCode(c) => {
            lemma_be16_round_trip(c);
        },
        SpecKeRecord::AeadAlgorithm { algorithms, .. } => {
            lemma_u16s_round_trip(algorithms);
        },
        SpecKeRecord::NewCookie { .. } => {},
        SpecKeRecord::Server { .. } => {},
        SpecKeRecord::Port { port, .. } => {
            lemma_be16_round_trip(port);
        },
        SpecKeRecord::Unknown { .. } => {},
    }
}

/// Append the big-endian bytes of each value in `v` to `out`.
fn encode_u16s(v: &Vec<u16>, out: &mut Vec<u8>)
    ensures
        final(out)@ == old(out)@ + spec_u16s_bytes(v@),
{
    let ghost base = out@;
    let mut i: usize = 0;
    while i < v.len()
        invariant
            i <= v@.len(),
            out@ == base + spec_u16s_bytes(v@.subrange(0, i as int)),
        decreases v@.len() - i,
    {
        let ghost before = out@;
        push_be16(out, v[i as usize]);
        proof {
            let pre = v@.subrange(0, i as int);
            let post = v@.subrange(0, i + 1);
            assert(spec_u16s_bytes(post) =~= spec_u16s_bytes(pre) + be16_bytes(v@[i as int]));
            assert(out@ =~= base + spec_u16s_bytes(post));
        }
        i = i + 1;
    }
    assert(v@.subrange(0, v@.len() as int) =~= v@);
}

/// Read `(to - from) / 2` big-endian values from `b`.
fn decode_u16s(b: &[u8], from: usize, to: usize) -> (r: Vec<u16>)
    requires
        from <= to <= b@.len(),
        (to - from) % 2 == 0,
    ensures
        r@ == spec_bytes_u16s(b@.subrange(from as int, to as int)),
{
    let ghost sub = b@.subrange(from as int, to as int);
    let mut r: Vec<u16> = Vec::new();
    let mut pos: usize = from;
    while pos < to
        invariant
            from <= pos <= to <= b@.len(),
            (to - from) % 2 == 0,
            (pos - from) % 2 == 0,
            sub == b@.subrange(from as int, to as int),
            r@.len() == (pos - from) / 2,
            forall|j: int| 0 <= j < r@.len() ==> r@[j] == spec_bytes_u16s(sub)[j],
        decreases to - pos,
    {
        assert(pos + 2 <= to);
        let x = read_be16(b, pos);
        proof {
            let j = (pos - from) / 2 as int;
            assert(2 * j == pos - from);
            assert(sub[2 * j] == b@[pos as int]);
            assert(sub[2 * j + 1] == b@[pos + 1]);
            assert(x == spec_bytes_u16s(sub)[j]);
        }
        r.push(x);
        pos = pos + 2;
    }
    assert(r@ =~= spec_bytes_u16s(sub));
    r
}

/// Encode one well-formed record as its wire bytes.
pub fn encode_record(r: &KeRecord) -> (out: Vec<u8>)
    requires
        spec_rec_wf(r@),
    ensures
        out@ == spec_record_bytes(r@),
{
    let mut body: Vec<u8> = Vec::new();
    let (t, critical): (u16, bool) = match r {
        KeRecord::EndOfMessage => (KE_END_OF_MESSAGE, true),
        KeRecord::NextProtocol(p) => {
            encode_u16s(p, &mut body);
            (KE_NEXT_PROTOCOL, true)
        },
        KeRecord::ErrorCode(c) => {
            push_be16(&mut body, *c);
            (KE_ERROR, true)
        },
        KeRecord::WarningCode(c) => {
            push_be16(&mut body, *c);
            (KE_WARNING, true)
        },
        KeRecord::AeadAlgorithm { critical, algorithms } => {
            encode_u16s(algorithms, &mut body);
            (KE_AEAD_ALGORITHM, *critical)
        },
        KeRecord::NewCookie { critical, cookie } => {
            body.extend_from_slice(cookie.as_slice());
            (KE_NEW_COOKIE, *critical)
        },
        KeRecord::Server { critical, name } => {
            body.extend_from_slice(name.as_slice());
            (KE_SERVER, *critical)
        },
        KeRecord::Port { critical, port } => {
            push_be16(&mut body, *port);
            (KE_PORT, *critical)
        },
        KeRecord::Unknown { critical, rtype, body: raw } => {
            body.extend_from_slice(raw.as_slice());
            (*rtype, *critical)
        },
    };
    assert(body@ =~= spec_rec_body(r@));
    assert(t == spec_rec_type(r@));
    assert(critical == spec_rec_critical(r@));

    let tw: u16 = if critical {
        t + KE_CRITICAL_BIT
    } else {
        t
    };
    let mut out: Vec<u8> = Vec::new();
    push_be16(&mut out, tw);
    push_be16(&mut out, body.len() as u16);
    out.extend_from_slice(body.as_slice());
    assert(out@ =~= spec_record_bytes(r@));
    out
}

/// The message attached to a malformed-record error.
pub open spec fn spec_malformed_msg() -> Seq<char> {
    "malformed NTS-KE record"@
}

fn malformed_record() -> (r: Error)
    ensures
        r matches Error::Protocol(m) && m@ == spec_malformed_msg(),
{
    Error::Protocol("malformed NTS-KE record".to_owned())
}

/// Decode the record starting at `pos`.
///
/// Fails exactly when no well-formed record starts there: the header
/// or the declared body length exceeds the remaining buffer, or the
/// body does not fit the record type.
pub fn decode_record(b: &[u8], pos: usize) -> (r: Result<(KeRecord, usize), Error>)
    ensures
        match r {
            Ok((rec, next)) => spec_decode_record(b@, pos as int) == Some(
                (rec@, next as int),
            ) && next <= b@.len(),
            Err(e) => {
                &&& spec_decode_record(b@, pos as int) is None
                &&& e matches Error::Protocol(m) && m@ == spec_malformed_msg()
            },
        },
{
    let n = b.len();
    if n < 4 || pos > n - 4 {
        return Err(malformed_record());
    }
    let tw = read_be16(b, pos);
    let len = read_be16(b, pos + 2) as usize;
    if n - (pos + 4) < len {
        assert(!spec_rec_fits(b@, pos as int));
        return Err(malformed_record());
    }
    let body_start = pos + 4;
    let next = body_start + len;
    assert(spec_rec_fits(b@, pos as int));
    let ghost body = spec_rec_body_at(b@, pos as int);
    assert(body.len() == len);

    let t = tw % KE_CRITICAL_BIT;
    let critical = tw >= KE_CRITICAL_BIT;

    if t == KE_END_OF_MESSAGE {
        if len == 0 {
            Ok((KeRecord::EndOfMessage, next))
        } else {
            Err(malformed_record())
        }
    } else if t == KE_NEXT_PROTOCOL {
        if len % 2 == 0 {
            let ps = decode_u16s(b, body_start, next);
            Ok((KeRecord::NextProtocol(ps), next))
        } else {
            Err(malformed_record())
        }
    } else if t == KE_ERROR {
        if len == 2 {
            let c = read_be16(b, body_start);
            assert(c == be16_of(body[0], body[1]));
            Ok((KeRecord::ErrorCode(c), next))
        } else {
            Err(malformed_record())
        }
    } else if t == KE_WARNING {
        if len == 2 {
            let c = read_be16(b, body_start);
            assert(c == be16_of(body[0], body[1]));
            Ok((KeRecord::WarningCode(c), next))
        } else {
            Err(malformed_record())
        }
    } else if t == KE_AEAD_ALGORITHM {
        if len % 2 == 0 {
            let algorithms = decode_u16s(b, body_start, next);
            Ok((KeRecord::AeadAlgorithm { critical, algorithms }, next))
        } else {
            Err(malformed_record())
        }
    } else if t == KE_NEW_COOKIE {
        let cookie = bytes_range(b, body_start, next);
        Ok((KeRecord::NewCookie { critical, cookie }, next))
    } else if t == KE_SERVER {
        let name = bytes_range(b, body_start, next);
        Ok((KeRecord::Server { critical, name }, next))
    } else if t == KE_PORT {
        if len == 2 {
            let port = read_be16(b, body_start);
            assert(port == be16_of(body[0], body[1]));
            Ok((KeRecord::Port { critical, port }, next))
        } else {
            Err(malformed_record())
        }
    } else {
        let raw = bytes_range(b, body_start, next);
        Ok((KeRecord::Unknown { critical, rtype: t, body: raw }, next))
    }
}

/// Outcome of decoding a whole record stream.
pub enum SpecStreamOutcome {
    /// The records before the end-of-message record, in order, with
    /// unrecognized non-critical records skipped.
    Done(Seq<SpecKeRecord>),
    /// A record was malformed, or the stream ended before the
    /// end-of-message record.
    Malformed,
    /// An unrecognized record carried the critical bit.
    UnknownCritical,
}

/// Decode records from `pos` up to the end-of-message record.
pub open spec fn spec_decode_records(b: Seq<u8>, pos: int) -> SpecStreamOutcome
    decreases b.len() - pos,
{
    if !spec_rec_fits(b, pos) {
        SpecStreamOutcome::Malformed
    } else {
        match spec_rec_interp(be16_of(b[pos], b[pos + 1]), spec_rec_body_at(b, pos)) {
            None => SpecStreamOutcome::Malformed,
            Some(r) => {
                if r is EndOfMessage {
                    SpecStreamOutcome::Done(Seq::empty())
                } else if r matches SpecKeRecord::Unknown { critical: true, .. } {
                    SpecStreamOutcome::UnknownCritical
                } else {
                    match spec_decode_records(b, spec_rec_next(b, pos)) {
                        SpecStreamOutcome::Done(rest) => {
                            if r is Unknown {
                                SpecStreamOutcome::Done(rest)
                            } else {
                                SpecStreamOutcome::Done(seq![r] + rest)
                            }
                        },
                        o => o,
                    }
                }
            },
        }
    }
}

/// Combine records already taken from a stream with the outcome of the
/// remaining stream.
pub open spec fn spec_stream_resume(
    acc: Seq<SpecKeRecord>,
    o: SpecStreamOutcome,
) -> SpecStreamOutcome {
    match o {
        SpecStreamOutcome::Done(rest) => SpecStreamOutcome::Done(acc + rest),
        _ => o,
    }
}

/// The message attached to an unrecognized-critical-record error.
pub open spec fn spec_unknown_critical_msg() -> Seq<char> {
    "Unrecognized critical NTS record"@
}

/// Decode a whole NTS-KE record stream.
///
/// Returns the records before the end-of-message record, in order,
/// skipping unrecognized non-critical records. Fails with a protocol
/// error when a record is malformed or the stream ends early, and with
/// a key-exchange error when an unrecognized record is critical.
pub fn decode_records(b: &[u8]) -> (r: Result<Vec<KeRecord>, Error>)
    ensures
        match r {
            Ok(v) => spec_decode_records(b@, 0) == SpecStreamOutcome::Done(v.deep_view()),
            Err(e) => match e {
                Error::Protocol(m) => spec_decode_records(b@, 0)
                    == SpecStreamOutcome::Malformed && m@ == spec_malformed_msg(),
                Error::KeyExchange(m) => spec_decode_records(b@, 0)
                    == SpecStreamOutcome::UnknownCritical && m@ == spec_unknown_critical_msg(),
                _ => false,
            },
        },
{
    let mut acc: Vec<KeRecord> = Vec::new();
    let mut pos: usize = 0;
    assert(acc.deep_view() =~= Seq::<SpecKeRecord>::empty());
    loop
        invariant
            pos <= b@.len(),
            spec_stream_resume(acc.deep_view(), spec_decode_records(b@, pos as int))
                == spec_decode_records(b@, 0),
        decreases b@.len() - pos,
    {
        let step = decode_record(b, pos);
        match step {
            Err(e) => {
                assert(spec_decode_records(b@, pos as int) == SpecStreamOutcome::Malformed);
                return Err(e);
            },
            Ok((rec, next)) => {
                proof {
                    assert(spec_rec_fits(b@, pos as int));
                    assert(spec_rec_interp(
                        be16_of(b@[pos as int], b@[pos as int + 1]),
                        spec_rec_body_at(b@, pos as int),
                    ) == Some(rec@));
                    assert(next as int == spec_rec_next(b@, pos as int));
                }
                match rec {
                    KeRecord::EndOfMessage => {
                        assert(spec_decode_records(b@, pos as int) == SpecStreamOutcome::Done(
                            Seq::empty(),
                        ));
                        assert(acc.deep_view() + Seq::<SpecKeRecord>::empty() =~= acc.deep_view());
                        return Ok(acc);
                    },
                    KeRecord::Unknown { critical, .. } => {
                        if critical {
                            assert(spec_decode_records(b@, pos as int)
                                == SpecStreamOutcome::UnknownCritical);
                            return Err(
                                Error::KeyExchange("Unrecognized critical NTS record".to_owned()),
                            );
                        }
                        proof {
                            let here = spec_decode_records(b@, pos as int);
                            let after = spec_decode_records(b@, next as int);
                            assert(here == (match after {
                                SpecStreamOutcome::Done(rest) => SpecStreamOutcome::Done(rest),
                                o => o,
                            }));
                            assert(spec_stream_resume(acc.deep_view(), after)
                                == spec_decode_records(b@, 0));
                        }
                        pos = next;
                    },
                    _ => {
                        let ghost accv = acc.deep_view();
                        let ghost rv = rec@;
                        proof {
                            let here = spec_decode_records(b@, pos as int);
                            let after = spec_decode_records(b@, next as int);
                            assert(here == (match after {
                                SpecStreamOutcome::Done(rest) => SpecStreamOutcome::Done(
                                    seq![rv] + rest,
                                ),
                                o => o,
                            }));
                            match after {
                                SpecStreamOutcome::Done(rest) => {
                                    assert(accv + (seq![rv] + rest) =~= (accv + seq![rv]) + rest);
                                },
                                _ => {},
                            }
                        }
                        acc.push(rec);
                        proof {
                            assert(acc.deep_view() =~= accv + seq![rv]);
                            assert(spec_stream_resume(
                                acc.deep_view(),
                                spec_decode_records(b@, next as int),
                            ) == spec_decode_records(b@, 0));
                        }
                        pos = next;
                    },
                }
            },
        }
    }
}

} // verus!
