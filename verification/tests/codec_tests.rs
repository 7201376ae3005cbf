//! Round trips and stream decoding for the two codecs.

use rkik_nts::error::Error;
use rkik_nts::packet::{decode_ef, encode_ef, ExtField};
use rkik_nts::records::{decode_record, decode_records, encode_record, KeRecord};

fn record_round_trip(r: KeRecord) {
    let enc = encode_record(&r);
    let (dec, next) = decode_record(&enc, 0).expect("round trip must decode");
    assert_eq!(dec, r);
    assert_eq!(next, enc.len());
}

#[test]
fn test_record_round_trip_all_types() {
    record_round_trip(KeRecord::EndOfMessage);
    record_round_trip(KeRecord::NextProtocol(vec![0]));
    record_round_trip(KeRecord::NextProtocol(vec![0, 0x8001, 0xFFFF]));
    record_round_trip(KeRecord::ErrorCode(2));
    record_round_trip(KeRecord::WarningCode(7));
    record_round_trip(KeRecord::AeadAlgorithm {
        critical: false,
        algorithms: vec![15, 17],
    });
    record_round_trip(KeRecord::AeadAlgorithm {
        critical: true,
        algorithms: vec![],
    });
    record_round_trip(KeRecord::NewCookie {
        critical: false,
        cookie: vec![0xAB; 100],
    });
    record_round_trip(KeRecord::Server {
        critical: true,
        name: b"ntp.example.net".to_vec(),
    });
    record_round_trip(KeRecord::Port {
        critical: false,
        port: 1234,
    });
    record_round_trip(KeRecord::Unknown {
        critical: false,
        rtype: 0x0100,
        body: vec![1, 2, 3],
    });
}

#[test]
fn test_record_round_trip_max_length() {
    // The largest body a record can declare.
    record_round_trip(KeRecord::NewCookie {
        critical: false,
        cookie: vec![0x5C; 0xFFFF],
    });
    // The largest list of 16-bit values that still fits.
    record_round_trip(KeRecord::AeadAlgorithm {
        critical: false,
        algorithms: vec![0xA5A5; 0x7FFF],
    });
}

#[test]
fn test_record_decode_truncated() {
    let enc = encode_record(&KeRecord::NewCookie {
        critical: false,
        cookie: vec![1, 2, 3, 4],
    });
    // Declared length exceeds the remaining buffer.
    let truncated = &enc[..enc.len() - 1];
    let r = decode_record(truncated, 0);
    assert!(matches!(r, Err(Error::Protocol(_))));
    // A bare header fragment.
    let r2 = decode_record(&enc[..3], 0);
    assert!(matches!(r2, Err(Error::Protocol(_))));
}

#[test]
fn test_record_stream_decoding() {
    let mut stream: Vec<u8> = Vec::new();
    stream.extend_from_slice(&encode_record(&KeRecord::NextProtocol(vec![0])));
    stream.extend_from_slice(&encode_record(&KeRecord::AeadAlgorithm {
        critical: false,
        algorithms: vec![15],
    }));
    // An unrecognized, non-critical record: skipped.
    stream.extend_from_slice(&encode_record(&KeRecord::Unknown {
        critical: false,
        rtype: 0x0200,
        body: vec![9, 9],
    }));
    stream.extend_from_slice(&encode_record(&KeRecord::NewCookie {
        critical: false,
        cookie: vec![1, 2, 3, 4],
    }));
    stream.extend_from_slice(&encode_record(&KeRecord::EndOfMessage));
    // Trailing bytes after end-of-message are ignored.
    stream.extend_from_slice(&[0xDE, 0xAD]);

    let records = decode_records(&stream).expect("stream must decode");
    assert_eq!(records.len(), 3);
    assert_eq!(records[0], KeRecord::NextProtocol(vec![0]));
    assert_eq!(
        records[1],
        KeRecord::AeadAlgorithm {
            critical: false,
            algorithms: vec![15],
        }
    );
    assert_eq!(
        records[2],
        KeRecord::NewCookie {
            critical: false,
            cookie: vec![1, 2, 3, 4],
        }
    );
}

#[test]
fn test_record_stream_unknown_critical_aborts() {
    let mut stream: Vec<u8> = Vec::new();
    stream.extend_from_slice(&encode_record(&KeRecord::Unknown {
        critical: true,
        rtype: 0x0200,
        body: vec![],
    }));
    stream.extend_from_slice(&encode_record(&KeRecord::EndOfMessage));

    let r = decode_records(&stream);
    match r {
        Err(Error::KeyExchange(m)) => assert!(m.contains("critical")),
        other => panic!("expected a key-exchange error, got {:?}", other),
    }
}

#[test]
fn test_record_stream_missing_end_aborts() {
    let stream = encode_record(&KeRecord::NextProtocol(vec![0]));
    let r = decode_records(&stream);
    assert!(matches!(r, Err(Error::Protocol(_))));
}

fn ef_round_trip(f: ExtField) {
    let enc = encode_ef(&f);
    let (dec, next) = decode_ef(&enc, 0).expect("round trip must decode");
    assert_eq!(dec, f);
    assert_eq!(next, enc.len());
}

#[test]
fn test_ext_field_round_trip_all_types() {
    ef_round_trip(ExtField::UniqueIdentifier(vec![0x11; 32]));
    ef_round_trip(ExtField::NtsCookie(vec![0x22; 100]));
    ef_round_trip(ExtField::CookiePlaceholder(vec![0; 100]));
    ef_round_trip(ExtField::Authenticator {
        nonce: vec![0x33; 16],
        ciphertext: vec![0x44; 16],
    });
    // Odd nonce and ciphertext lengths exercise the inner padding.
    ef_round_trip(ExtField::Authenticator {
        nonce: vec![0x55; 13],
        ciphertext: vec![0x66; 37],
    });
    ef_round_trip(ExtField::Unknown {
        ftype: 0x0504,
        body: vec![7, 8, 9, 10],
    });
}

#[test]
fn test_ext_field_round_trip_max_length() {
    // The largest aligned body that fits the length word.
    ef_round_trip(ExtField::NtsCookie(vec![0x77; 0xFFF8]));
}

#[test]
fn test_ext_field_decode_rejects_bad_length() {
    let enc = encode_ef(&ExtField::NtsCookie(vec![1, 2, 3, 4]));
    // Truncated buffer.
    assert!(matches!(
        decode_ef(&enc[..enc.len() - 1], 0),
        Err(Error::InvalidResponse(_))
    ));
    // An unaligned declared length.
    let mut bad = enc.clone();
    bad[3] = bad[3] + 1;
    assert!(matches!(decode_ef(&bad, 0), Err(Error::InvalidResponse(_))));
}
