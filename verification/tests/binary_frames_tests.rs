use parser::codecs::base::{Codec, Format, TxFieldKey};
use parser::codecs::binary::{BinaryCodec, MINIMUM_RECORD_SIZE};
use parser::codecs::errors::{ParserContext, ParserError};
use parser::codecs::traits::{DataParser, DataWriter};
use parser::domain::tx::{AccountType, TxIdType, TxKind, TxRecord, TxStatus, TxTimestamp};
use parser::errors::{AppError, IoFailure};

fn payment() -> TxRecord {
    TxRecord {
        id: TxIdType(1),
        kind: TxKind::Transfer,
        from: AccountType(11),
        to: AccountType(22),
        amount: -500,
        ts: TxTimestamp::from_millis(1_700_000),
        status: TxStatus::Pending,
        description: "payment".to_string(),
    }
}

fn frame(kind: u8, status: u8, desc: &[u8], stated_desc_len: u32, slack: &[u8]) -> Vec<u8> {
    let mut body = Vec::new();
    body.extend_from_slice(&1u64.to_be_bytes());
    body.push(kind);
    body.extend_from_slice(&10u64.to_be_bytes());
    body.extend_from_slice(&20u64.to_be_bytes());
    body.extend_from_slice(&100i64.to_be_bytes());
    body.extend_from_slice(&1234u64.to_be_bytes());
    body.push(status);
    body.extend_from_slice(&stated_desc_len.to_be_bytes());
    body.extend_from_slice(desc);
    body.extend_from_slice(slack);
    let mut out = Vec::new();
    out.extend_from_slice(b"YPBN");
    out.extend_from_slice(&(body.len() as u32).to_be_bytes());
    out.extend_from_slice(&body);
    out
}

#[test]
fn minimum_record_size_is_the_sum_of_the_fixed_fields() {
    assert_eq!(MINIMUM_RECORD_SIZE, 46);
}

#[test]
fn written_frame_has_the_fixed_layout() {
    let mut bytes = vec![0xAAu8];
    Format::Binary
        .write(&mut bytes, &[payment()])
        .expect("binary write should succeed");
    let mut expected = vec![0xAAu8, 0x59, 0x50, 0x42, 0x4E];
    expected.extend_from_slice(&53u32.to_be_bytes());
    expected.extend_from_slice(&1u64.to_be_bytes());
    expected.push(1);
    expected.extend_from_slice(&11u64.to_be_bytes());
    expected.extend_from_slice(&22u64.to_be_bytes());
    expected.extend_from_slice(&(-500i64).to_be_bytes());
    expected.extend_from_slice(&1_700_000u64.to_be_bytes());
    expected.push(2);
    expected.extend_from_slice(&7u32.to_be_bytes());
    expected.extend_from_slice(b"payment");
    assert_eq!(bytes, expected);
}

#[test]
fn binary_write_then_parse_returns_the_identical_record() {
    let mut bytes = Vec::new();
    Codec::BinaryCodec
        .write(&mut bytes, &[payment()])
        .expect("binary write should succeed");
    let parsed = Codec::BinaryCodec
        .parse(bytes.as_slice())
        .expect("binary parse should succeed");
    assert_eq!(parsed, vec![payment()]);
}

#[test]
fn binary_round_trip_keeps_every_field_and_the_order() {
    let mut records = Vec::new();
    let descriptions = ["", "a,b", "line\nbreak", "\"quoted\"", "日本語 \u{1F600}", " spaced "];
    for (i, description) in descriptions.iter().enumerate() {
        records.push(TxRecord {
            id: TxIdType(u64::MAX - i as u64),
            kind: [TxKind::Deposit, TxKind::Transfer, TxKind::Withdrawal][i % 3],
            from: AccountType(i as u64),
            to: AccountType(u64::MAX),
            amount: [i64::MIN, -1, 0, 1, i64::MAX, 42][i],
            ts: TxTimestamp::from_millis(u64::MAX / (i as u64 + 1)),
            status: [TxStatus::Success, TxStatus::Failure, TxStatus::Pending][i % 3],
            description: description.to_string(),
        });
    }
    let mut bytes = Vec::new();
    BinaryCodec {}
        .write(&mut bytes, &records)
        .expect("binary write should succeed");
    let parsed = BinaryCodec {}
        .parse(bytes.as_slice())
        .expect("binary parse should succeed");
    assert_eq!(parsed, records);
}

#[test]
fn stream_cut_anywhere_inside_a_frame_is_a_read_error() {
    let mut bytes = Vec::new();
    Format::Binary
        .write(&mut bytes, &[payment(), payment()])
        .expect("binary write should succeed");
    let frame_len = bytes.len() / 2;
    for cut in 0..=bytes.len() {
        let outcome = Format::Binary.parse(&bytes[..cut]);
        if cut % frame_len == 0 {
            assert_eq!(outcome.expect("whole frames").len(), cut / frame_len);
        } else {
            assert!(
                matches!(outcome, Err(AppError::ReadError(IoFailure::UnexpectedEof))),
                "cut at {}",
                cut
            );
        }
    }
}

#[test]
fn partial_magic_is_a_read_error() {
    for cut in 1..4 {
        let err = Format::Binary
            .parse(&b"YPBN"[..cut])
            .expect_err("partial magic should fail");
        assert!(matches!(err, AppError::ReadError(IoFailure::UnexpectedEof)));
    }
}

#[test]
fn invalid_magic_is_located_at_the_start_of_its_frame() {
    let mut input = frame(0, 0, b"ok", 2, b"");
    let first_len = input.len();
    let mut second = frame(0, 0, b"ok", 2, b"");
    second[..4].copy_from_slice(b"NOPE");
    input.extend_from_slice(&second);
    let err = Format::Binary
        .parse(input.as_slice())
        .expect_err("invalid magic should fail");
    match err {
        AppError::ParsingError {
            context: ParserContext::Position { position },
            source: ParserError::InvalidRecordHeader(found),
        } => {
            assert_eq!(position, first_len);
            assert_eq!(found, "4E4F5045");
        }
        other => panic!("{:?}", other),
    }
}

#[test]
fn body_length_below_the_fixed_fields_is_incomplete() {
    for size in [0u32, 1, 28, 29, 45] {
        let mut input = Vec::new();
        input.extend_from_slice(b"YPBN");
        input.extend_from_slice(&size.to_be_bytes());
        input.extend_from_slice(&[0u8; 64]);
        let err = Format::Binary
            .parse(input.as_slice())
            .expect_err("too small record size should fail");
        assert!(
            matches!(
                err,
                AppError::ParsingError {
                    context: ParserContext::Position { position: 8 },
                    source: ParserError::IncompleteRecord
                }
            ),
            "size {}",
            size
        );
    }
    let mut input = Vec::new();
    input.extend_from_slice(b"YPBN");
    input.extend_from_slice(&45u32.to_be_bytes());
    assert!(matches!(
        Format::Binary.parse(input.as_slice()),
        Err(AppError::ParsingError {
            context: _,
            source: ParserError::IncompleteRecord
        })
    ));
}

#[test]
fn unknown_kind_byte_is_unparsable_with_its_place() {
    for byte in [3u8, 9, 255] {
        let input = frame(byte, 0, b"ok", 2, b"");
        match Format::Binary.parse(input.as_slice()) {
            Err(AppError::ParsingError {
                context: ParserContext::PositionAndField { position, field_key },
                source: ParserError::UnparsableValue(found),
            }) => {
                assert_eq!(position, 17);
                assert_eq!(field_key, TxFieldKey::TxKind);
                assert_eq!(found, byte.to_string());
            }
            other => panic!("{:?}", other),
        }
    }
}

#[test]
fn unknown_status_byte_is_unparsable_with_its_place() {
    for byte in [3u8, 9, 255] {
        let input = frame(2, byte, b"ok", 2, b"");
        match Format::Binary.parse(input.as_slice()) {
            Err(AppError::ParsingError {
                context: ParserContext::PositionAndField { position, field_key },
                source: ParserError::UnparsableValue(found),
            }) => {
                assert_eq!(position, 50);
                assert_eq!(field_key, TxFieldKey::Status);
                assert_eq!(found, byte.to_string());
            }
            other => panic!("{:?}", other),
        }
    }
}

#[test]
fn unknown_kind_is_reported_before_unknown_status() {
    let input = frame(7, 7, b"ok", 2, b"");
    assert!(matches!(
        Format::Binary.parse(input.as_slice()),
        Err(AppError::ParsingError {
            context: ParserContext::PositionAndField {
                position: 17,
                field_key: TxFieldKey::TxKind
            },
            source: _
        })
    ));
}

#[test]
fn non_utf8_description_is_unparsable_with_its_place() {
    let input = frame(0, 0, &[0xFF, 0xFF], 2, b"");
    match Format::Binary.parse(input.as_slice()) {
        Err(AppError::ParsingError {
            context: ParserContext::PositionAndField { position, field_key },
            source: ParserError::UnparsableValue(found),
        }) => {
            assert_eq!(position, 8 + 46 + 2);
            assert_eq!(field_key, TxFieldKey::Description);
            assert_eq!(found, "non utf-8 string");
        }
        other => panic!("{:?}", other),
    }
}

#[test]
fn description_longer_than_the_body_is_a_read_error() {
    let input = frame(0, 0, b"ok", 3, b"");
    assert!(matches!(
        Format::Binary.parse(input.as_slice()),
        Err(AppError::ReadError(IoFailure::UnexpectedEof))
    ));
}

#[test]
fn bytes_behind_the_description_are_skipped() {
    let mut input = frame(1, 2, b"ok", 2, b"slack");
    input.extend_from_slice(&frame(0, 0, b"next", 4, b""));
    let parsed = Format::Binary
        .parse(input.as_slice())
        .expect("slack should be skipped");
    assert_eq!(parsed.len(), 2);
    assert_eq!(parsed[0].description, "ok");
    assert_eq!(parsed[0].kind, TxKind::Transfer);
    assert_eq!(parsed[0].status, TxStatus::Pending);
    assert_eq!(parsed[0].amount, 100);
    assert_eq!(parsed[0].ts.millis(), 1234);
    assert_eq!(parsed[1].description, "next");
}

#[test]
fn empty_description_is_read_as_empty() {
    let input = frame(0, 1, b"", 0, b"");
    let parsed = Format::Binary.parse(input.as_slice()).expect("a frame");
    assert_eq!(parsed.len(), 1);
    assert_eq!(parsed[0].description, "");
    assert_eq!(parsed[0].status, TxStatus::Failure);
}

#[test]
fn codec_helpers_map_codes_both_ways() {
    let codec = BinaryCodec {};
    for (kind, code) in [(TxKind::Deposit, 0u8), (TxKind::Transfer, 1), (TxKind::Withdrawal, 2)] {
        assert_eq!(codec.kind_to_u8(kind), code);
        assert_eq!(codec.parse_kind_from_u8(code).expect("a kind"), kind);
    }
    for (status, code) in [(TxStatus::Success, 0u8), (TxStatus::Failure, 1), (TxStatus::Pending, 2)]
    {
        assert_eq!(codec.status_to_u8(status), code);
        assert_eq!(codec.parse_status_from_u8(code).expect("a status"), status);
    }
    assert!(matches!(
        codec.parse_kind_from_u8(3),
        Err(ParserError::UnparsableValue(v)) if v == "3"
    ));
    assert!(matches!(
        codec.parse_status_from_u8(200),
        Err(ParserError::UnparsableValue(v)) if v == "200"
    ));
    assert_eq!(codec.bytes_to_hex(b"YPBN"), "5950424E");
}

#[test]
fn codec_helpers_read_and_write_big_endian() {
    let codec = BinaryCodec {};
    let mut out = Vec::new();
    codec.write_u32_be(&mut out, 0x01020304).expect("write");
    codec.write_u64_be(&mut out, 0x0102030405060708).expect("write");
    codec.write_i64_be(&mut out, -2).expect("write");
    assert_eq!(
        out,
        vec![1, 2, 3, 4, 1, 2, 3, 4, 5, 6, 7, 8, 255, 255, 255, 255, 255, 255, 255, 254]
    );
    assert_eq!(codec.read_u32_be(&out, 0).expect("read"), 0x01020304);
    assert_eq!(codec.read_u64_be(&out, 4).expect("read"), 0x0102030405060708);
    assert_eq!(codec.read_i64_be(&out, 12).expect("read"), -2);
    assert!(matches!(
        codec.read_u32_be(&out, 17),
        Err(AppError::ReadError(IoFailure::UnexpectedEof))
    ));
    assert!(matches!(
        codec.read_u64_be(&out, 13),
        Err(AppError::ReadError(IoFailure::UnexpectedEof))
    ));
    assert!(matches!(
        codec.read_i64_be(&out, 20),
        Err(AppError::ReadError(IoFailure::UnexpectedEof))
    ));
    assert!(matches!(
        codec.read_u32_be(&out, 21),
        Err(AppError::ReadError(IoFailure::UnexpectedEof))
    ));
    assert!(matches!(
        codec.read_u64_be(&out, usize::MAX),
        Err(AppError::ReadError(IoFailure::UnexpectedEof))
    ));
}
