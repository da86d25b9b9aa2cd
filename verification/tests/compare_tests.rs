use parser::cli_format::Format as CliFormat;
use parser::codecs::base::{Codec, Format};
use parser::codecs::dummy::DummyCodec;
use parser::codecs::traits::{DataParser, DataWriter};
use parser::compare::{compare_records, count_occurrences, FileSide};
use parser::domain::tx::{
    AccountType, TxIdType, TxKind, TxRecord, TxStatus, TxTimestamp,
};

fn tx(id: u64) -> TxRecord {
    TxRecord {
        id: TxIdType(id),
        kind: TxKind::Deposit,
        from: AccountType(0),
        to: AccountType(1),
        amount: 10,
        ts: TxTimestamp::from_millis(5),
        status: TxStatus::Success,
        description: "d".to_string(),
    }
}

#[test]
fn record_missing_from_the_second_file_is_attributed_to_the_first() {
    let a = vec![tx(1), tx(2)];
    let b = vec![tx(2)];
    let diff = compare_records(&a, &b);
    assert_eq!(diff.len(), 1);
    assert_eq!(diff[0].record, tx(1));
    assert_eq!(diff[0].in_first, 1);
    assert_eq!(diff[0].in_second, 0);
    assert_eq!(diff[0].side(), FileSide::First);
    assert_eq!(diff[0].side().as_str(), "#1");
}

#[test]
fn record_missing_from_the_first_file_is_attributed_to_the_second() {
    let diff = compare_records(&[tx(2)], &[tx(1), tx(2)]);
    assert_eq!(diff.len(), 1);
    assert_eq!(diff[0].record, tx(1));
    assert_eq!(diff[0].side(), FileSide::Second);
    assert_eq!(diff[0].side().as_str(), "#2");
}

#[test]
fn equal_multisets_have_no_difference() {
    assert!(compare_records(&[], &[]).is_empty());
    assert!(compare_records(&[tx(1), tx(2), tx(1)], &[tx(1), tx(1), tx(2)]).is_empty());
}

#[test]
fn occurrences_are_counted_and_each_record_is_named_once() {
    let a = vec![tx(1), tx(1), tx(1), tx(2), tx(3)];
    let b = vec![tx(1), tx(3), tx(3), tx(4), tx(4)];
    assert_eq!(count_occurrences(&a, &tx(1)), 3);
    assert_eq!(count_occurrences(&b, &tx(2)), 0);
    let diff = compare_records(&a, &b);
    let mut found: Vec<(u64, usize, usize, FileSide)> = diff
        .iter()
        .map(|m| (m.record.id.0, m.in_first, m.in_second, m.side()))
        .collect();
    found.sort_by_key(|m| m.0);
    assert_eq!(
        found,
        vec![
            (1, 3, 1, FileSide::First),
            (2, 1, 0, FileSide::First),
            (3, 1, 2, FileSide::Second),
            (4, 0, 2, FileSide::Second),
        ]
    );
}

#[test]
fn records_that_differ_in_one_field_are_distinct() {
    let mut later = tx(1);
    later.ts = TxTimestamp::from_millis(6);
    let mut renamed = tx(1);
    renamed.description = "e".to_string();
    assert_ne!(tx(1), later);
    assert_ne!(tx(1), renamed);
    let diff = compare_records(&[tx(1)], &[later, renamed]);
    assert_eq!(diff.len(), 3);
}

#[test]
fn format_names() {
    assert_eq!(Format::Binary.to_string(), "binary");
    assert_eq!(Format::Text.to_string(), "text");
    assert_eq!(Format::Csv.to_string(), "csv");
    assert_eq!(Format::Dummy.to_string(), "nope");
    assert_eq!(CliFormat::Binary.to_string(), "binary");
    assert_eq!(CliFormat::Text.to_string(), "text");
    assert_eq!(CliFormat::Csv.to_string(), "csv");
}

#[test]
fn command_line_formats_pick_their_codecs() {
    assert_eq!(CliFormat::Binary.codec(), Codec::BinaryCodec);
    assert_eq!(CliFormat::Text.codec(), Codec::TextCodec);
    assert_eq!(CliFormat::Csv.codec(), Codec::CsvCodec);
}

#[test]
fn codecs_and_formats_write_the_same_bytes() {
    let records = vec![tx(1), tx(2)];
    for (codec, format) in [
        (Codec::BinaryCodec, Format::Binary),
        (Codec::TextCodec, Format::Text),
        (Codec::CsvCodec, Format::Csv),
    ] {
        let mut by_codec = Vec::new();
        let mut by_format = Vec::new();
        codec.write(&mut by_codec, &records).expect("write");
        format.write(&mut by_format, &records).expect("write");
        assert_eq!(by_codec, by_format);
        assert!(!by_codec.is_empty());
        assert_eq!(codec.parse(&by_format).expect("parse"), records);
    }
}

#[test]
fn dummy_format_reads_and_writes_nothing() {
    let mut out = vec![1u8, 2, 3];
    Format::Dummy.write(&mut out, &[tx(1)]).expect("dummy write");
    assert_eq!(out, vec![1u8, 2, 3]);
    assert!(Format::Dummy.parse(b"anything").expect("dummy parse").is_empty());
    let codec = DummyCodec::default();
    codec.write(&mut out, &[tx(1)]).expect("dummy write");
    assert_eq!(out, vec![1u8, 2, 3]);
    assert!(codec.parse(b"YPBN").expect("dummy parse").is_empty());
}
