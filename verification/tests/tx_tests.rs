use parser::codecs::errors::ParserError;
use parser::domain::tx::{TxRecord, TxTimestamp};

#[test]
fn tx_is_equal() {
    let tx = TxRecord::default();
    assert_eq!(tx, tx.clone());
}

#[test]
fn ts_is_equal() {
    let ts = TxTimestamp(42424242);
    assert_eq!(ts, ts.clone());
}

#[test]
fn ts_parse() {
    let err = TxTimestamp::parse_timestamp("asdf").expect_err("unparseable uint");
    assert!(matches!(err, ParserError::UnparsableValue { .. }));

    let err = TxTimestamp::parse_timestamp("-1").expect_err("milis before epoch");
    assert!(matches!(err, ParserError::UnparsableValue { .. }));

    let ts = TxTimestamp::parse_timestamp("42424242");
    assert!(ts.is_ok());
    assert_eq!(42424242, ts.unwrap().millis());
}
