use parser::codecs::base::TxFieldKey;
use parser::codecs::errors::{add_parser_ctx, ParserContext, ParserError};
use parser::codecs::numbers::NumberFault;
use parser::errors::{AppError, IoFailure};

#[test]
fn parser_error_messages() {
    assert_eq!(
        ParserError::MissingField(TxFieldKey::Amount).to_string(),
        "required field AMOUNT is missing"
    );
    assert_eq!(
        ParserError::UnparsableKey("TX".to_string()).to_string(),
        "unknown key TX"
    );
    assert_eq!(
        ParserError::UnparsableValue("DEPO".to_string()).to_string(),
        "value DEPO can't be parsed"
    );
    assert_eq!(
        ParserError::ShellBeQuoted("some".to_string()).to_string(),
        "string ->some<- shall be double quoted"
    );
    assert_eq!(
        ParserError::Duplicate(TxFieldKey::Id).to_string(),
        "field TX_ID has duplicate"
    );
    assert_eq!(
        ParserError::NoFieldDelimiter.to_string(),
        "key-value delimiter is expected"
    );
    assert_eq!(
        ParserError::InvalidFileHeader.to_string(),
        "invalid file header"
    );
    assert_eq!(
        ParserError::IncompleteRecord.to_string(),
        "incomplete record (doesn't have all required fields)"
    );
    assert_eq!(
        ParserError::InvalidRecordHeader("4E4F5045".to_string()).to_string(),
        "invalid record header \"4E4F5045\""
    );
    assert_eq!(
        ParserError::InvalidRecordHeader("a\"b\n".to_string()).to_string(),
        format!("invalid record header {:?}", "a\"b\n")
    );
}

#[test]
fn number_faults_become_unparsable_values() {
    let e = ParserError::from_number_fault(NumberFault::InvalidDigit);
    assert!(matches!(&e, ParserError::UnparsableValue(v) if v == "invalid digit found in string"));
    let e = ParserError::from_number_fault(NumberFault::Empty);
    assert!(
        matches!(&e, ParserError::UnparsableValue(v) if v == "cannot parse integer from empty string")
    );
    let e = ParserError::from_number_fault(NumberFault::PosOverflow);
    assert!(
        matches!(&e, ParserError::UnparsableValue(v) if v == "number too large to fit in target type")
    );
    let e = ParserError::from_number_fault(NumberFault::NegOverflow);
    assert!(
        matches!(&e, ParserError::UnparsableValue(v) if v == "number too small to fit in target type")
    );
}

#[test]
fn context_messages() {
    assert_eq!(
        ParserContext::with_line_number_and_line(12, "TX_ID 1".to_string()).to_string(),
        "line #12, content: `TX_ID 1`\n"
    );
    assert_eq!(
        ParserContext::with_position(0).to_string(),
        "position #0\n"
    );
    assert_eq!(
        ParserContext::with_position_and_field_key(17, TxFieldKey::TxKind).to_string(),
        "position #17, field being parsed: `TX_TYPE`\n"
    );
    assert!(matches!(
        ParserContext::with_line_number_and_line(3, "x".to_string()),
        ParserContext::LineNumAndLine { line_num: 3, line } if line == "x"
    ));
    assert!(matches!(
        ParserContext::with_position(9),
        ParserContext::Position { position: 9 }
    ));
    assert!(matches!(
        ParserContext::with_position_and_field_key(9, TxFieldKey::Status),
        ParserContext::PositionAndField {
            position: 9,
            field_key: TxFieldKey::Status
        }
    ));
}

#[test]
fn app_error_messages() {
    assert_eq!(
        AppError::ReadError(IoFailure::UnexpectedEof).to_string(),
        "read error, failed to fill whole buffer"
    );
    assert_eq!(
        AppError::WriteError(IoFailure::InvalidData).to_string(),
        "write error, stream did not contain valid UTF-8"
    );
    let e = AppError::ParsingError {
        context: ParserContext::with_position(8),
        source: ParserError::IncompleteRecord,
    };
    assert_eq!(
        e.to_string(),
        "incomplete record (doesn't have all required fields):\nposition #8\n\n"
    );
}

#[test]
fn context_is_added_to_errors_only() {
    let ok: Result<u8, ParserError> = Ok(5);
    assert!(matches!(
        add_parser_ctx(ok, ParserContext::with_position(1)),
        Ok(5)
    ));
    let err: Result<u8, ParserError> = Err(ParserError::NoFieldDelimiter);
    assert!(matches!(
        add_parser_ctx(err, ParserContext::with_position(1)),
        Err(AppError::ParsingError {
            context: ParserContext::Position { position: 1 },
            source: ParserError::NoFieldDelimiter
        })
    ));
}

#[test]
fn field_key_names() {
    let names = [
        (TxFieldKey::Id, "TX_ID"),
        (TxFieldKey::TxKind, "TX_TYPE"),
        (TxFieldKey::FromUserId, "FROM_USER_ID"),
        (TxFieldKey::ToUserId, "TO_USER_ID"),
        (TxFieldKey::Amount, "AMOUNT"),
        (TxFieldKey::Timestamp, "TIMESTAMP"),
        (TxFieldKey::Status, "STATUS"),
        (TxFieldKey::Description, "DESCRIPTION"),
    ];
    for (key, name) in names {
        assert_eq!(key.to_string(), name);
        assert_eq!(key.as_str(), name);
        let chars: Vec<char> = name.chars().collect();
        assert_eq!(TxFieldKey::from_chars(&chars).expect("a field name"), key);
        assert_eq!(TxFieldKey::from_str(name).expect("a field name"), key);
    }
    let chars: Vec<char> = "tx_id".chars().collect();
    assert!(matches!(
        TxFieldKey::from_chars(&chars),
        Err(ParserError::UnparsableKey(name)) if name == "tx_id"
    ));
}
