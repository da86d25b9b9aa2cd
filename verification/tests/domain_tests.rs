use parser::codecs::errors::ParserError;
use parser::domain::tx::{AccountType, TxIdType, TxKind, TxRecord, TxStatus, TxTimestamp};

fn chars(text: &str) -> Vec<char> {
    text.chars().collect()
}

#[test]
fn tokens_map_both_ways() {
    for (kind, token) in [
        (TxKind::Deposit, "DEPOSIT"),
        (TxKind::Transfer, "TRANSFER"),
        (TxKind::Withdrawal, "WITHDRAWAL"),
    ] {
        assert_eq!(kind.to_string(), token);
        assert_eq!(kind.as_str(), token);
        assert_eq!(TxKind::from_chars(&chars(token)).expect("a kind"), kind);
    }
    for (status, token) in [
        (TxStatus::Success, "SUCCESS"),
        (TxStatus::Failure, "FAILURE"),
        (TxStatus::Pending, "PENDING"),
    ] {
        assert_eq!(status.to_string(), token);
        assert_eq!(status.as_str(), token);
        assert_eq!(TxStatus::from_chars(&chars(token)).expect("a status"), status);
    }
    for other in ["", "deposit", "DEPOSIT ", "SUCCESS", "DEPOSITS"] {
        assert!(matches!(
            TxKind::from_chars(&chars(other)),
            Err(ParserError::UnparsableValue(v)) if v == other
        ));
    }
    for other in ["", "pending", "DEPOSIT", "OK"] {
        assert!(matches!(
            TxStatus::from_chars(&chars(other)),
            Err(ParserError::UnparsableValue(v)) if v == other
        ));
    }
}

#[test]
fn ids_are_decimal_numbers() {
    assert_eq!(TxIdType(42).to_string(), "42");
    assert_eq!(AccountType(u64::MAX).to_string(), "18446744073709551615");
    assert_eq!(TxTimestamp(1_700_000).to_string(), "1700000");
    assert_eq!(TxIdType::from_chars(&chars("42")).expect("an id"), TxIdType(42));
    assert_eq!(
        AccountType::from_chars(&chars("+0")).expect("an account"),
        AccountType(0)
    );
    assert_eq!(
        TxTimestamp::from_chars(&chars("007")).expect("a timestamp"),
        TxTimestamp(7)
    );
    assert!(matches!(
        TxIdType::from_chars(&chars("4 2")),
        Err(ParserError::UnparsableValue(_))
    ));
    assert_eq!(TxIdType::from_str("18446744073709551615").expect("an id"), TxIdType(u64::MAX));
    assert_eq!(AccountType::from_str("12").expect("an account"), AccountType(12));
    assert_eq!(TxTimestamp::from_str("1700").expect("a timestamp"), TxTimestamp(1700));
    assert_eq!(TxKind::from_str("TRANSFER").expect("a kind"), TxKind::Transfer);
    assert_eq!(TxStatus::from_str("PENDING").expect("a status"), TxStatus::Pending);
    assert!(matches!(
        TxKind::from_str("transfer"),
        Err(ParserError::UnparsableValue(v)) if v == "transfer"
    ));
    assert!(matches!(
        AccountType::from_str(""),
        Err(ParserError::UnparsableValue(v)) if v == "cannot parse integer from empty string"
    ));
    assert_eq!(TxIdType::default(), TxIdType(0));
    assert_eq!(AccountType::default(), AccountType(0));
}

#[test]
fn timestamp_of_elapsed_milliseconds() {
    assert_eq!(TxTimestamp::from_elapsed(None), TxTimestamp(0));
    assert_eq!(TxTimestamp::from_elapsed(Some(0)), TxTimestamp(0));
    assert_eq!(TxTimestamp::from_elapsed(Some(1_700_000)), TxTimestamp(1_700_000));
    assert_eq!(
        TxTimestamp::from_elapsed(Some(u64::MAX as u128)),
        TxTimestamp(u64::MAX)
    );
    assert_eq!(
        TxTimestamp::from_elapsed(Some(u64::MAX as u128 + 6)),
        TxTimestamp(5)
    );
    assert_eq!(TxTimestamp::from_millis(9).millis(), 9);
}

#[test]
fn default_timestamp_is_the_current_time() {
    let before = std::time::SystemTime::now()
        .duration_since(std::time::UNIX_EPOCH)
        .expect("a clock past the epoch")
        .as_millis() as u64;
    let ts = TxTimestamp::default();
    let after = std::time::SystemTime::now()
        .duration_since(std::time::UNIX_EPOCH)
        .expect("a clock past the epoch")
        .as_millis() as u64;
    assert!(before <= ts.millis() && ts.millis() <= after);
    assert!(ts.millis() > 1_600_000_000_000);
}

#[test]
fn default_record_is_a_failed_withdrawal_of_nothing() {
    let tx = TxRecord::default();
    assert_eq!(tx.id, TxIdType(0));
    assert_eq!(tx.kind, TxKind::Withdrawal);
    assert_eq!(tx.from, AccountType(0));
    assert_eq!(tx.to, AccountType(0));
    assert_eq!(tx.amount, 0);
    assert_eq!(tx.status, TxStatus::Failure);
    assert_eq!(tx.description, "");
    assert!(tx.ts.millis() > 1_600_000_000_000);
}

#[test]
fn records_are_equal_field_for_field() {
    let base = TxRecord {
        id: TxIdType(1),
        kind: TxKind::Deposit,
        from: AccountType(2),
        to: AccountType(3),
        amount: 4,
        ts: TxTimestamp(5),
        status: TxStatus::Success,
        description: "six".to_string(),
    };
    assert_eq!(base, base.clone());
    let mut other = base.clone();
    other.id = TxIdType(9);
    assert_ne!(base, other);
    let mut other = base.clone();
    other.kind = TxKind::Transfer;
    assert_ne!(base, other);
    let mut other = base.clone();
    other.from = AccountType(9);
    assert_ne!(base, other);
    let mut other = base.clone();
    other.to = AccountType(9);
    assert_ne!(base, other);
    let mut other = base.clone();
    other.amount = -4;
    assert_ne!(base, other);
    let mut other = base.clone();
    other.ts = TxTimestamp(9);
    assert_ne!(base, other);
    let mut other = base.clone();
    other.status = TxStatus::Pending;
    assert_ne!(base, other);
    let mut other = base.clone();
    other.description = "seven".to_string();
    assert_ne!(base, other);
}
