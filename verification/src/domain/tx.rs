use crate::codecs::base::u64_field;
use crate::codecs::errors::ParserError;
use crate::codecs::errors::ParserErrorView;
use crate::codecs::numbers::decimal;
use crate::codecs::numbers::u64_to_string;
use std::time::Duration;
use std::time::SystemTime;
use std::time::SystemTimeError;
use vstd::prelude::*;
use vstd::std_specs::cmp::PartialEqSpecImpl;
use vstd::string::StringExecFns;

verus! {

/// Type wrapper for transaction Id field.
#[derive(Debug, Eq, PartialEq, Hash, Clone, Copy, Structural)]
pub struct TxIdType(pub u64);

impl Default for TxIdType {
    fn default() -> (r: Self)
        ensures
            r.0 == 0,
    {
        TxIdType(0)
    }
}

impl TxIdType {
    /// The decimal form of the id.
    pub fn to_string(&self) -> (s: String)
        ensures
            s@ == decimal(self.0 as nat),
    {
        u64_to_string(self.0)
    }
}

/// Type wrapper for account Id field.
#[derive(Debug, Eq, PartialEq, Hash, Clone, Copy, Structural)]
pub struct AccountType(pub u64);

impl Default for AccountType {
    fn default() -> (r: Self)
        ensures
            r.0 == 0,
    {
        AccountType(0)
    }
}

impl AccountType {
    /// The decimal form of the account id.
    pub fn to_string(&self) -> (s: String)
        ensures
            s@ == decimal(self.0 as nat),
    {
        u64_to_string(self.0)
    }
}

/// Type wrapper for transaction operation type/kind field.
#[derive(Debug, Eq, PartialEq, Hash, Clone, Copy, Structural)]
pub enum TxKind {
    /// Incoming funds to destination account : 0->to.
    Deposit,
    /// Funds transfer between two accounts : from->to.
    Transfer,
    /// Outgoing funds from source account : from->0 .
    Withdrawal,
}

impl TxKind {
    /// The token of the kind in the text and CSV formats.
    pub open spec fn token(self) -> Seq<char> {
        match self {
            TxKind::Deposit => "DEPOSIT"@,
            TxKind::Transfer => "TRANSFER"@,
            TxKind::Withdrawal => "WITHDRAWAL"@,
        }
    }

    /// The byte of the kind in the binary format.
    pub open spec fn code(self) -> u8 {
        match self {
            TxKind::Deposit => 0,
            TxKind::Transfer => 1,
            TxKind::Withdrawal => 2,
        }
    }

    /// The kind with the given byte code, if there is one.
    pub open spec fn of_code(code: u8) -> Option<TxKind> {
        if code == 0 {
            Some(TxKind::Deposit)
        } else if code == 1 {
            Some(TxKind::Transfer)
        } else if code == 2 {
            Some(TxKind::Withdrawal)
        } else {
            None
        }
    }

    /// The token of the kind.
    pub fn as_str(&self) -> (s: &'static str)
        ensures
            s@ == self.token(),
    {
        match self {
            TxKind::Deposit => "DEPOSIT",
            TxKind::Transfer => "TRANSFER",
            TxKind::Withdrawal => "WITHDRAWAL",
        }
    }

    /// The token of the kind, as a string.
    pub fn to_string(&self) -> (s: String)
        ensures
            s@ == self.token(),
    {
        String::from_str(self.as_str())
    }
}

/// Transaction processing status enum.
#[derive(Debug, Eq, PartialEq, Hash, Clone, Copy, Structural)]
pub enum TxStatus {
    /// Transaction was processed successfully.
    Success,
    /// Transaction processed with failure.
    Failure,
    /// Transaction processing is in progress.
    Pending,
}

impl TxStatus {
    /// The token of the status in the text and CSV formats.
    pub open spec fn token(self) -> Seq<char> {
        match self {
            TxStatus::Success => "SUCCESS"@,
            TxStatus::Failure => "FAILURE"@,
            TxStatus::Pending => "PENDING"@,
        }
    }

    /// The byte of the status in the binary format.
    pub open spec fn code(self) -> u8 {
        match self {
            TxStatus::Success => 0,
            TxStatus::Failure => 1,
            TxStatus::Pending => 2,
        }
    }

    /// The status with the given byte code, if there is one.
    pub open spec fn of_code(code: u8) -> Option<TxStatus> {
        if code == 0 {
            Some(TxStatus::Success)
        } else if code == 1 {
            Some(TxStatus::Failure)
        } else if code == 2 {
            Some(TxStatus::Pending)
        } else {
            None
        }
    }

    /// The token of the status.
    pub fn as_str(&self) -> (s: &'static str)
        ensures
            s@ == self.token(),
    {
        match self {
            TxStatus::Success => "SUCCESS",
            TxStatus::Failure => "FAILURE",
            TxStatus::Pending => "PENDING",
        }
    }

    /// The token of the status, as a string.
    pub fn to_string(&self) -> (s: String)
        ensures
            s@ == self.token(),
    {
        String::from_str(self.as_str())
    }
}

/// The system clock, read by `SystemTime::now`.
#[verifier::external_type_specification]
#[verifier::external_body]
pub struct ExSystemTime(SystemTime);

/// The error of `SystemTime::duration_since`: the clock reading lies before the reference.
#[verifier::external_type_specification]
#[verifier::external_body]
pub struct ExSystemTimeError(SystemTimeError);

/// `SystemTime::now` reads the system clock; nothing is known of the reading.
pub assume_specification[ SystemTime::now ]() -> (now: SystemTime)
;

/// Calls `SystemTime::duration_since` with the Unix epoch as the earlier time: the time
/// from the epoch to `time`, or an error when `time` lies before the epoch. Nothing is
/// claimed of either outcome.
#[verifier::external_body]
fn duration_since_epoch(time: &SystemTime) -> (elapsed: Result<Duration, SystemTimeError>) {
    time.duration_since(SystemTime::UNIX_EPOCH)
}

/// `Duration::as_millis` gives the whole milliseconds in a duration.
pub assume_specification[ Duration::as_millis ](duration: &Duration) -> (millis: u128)
;

/// Type wrapper for transaction timestamp field: milliseconds since the Unix epoch.
#[derive(Debug, Eq, PartialEq, Hash, Clone, Copy, Structural)]
pub struct TxTimestamp(pub u64);

impl TxTimestamp {
    /// The timestamp that stands for a clock reading: the low 64 bits of the elapsed
    /// milliseconds, or 0 when the clock reads a time before the Unix epoch.
    pub open spec fn of_elapsed(elapsed: Option<u128>) -> TxTimestamp {
        match elapsed {
            Some(millis) => TxTimestamp((millis % 0x1_0000_0000_0000_0000) as u64),
            None => TxTimestamp(0),
        }
    }

    /// Turns the milliseconds elapsed since the Unix epoch, if the clock is past it, into a timestamp.
    pub fn from_elapsed(elapsed: Option<u128>) -> (ts: Self)
        ensures
            ts == Self::of_elapsed(elapsed),
    {
        match elapsed {
            Some(millis) => TxTimestamp((millis % 0x1_0000_0000_0000_0000) as u64),
            None => TxTimestamp(0),
        }
    }

    /// Returns milliseconds for now or 0 if now is before the Unix epoch.
    pub fn default() -> (ts: Self)
        ensures
            exists|elapsed: Option<u128>| ts == Self::of_elapsed(elapsed),
    {
        let elapsed = match duration_since_epoch(&SystemTime::now()) {
            Ok(duration) => Some(duration.as_millis()),
            Err(_) => None,
        };
        Self::from_elapsed(elapsed)
    }

    /// Parses milliseconds since unix epoch from string.
    pub fn parse_timestamp(value: &str) -> (r: Result<Self, ParserError>)
        ensures
            match r {
                Ok(ts) => u64_field(value@) == Ok::<u64, ParserErrorView>(ts.0),
                Err(e) => u64_field(value@) == Err::<u64, ParserErrorView>(e@),
            },
    {
        Self::from_str(value)
    }

    /// The decimal form of the milliseconds.
    pub fn to_string(&self) -> (s: String)
        ensures
            s@ == decimal(self.0 as nat),
    {
        u64_to_string(self.0)
    }

    /// Returns timestamp as milliseconds since Unix epoch.
    pub fn millis(&self) -> (ms: u64)
        ensures
            ms == self.0,
    {
        self.0
    }

    /// Create new TxTimestamp instance based on milliseconds since Unix epoch provided.
    pub fn from_millis(milliseconds: u64) -> (ts: Self)
        ensures
            ts.0 == milliseconds,
    {
        Self(milliseconds)
    }
}

/// Transaction record domain model.
#[derive(Debug, Hash)]
pub struct TxRecord {
    /// Unique transaction identifier.
    pub id: TxIdType,
    /// Transaction operation type/kind.
    pub kind: TxKind,
    /// Source account id.
    pub from: AccountType,
    /// Destination account id.
    pub to: AccountType,
    /// Amount in minimal currency units.
    pub amount: i64,
    /// Transaction processing timestamp.
    pub ts: TxTimestamp,
    /// Processing status.
    pub status: TxStatus,
    /// Transaction description/ operation purpose.
    pub description: String,
}

/// The mathematical value of a [`TxRecord`]: its fields, with the description as a sequence of characters.
pub struct TxRecordView {
    pub id: u64,
    pub kind: TxKind,
    pub from: u64,
    pub to: u64,
    pub amount: i64,
    pub ts: u64,
    pub status: TxStatus,
    pub description: Seq<char>,
}

impl View for TxRecord {
    type V = TxRecordView;

    open spec fn view(&self) -> TxRecordView {
        TxRecordView {
            id: self.id.0,
            kind: self.kind,
            from: self.from.0,
            to: self.to.0,
            amount: self.amount,
            ts: self.ts.0,
            status: self.status,
            description: self.description@,
        }
    }
}

/// The values of a sequence of records, in order.
pub open spec fn record_views(records: Seq<TxRecord>) -> Seq<TxRecordView> {
    Seq::new(records.len(), |i: int| records[i]@)
}

impl PartialEq for TxRecord {
    /// Full structural equality over all eight fields.
    fn eq(&self, other: &Self) -> (r: bool) {
        self.id.0 == other.id.0 && self.kind == other.kind && self.from.0 == other.from.0
            && self.to.0 == other.to.0 && self.amount == other.amount && self.ts.0 == other.ts.0
            && self.status == other.status && self.description == other.description
    }
}

impl PartialEqSpecImpl for TxRecord {
    open spec fn obeys_eq_spec() -> bool {
        true
    }

    open spec fn eq_spec(&self, other: &Self) -> bool {
        self@ == other@
    }
}

impl Eq for TxRecord {

}

impl Clone for TxRecord {
    fn clone(&self) -> (r: Self)
        ensures
            r@ == self@,
    {
        TxRecord {
            id: self.id,
            kind: self.kind,
            from: self.from,
            to: self.to,
            amount: self.amount,
            ts: self.ts,
            status: self.status,
            description: self.description.clone(),
        }
    }
}

impl Default for TxRecord {
    /// A failed withdrawal of nothing between account 0 and itself, stamped with the current time.
    fn default() -> (r: Self)
        ensures
            r@.id == 0,
            r@.kind == TxKind::Withdrawal,
            r@.from == 0,
            r@.to == 0,
            r@.amount == 0,
            r@.status == TxStatus::Failure,
            r@.description == Seq::<char>::empty(),
            exists|elapsed: Option<u128>| r.ts == TxTimestamp::of_elapsed(elapsed),
    {
        Self {
            id: TxIdType(0),
            kind: TxKind::Withdrawal,
            from: AccountType(0),
            to: AccountType(0),
            amount: 0,
            ts: TxTimestamp::default(),
            status: TxStatus::Failure,
            description: String::new(),
        }
    }
}

} // verus!
