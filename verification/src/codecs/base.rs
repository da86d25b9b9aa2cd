use crate::codecs::binary::fits_frame;
use crate::codecs::binary::lemma_frames_round_trip;
use crate::codecs::binary::BinaryCodec;
use crate::codecs::csv::CsvCodec;
use crate::codecs::csv_proofs::fits_row;
use crate::codecs::csv_proofs::lemma_csv_round_trip;
use crate::codecs::dummy::DummyCodec;
use crate::codecs::encoding::lacks;
use crate::codecs::errors::parser_result_view;
use crate::codecs::errors::ParserError;
use crate::codecs::errors::ParserErrorView;
use crate::codecs::numbers::parse_i64;
use crate::codecs::numbers::parse_u64;
use crate::codecs::numbers::parsed_i64;
use crate::codecs::numbers::parsed_u64;
use crate::codecs::text::TextCodec;
use crate::codecs::text_proofs::lemma_text_round_trip;
use crate::codecs::traits::DataParser;
use crate::codecs::traits::DataWriter;
use crate::codecs::utils::chars_equal;
use crate::codecs::utils::chars_of;
use crate::codecs::utils::string_from_chars;
use crate::domain::tx::record_views;
use crate::domain::tx::AccountType;
use crate::domain::tx::TxIdType;
use crate::domain::tx::TxKind;
use crate::domain::tx::TxRecord;
use crate::domain::tx::TxRecordView;
use crate::domain::tx::TxStatus;
use crate::domain::tx::TxTimestamp;
use crate::errors::parse_outcome;
use crate::errors::AppError;
use crate::errors::AppErrorView;
use vstd::prelude::*;
use vstd::string::StringExecFns;

verus! {

/// Format enum providing both read and write capabilities.
#[derive(Clone, Copy, Debug, PartialEq, Eq, Structural)]
pub enum Format {
    /// Binary frame format.
    Binary,
    /// Key/value text format.
    Text,
    /// CSV format.
    Csv,
    /// Dummy format used for no-op behavior.
    Dummy,
}

impl Format {
    /// What the bytes of a whole stream parse to in this format.
    pub open spec fn parsed(self, bytes: Seq<u8>) -> Result<Seq<TxRecordView>, AppErrorView> {
        match self {
            Format::Binary => (BinaryCodec {  }).parsed(bytes),
            Format::Text => TextCodec.parsed(bytes),
            Format::Csv => CsvCodec.parsed(bytes),
            Format::Dummy => (DummyCodec {  }).parsed(bytes),
        }
    }

    /// The bytes that stand for the records in this format.
    pub open spec fn written(self, records: Seq<TxRecordView>) -> Seq<u8> {
        match self {
            Format::Binary => (BinaryCodec {  }).written(records),
            Format::Text => TextCodec.written(records),
            Format::Csv => CsvCodec.written(records),
            Format::Dummy => (DummyCodec {  }).written(records),
        }
    }

    /// The name of the format.
    pub open spec fn name(self) -> Seq<char> {
        match self {
            Format::Binary => "binary"@,
            Format::Text => "text"@,
            Format::Csv => "csv"@,
            Format::Dummy => "nope"@,
        }
    }

    /// Parses records from the bytes of an input stream using selected codec.
    pub fn parse(&self, r: &[u8]) -> (res: Result<Vec<TxRecord>, AppError>)
        ensures
            parse_outcome(res) == self.parsed(r@),
    {
        match self {
            Format::Binary => (BinaryCodec {  }).parse(r),
            Format::Text => TextCodec.parse(r),
            Format::Csv => CsvCodec.parse(r),
            Format::Dummy => (DummyCodec {  }).parse(r),
        }
    }

    /// Writes records to the end of an output buffer using selected codec.
    pub fn write(&self, w: &mut Vec<u8>, data: &[TxRecord]) -> (res: Result<(), AppError>)
        ensures
            res is Ok,
            final(w)@ == old(w)@ + self.written(record_views(data@)),
    {
        match self {
            Format::Binary => (BinaryCodec {  }).write(w, data),
            Format::Text => TextCodec.write(w, data),
            Format::Csv => CsvCodec.write(w, data),
            Format::Dummy => (DummyCodec {  }).write(w, data),
        }
    }

    /// The name of the format.
    pub fn to_string(&self) -> (s: String)
        ensures
            s@ == self.name(),
    {
        match self {
            Format::Binary => String::from_str("binary"),
            Format::Text => String::from_str("text"),
            Format::Csv => String::from_str("csv"),
            Format::Dummy => String::from_str("nope"),
        }
    }
}

/// Whether `record` can be written in `format` and read back. A binary frame must be
/// able to state its length in 32 bits. A text record's description must hold no newline,
/// which would end its line. A CSV row's description must hold neither a newline nor a
/// comma, which would split the row. The dummy format keeps no record.
pub open spec fn survives(format: Format, record: TxRecordView) -> bool {
    match format {
        Format::Binary => fits_frame(record),
        Format::Text => lacks(record.description, '\n'),
        Format::Csv => fits_row(record),
        Format::Dummy => false,
    }
}

/// Round trip: parsing what was written for a sequence of records gives the same records,
/// field for field and in the same order, in each format and for all records that the
/// format can hold.
pub proof fn lemma_round_trip(format: Format, records: Seq<TxRecordView>)
    requires
        forall|i: int| 0 <= i < records.len() ==> survives(format, #[trigger] records[i]),
    ensures
        format.parsed(format.written(records)) == Ok::<Seq<TxRecordView>, AppErrorView>(records),
{
    match format {
        Format::Binary => {
            lemma_frames_round_trip(records, 0);
        },
        Format::Text => {
            lemma_text_round_trip(records, 0, Seq::empty());
        },
        Format::Csv => {
            lemma_csv_round_trip(records);
        },
        Format::Dummy => {
            if records.len() > 0 {
                assert(survives(format, records[0]));
            }
            assert(records =~= Seq::<TxRecordView>::empty());
        },
    }
}

/// The codecs that read and write real formats.
#[derive(Clone, Copy, Debug, PartialEq, Eq, Structural)]
pub enum Codec {
    /// Codec of the binary frame format.
    BinaryCodec,
    /// Codec of the key/value text format.
    TextCodec,
    /// Codec of the CSV format.
    CsvCodec,
}

impl Codec {
    /// The format that the codec reads and writes.
    pub open spec fn format(self) -> Format {
        match self {
            Codec::BinaryCodec => Format::Binary,
            Codec::TextCodec => Format::Text,
            Codec::CsvCodec => Format::Csv,
        }
    }

    /// Parses records from the bytes of an input stream.
    pub fn parse(&self, r: &[u8]) -> (res: Result<Vec<TxRecord>, AppError>)
        ensures
            parse_outcome(res) == self.format().parsed(r@),
    {
        match self {
            Codec::BinaryCodec => (BinaryCodec {  }).parse(r),
            Codec::TextCodec => TextCodec.parse(r),
            Codec::CsvCodec => CsvCodec.parse(r),
        }
    }

    /// Writes records to the end of an output buffer.
    pub fn write(&self, w: &mut Vec<u8>, data: &[TxRecord]) -> (res: Result<(), AppError>)
        ensures
            res is Ok,
            final(w)@ == old(w)@ + self.format().written(record_views(data@)),
    {
        match self {
            Codec::BinaryCodec => (BinaryCodec {  }).write(w, data),
            Codec::TextCodec => TextCodec.write(w, data),
            Codec::CsvCodec => CsvCodec.write(w, data),
        }
    }
}

/// Whether `c` is an upper-case letter or an underscore: the characters of field names and tokens.
pub open spec fn is_name_char(c: char) -> bool {
    0x41 <= c as u32 <= 0x5A || c as u32 == 0x5F
}

/// Whether `text` is one or more upper-case letters and underscores.
pub open spec fn is_name(text: Seq<char>) -> bool {
    text.len() > 0 && forall|i: int| 0 <= i < text.len() ==> is_name_char(#[trigger] text[i])
}

/// The eight named attributes of a record.
#[derive(Debug, PartialEq, Eq, Clone, Copy, Structural)]
pub enum TxFieldKey {
    Id,
    TxKind,
    FromUserId,
    ToUserId,
    Amount,
    Timestamp,
    Status,
    Description,
}

impl TxFieldKey {
    /// The name of the field in the text format and in the CSV header.
    pub open spec fn token(self) -> Seq<char> {
        match self {
            TxFieldKey::Id => "TX_ID"@,
            TxFieldKey::TxKind => "TX_TYPE"@,
            TxFieldKey::FromUserId => "FROM_USER_ID"@,
            TxFieldKey::ToUserId => "TO_USER_ID"@,
            TxFieldKey::Amount => "AMOUNT"@,
            TxFieldKey::Timestamp => "TIMESTAMP"@,
            TxFieldKey::Status => "STATUS"@,
            TxFieldKey::Description => "DESCRIPTION"@,
        }
    }

    /// The field that `name` is the name of, if any; the match is exact.
    pub open spec fn of_token(name: Seq<char>) -> Option<TxFieldKey> {
        if name == "TX_ID"@ {
            Some(TxFieldKey::Id)
        } else if name == "TX_TYPE"@ {
            Some(TxFieldKey::TxKind)
        } else if name == "FROM_USER_ID"@ {
            Some(TxFieldKey::FromUserId)
        } else if name == "TO_USER_ID"@ {
            Some(TxFieldKey::ToUserId)
        } else if name == "AMOUNT"@ {
            Some(TxFieldKey::Amount)
        } else if name == "TIMESTAMP"@ {
            Some(TxFieldKey::Timestamp)
        } else if name == "STATUS"@ {
            Some(TxFieldKey::Status)
        } else if name == "DESCRIPTION"@ {
            Some(TxFieldKey::Description)
        } else {
            None
        }
    }

    /// The field named by `name`, or `UnparsableKey` with the name that was found.
    pub open spec fn parsed(name: Seq<char>) -> Result<TxFieldKey, ParserErrorView> {
        match Self::of_token(name) {
            Some(key) => Ok(key),
            None => Err(ParserErrorView::UnparsableKey(name)),
        }
    }

    /// The name of the field.
    pub fn as_str(&self) -> (s: &'static str)
        ensures
            s@ == self.token(),
    {
        match self {
            TxFieldKey::Id => "TX_ID",
            TxFieldKey::TxKind => "TX_TYPE",
            TxFieldKey::FromUserId => "FROM_USER_ID",
            TxFieldKey::ToUserId => "TO_USER_ID",
            TxFieldKey::Amount => "AMOUNT",
            TxFieldKey::Timestamp => "TIMESTAMP",
            TxFieldKey::Status => "STATUS",
            TxFieldKey::Description => "DESCRIPTION",
        }
    }

    /// The name of the field, as a string.
    pub fn to_string(&self) -> (s: String)
        ensures
            s@ == self.token(),
    {
        String::from_str(self.as_str())
    }

    /// Reads a field name.
    pub fn from_str(s: &str) -> (r: Result<TxFieldKey, ParserError>)
        ensures
            parser_result_view(r) == Self::parsed(s@),
    {
        let text = chars_of(s);
        Self::from_chars(text.as_slice())
    }

    /// Reads a field name from its characters.
    pub fn from_chars(name: &[char]) -> (r: Result<TxFieldKey, ParserError>)
        ensures
            parser_result_view(r) == Self::parsed(name@),
    {
        if chars_equal(name, "TX_ID") {
            Ok(TxFieldKey::Id)
        } else if chars_equal(name, "TX_TYPE") {
            Ok(TxFieldKey::TxKind)
        } else if chars_equal(name, "FROM_USER_ID") {
            Ok(TxFieldKey::FromUserId)
        } else if chars_equal(name, "TO_USER_ID") {
            Ok(TxFieldKey::ToUserId)
        } else if chars_equal(name, "AMOUNT") {
            Ok(TxFieldKey::Amount)
        } else if chars_equal(name, "TIMESTAMP") {
            Ok(TxFieldKey::Timestamp)
        } else if chars_equal(name, "STATUS") {
            Ok(TxFieldKey::Status)
        } else if chars_equal(name, "DESCRIPTION") {
            Ok(TxFieldKey::Description)
        } else {
            Err(ParserError::UnparsableKey(string_from_chars(name)))
        }
    }

    /// The name of a field is upper-case letters and underscores.
    pub proof fn lemma_token_is_name(self)
        ensures
            is_name(self.token()),
    {
        reveal_strlit("TX_ID");
        reveal_strlit("TX_TYPE");
        reveal_strlit("FROM_USER_ID");
        reveal_strlit("TO_USER_ID");
        reveal_strlit("AMOUNT");
        reveal_strlit("TIMESTAMP");
        reveal_strlit("STATUS");
        reveal_strlit("DESCRIPTION");
    }

    /// Every field is found again by its own name.
    pub proof fn lemma_token_round_trip(self)
        ensures
            Self::of_token(self.token()) == Some(self),
    {
        reveal_strlit("TX_ID");
        reveal_strlit("TX_TYPE");
        reveal_strlit("FROM_USER_ID");
        reveal_strlit("TO_USER_ID");
        reveal_strlit("AMOUNT");
        reveal_strlit("TIMESTAMP");
        reveal_strlit("STATUS");
        reveal_strlit("DESCRIPTION");
        assert("TX_ID"@.len() == 5 && "TX_TYPE"@.len() == 7 && "FROM_USER_ID"@.len() == 12);
        assert("TO_USER_ID"@.len() == 10 && "TIMESTAMP"@.len() == 9 && "DESCRIPTION"@.len() == 11);
        assert("AMOUNT"@.len() == 6 && "AMOUNT"@[0] == 'A');
        assert("STATUS"@.len() == 6 && "STATUS"@[0] == 'S');
    }
}

/// The unsigned number that a field's text stands for, or `UnparsableValue` with the reason.
pub open spec fn u64_field(text: Seq<char>) -> Result<u64, ParserErrorView> {
    match parsed_u64(text) {
        Ok(value) => Ok(value),
        Err(fault) => Err(ParserErrorView::UnparsableValue(fault.message())),
    }
}

/// The signed number that a field's text stands for, or `UnparsableValue` with the reason.
pub open spec fn i64_field(text: Seq<char>) -> Result<i64, ParserErrorView> {
    match parsed_i64(text) {
        Ok(value) => Ok(value),
        Err(fault) => Err(ParserErrorView::UnparsableValue(fault.message())),
    }
}

/// Reads the text of an unsigned numeric field.
pub fn parse_u64_field(text: &[char]) -> (r: Result<u64, ParserError>)
    ensures
        parser_result_view(r) == u64_field(text@),
{
    match parse_u64(text) {
        Ok(value) => Ok(value),
        Err(fault) => Err(ParserError::from_number_fault(fault)),
    }
}

/// Reads the text of a signed numeric field.
pub fn parse_i64_field(text: &[char]) -> (r: Result<i64, ParserError>)
    ensures
        parser_result_view(r) == i64_field(text@),
{
    match parse_i64(text) {
        Ok(value) => Ok(value),
        Err(fault) => Err(ParserError::from_number_fault(fault)),
    }
}

impl TxIdType {
    /// Reads a transaction id from its decimal form.
    pub fn from_str(s: &str) -> (r: Result<TxIdType, ParserError>)
        ensures
            match r {
                Ok(id) => u64_field(s@) == Ok::<u64, ParserErrorView>(id.0),
                Err(e) => u64_field(s@) == Err::<u64, ParserErrorView>(e@),
            },
    {
        let text = chars_of(s);
        Self::from_chars(text.as_slice())
    }

    /// Reads a transaction id from the characters of its decimal form.
    pub fn from_chars(text: &[char]) -> (r: Result<TxIdType, ParserError>)
        ensures
            match r {
                Ok(id) => u64_field(text@) == Ok::<u64, ParserErrorView>(id.0),
                Err(e) => u64_field(text@) == Err::<u64, ParserErrorView>(e@),
            },
    {
        match parse_u64_field(text) {
            Ok(value) => Ok(TxIdType(value)),
            Err(e) => Err(e),
        }
    }
}

impl AccountType {
    /// Reads an account id from its decimal form.
    pub fn from_str(s: &str) -> (r: Result<AccountType, ParserError>)
        ensures
            match r {
                Ok(account) => u64_field(s@) == Ok::<u64, ParserErrorView>(account.0),
                Err(e) => u64_field(s@) == Err::<u64, ParserErrorView>(e@),
            },
    {
        let text = chars_of(s);
        Self::from_chars(text.as_slice())
    }

    /// Reads an account id from the characters of its decimal form.
    pub fn from_chars(text: &[char]) -> (r: Result<AccountType, ParserError>)
        ensures
            match r {
                Ok(account) => u64_field(text@) == Ok::<u64, ParserErrorView>(account.0),
                Err(e) => u64_field(text@) == Err::<u64, ParserErrorView>(e@),
            },
    {
        match parse_u64_field(text) {
            Ok(value) => Ok(AccountType(value)),
            Err(e) => Err(e),
        }
    }
}

impl TxTimestamp {
    /// Reads a timestamp from the decimal form of its milliseconds.
    pub fn from_str(s: &str) -> (r: Result<TxTimestamp, ParserError>)
        ensures
            match r {
                Ok(ts) => u64_field(s@) == Ok::<u64, ParserErrorView>(ts.0),
                Err(e) => u64_field(s@) == Err::<u64, ParserErrorView>(e@),
            },
    {
        let text = chars_of(s);
        Self::from_chars(text.as_slice())
    }

    /// Reads a timestamp from the characters of the decimal form of its milliseconds.
    pub fn from_chars(text: &[char]) -> (r: Result<TxTimestamp, ParserError>)
        ensures
            match r {
                Ok(ts) => u64_field(text@) == Ok::<u64, ParserErrorView>(ts.0),
                Err(e) => u64_field(text@) == Err::<u64, ParserErrorView>(e@),
            },
    {
        match parse_u64_field(text) {
            Ok(value) => Ok(TxTimestamp(value)),
            Err(e) => Err(e),
        }
    }
}

impl TxKind {
    /// The kind that `token` names, if any; the match is exact.
    pub open spec fn of_token(token: Seq<char>) -> Option<TxKind> {
        if token == "DEPOSIT"@ {
            Some(TxKind::Deposit)
        } else if token == "TRANSFER"@ {
            Some(TxKind::Transfer)
        } else if token == "WITHDRAWAL"@ {
            Some(TxKind::Withdrawal)
        } else {
            None
        }
    }

    /// The kind named by `token`, or `UnparsableValue` with the text that was found.
    pub open spec fn parsed(token: Seq<char>) -> Result<TxKind, ParserErrorView> {
        match Self::of_token(token) {
            Some(kind) => Ok(kind),
            None => Err(ParserErrorView::UnparsableValue(token)),
        }
    }

    /// Reads a kind from its token.
    pub fn from_str(s: &str) -> (r: Result<TxKind, ParserError>)
        ensures
            parser_result_view(r) == Self::parsed(s@),
    {
        let text = chars_of(s);
        Self::from_chars(text.as_slice())
    }

    /// Reads a kind from the characters of its token.
    pub fn from_chars(token: &[char]) -> (r: Result<TxKind, ParserError>)
        ensures
            parser_result_view(r) == Self::parsed(token@),
    {
        if chars_equal(token, "DEPOSIT") {
            Ok(TxKind::Deposit)
        } else if chars_equal(token, "TRANSFER") {
            Ok(TxKind::Transfer)
        } else if chars_equal(token, "WITHDRAWAL") {
            Ok(TxKind::Withdrawal)
        } else {
            Err(ParserError::UnparsableValue(string_from_chars(token)))
        }
    }

    /// The token of a kind is upper-case letters.
    pub proof fn lemma_token_is_name(self)
        ensures
            is_name(self.token()),
    {
        reveal_strlit("DEPOSIT");
        reveal_strlit("TRANSFER");
        reveal_strlit("WITHDRAWAL");
    }

    /// Every kind is found again by its own token.
    pub proof fn lemma_token_round_trip(self)
        ensures
            Self::of_token(self.token()) == Some(self),
    {
        reveal_strlit("DEPOSIT");
        reveal_strlit("TRANSFER");
        reveal_strlit("WITHDRAWAL");
        assert("DEPOSIT"@.len() == 7 && "TRANSFER"@.len() == 8 && "WITHDRAWAL"@.len() == 10);
    }
}

impl TxStatus {
    /// The status that `token` names, if any; the match is exact.
    pub open spec fn of_token(token: Seq<char>) -> Option<TxStatus> {
        if token == "SUCCESS"@ {
            Some(TxStatus::Success)
        } else if token == "FAILURE"@ {
            Some(TxStatus::Failure)
        } else if token == "PENDING"@ {
            Some(TxStatus::Pending)
        } else {
            None
        }
    }

    /// The status named by `token`, or `UnparsableValue` with the text that was found.
    pub open spec fn parsed(token: Seq<char>) -> Result<TxStatus, ParserErrorView> {
        match Self::of_token(token) {
            Some(status) => Ok(status),
            None => Err(ParserErrorView::UnparsableValue(token)),
        }
    }

    /// Reads a status from its token.
    pub fn from_str(s: &str) -> (r: Result<TxStatus, ParserError>)
        ensures
            parser_result_view(r) == Self::parsed(s@),
    {
        let text = chars_of(s);
        Self::from_chars(text.as_slice())
    }

    /// Reads a status from the characters of its token.
    pub fn from_chars(token: &[char]) -> (r: Result<TxStatus, ParserError>)
        ensures
            parser_result_view(r) == Self::parsed(token@),
    {
        if chars_equal(token, "SUCCESS") {
            Ok(TxStatus::Success)
        } else if chars_equal(token, "FAILURE") {
            Ok(TxStatus::Failure)
        } else if chars_equal(token, "PENDING") {
            Ok(TxStatus::Pending)
        } else {
            Err(ParserError::UnparsableValue(string_from_chars(token)))
        }
    }

    /// The token of a status is upper-case letters.
    pub proof fn lemma_token_is_name(self)
        ensures
            is_name(self.token()),
    {
        reveal_strlit("SUCCESS");
        reveal_strlit("FAILURE");
        reveal_strlit("PENDING");
    }

    /// Every status is found again by its own token.
    pub proof fn lemma_token_round_trip(self)
        ensures
            Self::of_token(self.token()) == Some(self),
    {
        reveal_strlit("SUCCESS");
        reveal_strlit("FAILURE");
        reveal_strlit("PENDING");
        assert("SUCCESS"@.len() == 7 && "SUCCESS"@[0] == 'S');
        assert("FAILURE"@.len() == 7 && "FAILURE"@[0] == 'F');
        assert("PENDING"@.len() == 7 && "PENDING"@[0] == 'P');
    }
}

} // verus!
