use crate::codecs::base::i64_field;
use crate::codecs::base::parse_i64_field;
use crate::codecs::base::u64_field;
use crate::codecs::base::TxFieldKey;
use crate::codecs::errors::add_parser_ctx;
use crate::codecs::errors::ParserContext;
use crate::codecs::errors::ParserError;
use crate::codecs::errors::ParserErrorView;
use crate::codecs::lines::line_content;
use crate::codecs::lines::line_error;
use crate::codecs::lines::line_span;
use crate::codecs::lines::not_text;
use crate::codecs::lines::read_line;
use crate::codecs::lines::NEWLINE;
use crate::codecs::numbers::decimal;
use crate::codecs::numbers::i64_to_string;
use crate::codecs::numbers::signed_decimal;
use crate::codecs::traits::DataParser;
use crate::codecs::traits::DataWriter;
use crate::codecs::utils::find_char;
use crate::codecs::utils::index_of;
use crate::codecs::utils::lemma_index_of;
use crate::codecs::utils::quoted;
use crate::codecs::utils::string_from_chars;
use crate::codecs::utils::trim;
use crate::codecs::utils::unquote;
use crate::codecs::utils::trimmed;
use crate::codecs::utils::unquoted;
use crate::domain::tx::record_views;
use crate::domain::tx::AccountType;
use crate::domain::tx::TxIdType;
use crate::domain::tx::TxKind;
use crate::domain::tx::TxRecord;
use crate::domain::tx::TxRecordView;
use crate::domain::tx::TxStatus;
use crate::domain::tx::TxTimestamp;
use crate::errors::prepend_records;
use crate::errors::AppError;
use crate::errors::AppErrorView;
use vstd::prelude::*;
use vstd::slice::slice_subrange;
use vstd::string::StringExecFns;
use vstd::utf8::decode_utf8;
use vstd::utf8::encode_utf8;
use vstd::utf8::valid_utf8;

verus! {

/// The character between a field's key and its value.
pub const FIELD_KV_DELIMITER: char = ':';

/// The character that makes a line a comment when it comes first.
pub const COMMENT_SYMBOL_1LINE: char = '#';

/// Collects the fields of one record of the text format, each at most once.
pub struct RecordBuilder {
    /// Whether a field was given since the builder was made.
    pub is_dirty: bool,
    pub id: Option<TxIdType>,
    pub kind: Option<TxKind>,
    pub from: Option<AccountType>,
    pub to: Option<AccountType>,
    pub amount: Option<i64>,
    pub ts: Option<TxTimestamp>,
    pub status: Option<TxStatus>,
    pub description: Option<String>,
}

/// The mathematical value of a [`RecordBuilder`].
pub struct RecordBuilderView {
    pub is_dirty: bool,
    pub id: Option<u64>,
    pub kind: Option<TxKind>,
    pub from: Option<u64>,
    pub to: Option<u64>,
    pub amount: Option<i64>,
    pub ts: Option<u64>,
    pub status: Option<TxStatus>,
    pub description: Option<Seq<char>>,
}

impl View for RecordBuilder {
    type V = RecordBuilderView;

    open spec fn view(&self) -> RecordBuilderView {
        RecordBuilderView {
            is_dirty: self.is_dirty,
            id: match self.id {
                Some(id) => Some(id.0),
                None => None,
            },
            kind: self.kind,
            from: match self.from {
                Some(account) => Some(account.0),
                None => None,
            },
            to: match self.to {
                Some(account) => Some(account.0),
                None => None,
            },
            amount: self.amount,
            ts: match self.ts {
                Some(ts) => Some(ts.0),
                None => None,
            },
            status: self.status,
            description: match self.description {
                Some(text) => Some(text@),
                None => None,
            },
        }
    }
}

impl RecordBuilderView {
    /// The builder that holds no field.
    pub open spec fn empty() -> Self {
        RecordBuilderView {
            is_dirty: false,
            id: None,
            kind: None,
            from: None,
            to: None,
            amount: None,
            ts: None,
            status: None,
            description: None,
        }
    }

    /// Whether the builder holds the field.
    pub open spec fn has(self, key: TxFieldKey) -> bool {
        match key {
            TxFieldKey::Id => self.id is Some,
            TxFieldKey::TxKind => self.kind is Some,
            TxFieldKey::FromUserId => self.from is Some,
            TxFieldKey::ToUserId => self.to is Some,
            TxFieldKey::Amount => self.amount is Some,
            TxFieldKey::Timestamp => self.ts is Some,
            TxFieldKey::Status => self.status is Some,
            TxFieldKey::Description => self.description is Some,
        }
    }

    /// The builder with its flag set.
    pub open spec fn marked_dirty(self) -> Self {
        RecordBuilderView { is_dirty: true, ..self }
    }

    /// The builder after the field `key` was given as `value`: `Duplicate` when it holds the
    /// field already, else the error of the value's own parser, else the builder with the
    /// field and the flag set.
    pub open spec fn with_field(self, key: TxFieldKey, value: Seq<char>) -> Result<
        Self,
        ParserErrorView,
    > {
        if self.has(key) {
            Err(ParserErrorView::Duplicate(key))
        } else {
            match key {
                TxFieldKey::Id => match u64_field(value) {
                    Ok(id) => Ok(RecordBuilderView { is_dirty: true, id: Some(id), ..self }),
                    Err(e) => Err(e),
                },
                TxFieldKey::TxKind => match TxKind::parsed(value) {
                    Ok(kind) => Ok(RecordBuilderView { is_dirty: true, kind: Some(kind), ..self }),
                    Err(e) => Err(e),
                },
                TxFieldKey::FromUserId => match u64_field(value) {
                    Ok(from) => Ok(RecordBuilderView { is_dirty: true, from: Some(from), ..self }),
                    Err(e) => Err(e),
                },
                TxFieldKey::ToUserId => match u64_field(value) {
                    Ok(to) => Ok(RecordBuilderView { is_dirty: true, to: Some(to), ..self }),
                    Err(e) => Err(e),
                },
                TxFieldKey::Amount => match i64_field(value) {
                    Ok(amount) => Ok(
                        RecordBuilderView { is_dirty: true, amount: Some(amount), ..self },
                    ),
                    Err(e) => Err(e),
                },
                TxFieldKey::Timestamp => match u64_field(value) {
                    Ok(ts) => Ok(RecordBuilderView { is_dirty: true, ts: Some(ts), ..self }),
                    Err(e) => Err(e),
                },
                TxFieldKey::Status => match TxStatus::parsed(value) {
                    Ok(status) => Ok(
                        RecordBuilderView { is_dirty: true, status: Some(status), ..self },
                    ),
                    Err(e) => Err(e),
                },
                TxFieldKey::Description => match unquoted(value) {
                    Some(text) => Ok(
                        RecordBuilderView { is_dirty: true, description: Some(text), ..self },
                    ),
                    None => Err(ParserErrorView::ShellBeQuoted(value)),
                },
            }
        }
    }

    /// The builder after a `KEY: value` line: the line is split at its first colon, and key
    /// and value are trimmed.
    pub open spec fn with_line(self, line: Seq<char>) -> Result<Self, ParserErrorView> {
        let at = index_of(line, FIELD_KV_DELIMITER);
        if at == line.len() {
            Err(ParserErrorView::NoFieldDelimiter)
        } else {
            match TxFieldKey::parsed(trimmed(line.take(at))) {
                Err(e) => Err(e),
                Ok(key) => self.with_field(key, trimmed(line.skip(at + 1))),
            }
        }
    }

    /// The first field, in the order id, kind, from, to, amount, timestamp, status,
    /// description, that the builder does not hold.
    pub open spec fn first_missing(self) -> Option<TxFieldKey> {
        if self.id is None {
            Some(TxFieldKey::Id)
        } else if self.kind is None {
            Some(TxFieldKey::TxKind)
        } else if self.from is None {
            Some(TxFieldKey::FromUserId)
        } else if self.to is None {
            Some(TxFieldKey::ToUserId)
        } else if self.amount is None {
            Some(TxFieldKey::Amount)
        } else if self.ts is None {
            Some(TxFieldKey::Timestamp)
        } else if self.status is None {
            Some(TxFieldKey::Status)
        } else if self.description is None {
            Some(TxFieldKey::Description)
        } else {
            None
        }
    }

    /// The record that the builder's fields make, or `MissingField` with the first field that is missing.
    pub open spec fn finalized(self) -> Result<TxRecordView, ParserErrorView> {
        match self.first_missing() {
            Some(key) => Err(ParserErrorView::MissingField(key)),
            None => Ok(
                TxRecordView {
                    id: self.id->0,
                    kind: self.kind->0,
                    from: self.from->0,
                    to: self.to->0,
                    amount: self.amount->0,
                    ts: self.ts->0,
                    status: self.status->0,
                    description: self.description->0,
                },
            ),
        }
    }

    /// The builder as `finalize` leaves it: the fields in front of the first missing one
    /// are taken out, the others and the flag stay.
    pub open spec fn drained(self) -> Self {
        let kind_reached = self.id is Some;
        let from_reached = kind_reached && self.kind is Some;
        let to_reached = from_reached && self.from is Some;
        let amount_reached = to_reached && self.to is Some;
        let ts_reached = amount_reached && self.amount is Some;
        let status_reached = ts_reached && self.ts is Some;
        let description_reached = status_reached && self.status is Some;
        RecordBuilderView {
            is_dirty: self.is_dirty,
            id: None,
            kind: if kind_reached {
                None
            } else {
                self.kind
            },
            from: if from_reached {
                None
            } else {
                self.from
            },
            to: if to_reached {
                None
            } else {
                self.to
            },
            amount: if amount_reached {
                None
            } else {
                self.amount
            },
            ts: if ts_reached {
                None
            } else {
                self.ts
            },
            status: if status_reached {
                None
            } else {
                self.status
            },
            description: if description_reached {
                None
            } else {
                self.description
            },
        }
    }
}

/// The outcome of assembling one record as a mathematical value.
pub open spec fn assembled_view(r: Result<TxRecord, ParserError>) -> Result<
    TxRecordView,
    ParserErrorView,
> {
    match r {
        Ok(record) => Ok(record@),
        Err(e) => Err(e@),
    }
}

impl RecordBuilder {
    /// A builder that holds no field.
    pub fn new() -> (builder: Self)
        ensures
            builder@ == RecordBuilderView::empty(),
    {
        Self {
            is_dirty: false,
            id: None,
            kind: None,
            from: None,
            to: None,
            amount: None,
            ts: None,
            status: None,
            description: None,
        }
    }

    /// Whether the builder holds the field.
    pub fn is_key_already_present(&self, field_key: &TxFieldKey) -> (present: bool)
        ensures
            present == self@.has(*field_key),
    {
        match field_key {
            TxFieldKey::Id => self.id.is_some(),
            TxFieldKey::TxKind => self.kind.is_some(),
            TxFieldKey::FromUserId => self.from.is_some(),
            TxFieldKey::ToUserId => self.to.is_some(),
            TxFieldKey::Amount => self.amount.is_some(),
            TxFieldKey::Timestamp => self.ts.is_some(),
            TxFieldKey::Status => self.status.is_some(),
            TxFieldKey::Description => self.description.is_some(),
        }
    }

    /// Gives the builder the field `field_key` with the value that `value` stands for. On
    /// `Duplicate` the builder stays as it was; on an error of the value only its flag is set.
    #[verifier::rlimit(50)]
    pub fn set_field_value(&mut self, field_key: TxFieldKey, value: &[char]) -> (res: Result<
        (),
        ParserError,
    >)
        ensures
            match res {
                Ok(()) => old(self)@.with_field(field_key, value@) == Ok::<
                    RecordBuilderView,
                    ParserErrorView,
                >(final(self)@),
                Err(e) => old(self)@.with_field(field_key, value@) == Err::<
                    RecordBuilderView,
                    ParserErrorView,
                >(e@),
            },
            res is Err ==> final(self)@ == if old(self)@.has(field_key) {
                old(self)@
            } else {
                old(self)@.marked_dirty()
            },
    {
        if self.is_key_already_present(&field_key) {
            return Err(ParserError::Duplicate(field_key));
        }
        self.is_dirty = true;
        match field_key {
            TxFieldKey::Id => {
                self.id = Some(TxIdType::from_chars(value)?);
            },
            TxFieldKey::TxKind => {
                self.kind = Some(TxKind::from_chars(value)?);
            },
            TxFieldKey::FromUserId => {
                self.from = Some(AccountType::from_chars(value)?);
            },
            TxFieldKey::ToUserId => {
                self.to = Some(AccountType::from_chars(value)?);
            },
            TxFieldKey::Amount => {
                self.amount = Some(parse_i64_field(value)?);
            },
            TxFieldKey::Timestamp => {
                self.ts = Some(TxTimestamp::from_chars(value)?);
            },
            TxFieldKey::Status => {
                self.status = Some(TxStatus::from_chars(value)?);
            },
            TxFieldKey::Description => {
                self.description = Some(string_from_chars(unquote(value)?));
            },
        };
        Ok(())
    }

    /// Reads a `KEY: value` line into the builder. On an error the builder stays as it was,
    /// or has only its flag set.
    #[verifier::rlimit(50)]
    pub fn parse_field_from_line(&mut self, line: &[char]) -> (res: Result<(), ParserError>)
        ensures
            match res {
                Ok(()) => old(self)@.with_line(line@) == Ok::<RecordBuilderView, ParserErrorView>(
                    final(self)@,
                ),
                Err(e) => old(self)@.with_line(line@) == Err::<RecordBuilderView, ParserErrorView>(
                    e@,
                ),
            },
            res is Err ==> final(self)@ == old(self)@ || final(self)@ == old(self)@.marked_dirty(),
    {
        let at = find_char(line, FIELD_KV_DELIMITER);
        if at == line.len() {
            return Err(ParserError::NoFieldDelimiter);
        }
        let key = trim(slice_subrange(line, 0, at));
        let value = trim(slice_subrange(line, at + 1, line.len()));
        proof {
            assert(line@.subrange(0, at as int) =~= line@.take(at as int));
            assert(line@.subrange(at + 1, line@.len() as int) =~= line@.skip(at + 1));
        }
        let field_key = TxFieldKey::from_chars(key)?;
        self.set_field_value(field_key, value)?;
        Ok(())
    }

    /// Takes the fields out of the builder in their fixed order and makes the record of
    /// them; stops at the first field that is missing.
    #[verifier::rlimit(50)]
    pub fn finalize(&mut self) -> (res: Result<TxRecord, ParserError>)
        ensures
            assembled_view(res) == old(self)@.finalized(),
            final(self)@ == old(self)@.drained(),
    {
        let id = match self.id.take() {
            Some(id) => id,
            None => {
                return Err(ParserError::MissingField(TxFieldKey::Id));
            },
        };
        let kind = match self.kind.take() {
            Some(kind) => kind,
            None => {
                return Err(ParserError::MissingField(TxFieldKey::TxKind));
            },
        };
        let from = match self.from.take() {
            Some(from) => from,
            None => {
                return Err(ParserError::MissingField(TxFieldKey::FromUserId));
            },
        };
        let to = match self.to.take() {
            Some(to) => to,
            None => {
                return Err(ParserError::MissingField(TxFieldKey::ToUserId));
            },
        };
        let amount = match self.amount.take() {
            Some(amount) => amount,
            None => {
                return Err(ParserError::MissingField(TxFieldKey::Amount));
            },
        };
        let ts = match self.ts.take() {
            Some(ts) => ts,
            None => {
                return Err(ParserError::MissingField(TxFieldKey::Timestamp));
            },
        };
        let status = match self.status.take() {
            Some(status) => status,
            None => {
                return Err(ParserError::MissingField(TxFieldKey::Status));
            },
        };
        let description = match self.description.take() {
            Some(description) => description,
            None => {
                return Err(ParserError::MissingField(TxFieldKey::Description));
            },
        };
        Ok(TxRecord { id, kind, from, to, amount, ts, status, description })
    }
}

/// What is left of a text stream parses to, given the number and the text of the line read
/// last and the builder of the record that is open.
///
/// The stream is read line by line. A line that is not UTF-8 is a read error. A line is
/// trimmed; one that starts with `#` is skipped; an empty one closes the open record if
/// the builder's flag is set, and starts a new builder in any case; every other line must
/// be a `KEY: value` line for the builder. At the end of the stream an open record is
/// closed. Errors carry the number and the untrimmed text of the line at which they arose.
pub open spec fn parsed_text(
    rest: Seq<u8>,
    line_num: nat,
    last_line: Seq<char>,
    builder: RecordBuilderView,
) -> Result<Seq<TxRecordView>, AppErrorView>
    decreases rest.len(),
    via parsed_text_decreases
{
    if rest.len() == 0 {
        if builder.is_dirty {
            match builder.finalized() {
                Ok(record) => Ok(seq![record]),
                Err(e) => Err(line_error(line_num, last_line, e)),
            }
        } else {
            Ok(Seq::empty())
        }
    } else if !valid_utf8(line_content(rest)) {
        Err(not_text())
    } else {
        let raw = decode_utf8(line_content(rest));
        let line = trimmed(raw);
        let next = rest.skip(line_span(rest));
        let num = line_num + 1;
        if line.len() > 0 && line[0] == COMMENT_SYMBOL_1LINE {
            parsed_text(next, num, raw, builder)
        } else if line.len() == 0 {
            if builder.is_dirty {
                match builder.finalized() {
                    Ok(record) => prepend_records(
                        seq![record],
                        parsed_text(next, num, raw, RecordBuilderView::empty()),
                    ),
                    Err(e) => Err(line_error(num, raw, e)),
                }
            } else {
                parsed_text(next, num, raw, RecordBuilderView::empty())
            }
        } else {
            match builder.with_line(line) {
                Ok(filled) => parsed_text(next, num, raw, filled),
                Err(e) => Err(line_error(num, raw, e)),
            }
        }
    }
}

#[via_fn]
proof fn parsed_text_decreases(
    rest: Seq<u8>,
    line_num: nat,
    last_line: Seq<char>,
    builder: RecordBuilderView,
) {
    lemma_index_of(rest, NEWLINE);
}

/// The characters of a `KEY: value` line.
pub open spec fn text_line(key: TxFieldKey, value: Seq<char>) -> Seq<char> {
    key.token() + ": "@ + value
}

/// The bytes of a `KEY: value` line, newline included.
pub open spec fn text_line_bytes(key: TxFieldKey, value: Seq<char>) -> Seq<u8> {
    encode_utf8(text_line(key, value)).push(NEWLINE)
}

/// The eight lines of a record, in the fixed order of the fields.
pub open spec fn text_fields_bytes(record: TxRecordView) -> Seq<u8> {
    text_line_bytes(TxFieldKey::Id, decimal(record.id as nat)) + text_line_bytes(
        TxFieldKey::TxKind,
        record.kind.token(),
    ) + text_line_bytes(TxFieldKey::FromUserId, decimal(record.from as nat)) + text_line_bytes(
        TxFieldKey::ToUserId,
        decimal(record.to as nat),
    ) + text_line_bytes(TxFieldKey::Amount, signed_decimal(record.amount as int))
        + text_line_bytes(TxFieldKey::Timestamp, decimal(record.ts as nat)) + text_line_bytes(
        TxFieldKey::Status,
        record.status.token(),
    ) + text_line_bytes(TxFieldKey::Description, quoted(record.description))
}

/// The lines of a record and the empty line that closes it.
pub open spec fn text_record_bytes(record: TxRecordView) -> Seq<u8> {
    text_fields_bytes(record).push(NEWLINE)
}

/// The text of the records, one after the other.
pub open spec fn text_bytes(records: Seq<TxRecordView>) -> Seq<u8>
    decreases records.len(),
{
    if records.len() == 0 {
        Seq::empty()
    } else {
        text_bytes(records.drop_last()) + text_record_bytes(records.last())
    }
}

/// Codec of the key/value text format.
#[derive(Default)]
pub struct TextCodec;

impl TextCodec {
    /// Appends the line `KEY: value` for a field.
    pub fn write_kv_pair(&self, w: &mut Vec<u8>, field_key: TxFieldKey, field_value: &str) -> (res:
        Result<(), AppError>)
        ensures
            res is Ok,
            final(w)@ == old(w)@ + text_line_bytes(field_key, field_value@),
    {
        let mut line = field_key.to_string();
        line.append(": ");
        line.append(field_value);
        w.extend_from_slice(line.as_str().as_bytes());
        w.push(NEWLINE);
        proof {
            assert(w@ =~= old(w)@ + text_line_bytes(field_key, field_value@));
        }
        Ok(())
    }

    /// Appends the eight lines of a record.
    #[verifier::rlimit(50)]
    pub fn write_single_record(&self, w: &mut Vec<u8>, tx: &TxRecord) -> (res: Result<
        (),
        AppError,
    >)
        ensures
            res is Ok,
            final(w)@ == old(w)@ + text_fields_bytes(tx@),
    {
        self.write_kv_pair(w, TxFieldKey::Id, tx.id.to_string().as_str())?;
        self.write_kv_pair(w, TxFieldKey::TxKind, tx.kind.as_str())?;
        self.write_kv_pair(w, TxFieldKey::FromUserId, tx.from.to_string().as_str())?;
        self.write_kv_pair(w, TxFieldKey::ToUserId, tx.to.to_string().as_str())?;
        self.write_kv_pair(w, TxFieldKey::Amount, i64_to_string(tx.amount).as_str())?;
        self.write_kv_pair(w, TxFieldKey::Timestamp, tx.ts.to_string().as_str())?;
        self.write_kv_pair(w, TxFieldKey::Status, tx.status.as_str())?;
        self.write_kv_pair(w, TxFieldKey::Description, quote(tx.description.as_str()).as_str())?;
        proof {
            assert(w@ =~= old(w)@ + text_fields_bytes(tx@));
        }
        Ok(())
    }
}

/// Puts a text between double quotes.
pub fn quote(text: &str) -> (s: String)
    ensures
        s@ == quoted(text@),
{
    let mut s = String::from_str("\"");
    s.append(text);
    s.append("\"");
    proof {
        reveal_strlit("\"");
        assert("\""@ =~= seq!['"']);
        assert(s@ =~= quoted(text@));
    }
    s
}

impl DataParser for TextCodec {
    open spec fn parsed(&self, bytes: Seq<u8>) -> Result<Seq<TxRecordView>, AppErrorView> {
        parsed_text(bytes, 0, Seq::empty(), RecordBuilderView::empty())
    }

    #[verifier::rlimit(50)]
    fn parse(&self, r: &[u8]) -> (res: Result<Vec<TxRecord>, AppError>) {
        let mut result: Vec<TxRecord> = Vec::new();
        let mut record_builder = RecordBuilder::new();
        let mut line_num: usize = 0;
        let mut input_line: String = String::new();
        let mut pos: usize = 0;
        let n: usize = r.len();
        let ghost whole = self.parsed(r@);
        proof {
            assert(r@.skip(0) =~= r@);
            assert(record_views(result@) =~= Seq::<TxRecordView>::empty());
            match whole {
                Ok(records) => {
                    assert(Seq::<TxRecordView>::empty() + records =~= records);
                },
                Err(_) => {},
            }
        }
        while pos < n
            invariant
                pos <= n == r@.len(),
                line_num <= pos,
                whole == self.parsed(r@),
                whole == prepend_records(
                    record_views(result@),
                    parsed_text(r@.skip(pos as int), line_num as nat, input_line@, record_builder@),
                ),
            decreases n - pos,
        {
            let ghost rest = r@.skip(pos as int);
            let ghost done = record_views(result@);
            let line = read_line(r, pos)?;
            proof {
                assert(rest.skip(line_span(rest)) =~= r@.skip(line.next as int));
            }
            line_num += 1;
            pos = line.next;
            input_line = line.text;
            let content = trim(line.chars.as_slice());
            if content.len() > 0 && content[0] == COMMENT_SYMBOL_1LINE {
            } else if content.len() == 0 {
                if record_builder.is_dirty {
                    let record = add_parser_ctx(
                        record_builder.finalize(),
                        ParserContext::with_line_number_and_line(line_num, input_line.clone()),
                    )?;
                    proof {
                        assert(record_views(result@.push(record)) =~= done + seq![record@]);
                        match parsed_text(
                            r@.skip(pos as int),
                            line_num as nat,
                            input_line@,
                            RecordBuilderView::empty(),
                        ) {
                            Ok(more) => {
                                assert(done + (seq![record@] + more) =~= (done + seq![record@])
                                    + more);
                            },
                            Err(_) => {},
                        }
                    }
                    result.push(record);
                }
                record_builder = RecordBuilder::new();
            } else {
                add_parser_ctx(
                    record_builder.parse_field_from_line(content),
                    ParserContext::with_line_number_and_line(line_num, input_line.clone()),
                )?;
            }
        }
        if record_builder.is_dirty {
            let record = add_parser_ctx(
                record_builder.finalize(),
                ParserContext::with_line_number_and_line(line_num, input_line.clone()),
            )?;
            proof {
                assert(record_views(result@.push(record)) =~= record_views(result@) + seq![
                    record@,
                ]);
            }
            result.push(record);
        } else {
            proof {
                assert(record_views(result@) + Seq::<TxRecordView>::empty() =~= record_views(
                    result@,
                ));
            }
        }
        Ok(result)
    }
}

impl DataWriter for TextCodec {
    open spec fn written(&self, records: Seq<TxRecordView>) -> Seq<u8> {
        text_bytes(records)
    }

    fn write(&self, w: &mut Vec<u8>, data: &[TxRecord]) -> (res: Result<(), AppError>) {
        let mut i: usize = 0;
        proof {
            assert(w@ =~= old(w)@ + text_bytes(record_views(data@.take(0))));
        }
        while i < data.len()
            invariant
                i <= data@.len(),
                w@ == old(w)@ + text_bytes(record_views(data@.take(i as int))),
            decreases data@.len() - i,
        {
            self.write_single_record(w, &data[i])?;
            w.push(NEWLINE);
            proof {
                let next = record_views(data@.take(i + 1));
                assert(next.drop_last() =~= record_views(data@.take(i as int)));
                assert(next.last() == data@[i as int]@);
                assert(w@ =~= old(w)@ + text_bytes(next));
            }
            i += 1;
        }
        proof {
            assert(data@.take(data@.len() as int) =~= data@);
        }
        Ok(())
    }
}

} // verus!
