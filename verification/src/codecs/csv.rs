use crate::codecs::base::i64_field;
use crate::codecs::base::parse_i64_field;
use crate::codecs::base::u64_field;
use crate::codecs::errors::add_parser_ctx;
use crate::codecs::errors::ParserContext;
use crate::codecs::errors::ParserError;
use crate::codecs::errors::ParserErrorView;
use crate::codecs::lines::line_content;
use crate::codecs::lines::line_error;
use crate::codecs::lines::line_span;
use crate::codecs::lines::not_text;
use crate::codecs::lines::read_line;
use crate::codecs::lines::NEWLINE;
use crate::codecs::numbers::append_i64;
use crate::codecs::numbers::append_u64;
use crate::codecs::numbers::decimal;
use crate::codecs::numbers::signed_decimal;
use crate::codecs::text::assembled_view;
use crate::codecs::traits::DataParser;
use crate::codecs::traits::DataWriter;
use crate::codecs::utils::chars_equal;
use crate::codecs::utils::lemma_index_of;
use crate::codecs::utils::quoted;
use crate::codecs::utils::split_and_trim;
use crate::codecs::utils::split_trimmed;
use crate::codecs::utils::string_from_chars;
use crate::codecs::utils::trim;
use crate::codecs::utils::trimmed;
use crate::codecs::utils::unquote;
use crate::codecs::utils::unquoted;
use crate::domain::tx::record_views;
use crate::domain::tx::AccountType;
use crate::domain::tx::TxIdType;
use crate::domain::tx::TxKind;
use crate::domain::tx::TxRecord;
use crate::domain::tx::TxRecordView;
use crate::domain::tx::TxStatus;
use crate::domain::tx::TxTimestamp;
use crate::errors::prepend_records;
use crate::errors::AppError;
use crate::errors::AppErrorView;
use vstd::prelude::*;
use vstd::string::StringExecFns;
use vstd::utf8::decode_utf8;
use vstd::utf8::encode_utf8;
use vstd::utf8::valid_utf8;

verus! {

/// The first line of every CSV stream: the names of the eight columns.
pub const HEADER_SIGNATURE: &'static str =
    "TX_ID,TX_TYPE,FROM_USER_ID,TO_USER_ID,AMOUNT,TIMESTAMP,STATUS,DESCRIPTION";

/// The character between two columns. It cannot be escaped: a comma inside a description splits the row.
pub const CSV_DELIMITER: char = ',';

/// The number of columns of a row.
pub const FIELDS_COUNT: usize = 8;

/// The characters of the header line.
pub open spec fn header_signature() -> Seq<char> {
    "TX_ID,TX_TYPE,FROM_USER_ID,TO_USER_ID,AMOUNT,TIMESTAMP,STATUS,DESCRIPTION"@
}

/// The record that a row stands for. The row is split at every comma and the pieces are
/// trimmed; any number of pieces but eight is `IncompleteRecord`. The pieces are read in
/// the order of the columns, and the first that fails decides the error.
pub open spec fn parsed_csv_line(line: Seq<char>) -> Result<TxRecordView, ParserErrorView> {
    let values = split_trimmed(line, CSV_DELIMITER);
    let id = u64_field(values[0]);
    let kind = TxKind::parsed(values[1]);
    let from = u64_field(values[2]);
    let to = u64_field(values[3]);
    let amount = i64_field(values[4]);
    let ts = u64_field(values[5]);
    let status = TxStatus::parsed(values[6]);
    let description = unquoted(values[7]);
    if values.len() != FIELDS_COUNT {
        Err(ParserErrorView::IncompleteRecord)
    } else if id is Err {
        Err(id->Err_0)
    } else if kind is Err {
        Err(kind->Err_0)
    } else if from is Err {
        Err(from->Err_0)
    } else if to is Err {
        Err(to->Err_0)
    } else if amount is Err {
        Err(amount->Err_0)
    } else if ts is Err {
        Err(ts->Err_0)
    } else if status is Err {
        Err(status->Err_0)
    } else if description is None {
        Err(ParserErrorView::ShellBeQuoted(values[7]))
    } else {
        Ok(
            TxRecordView {
                id: id->Ok_0,
                kind: kind->Ok_0,
                from: from->Ok_0,
                to: to->Ok_0,
                amount: amount->Ok_0,
                ts: ts->Ok_0,
                status: status->Ok_0,
                description: description->0,
            },
        )
    }
}

/// What the rows left of a CSV stream parse to, where `line_num` is the number of the next
/// line. Every line, an empty one too, must be a row. A line that is not UTF-8 is a read
/// error; a row's error carries the number and the untrimmed text of its line.
pub open spec fn parsed_csv_rows(rest: Seq<u8>, line_num: nat) -> Result<
    Seq<TxRecordView>,
    AppErrorView,
>
    decreases rest.len(),
    via parsed_csv_rows_decreases
{
    if rest.len() == 0 {
        Ok(Seq::empty())
    } else if !valid_utf8(line_content(rest)) {
        Err(not_text())
    } else {
        let raw = decode_utf8(line_content(rest));
        match parsed_csv_line(trimmed(raw)) {
            Err(e) => Err(line_error(line_num, raw, e)),
            Ok(record) => prepend_records(
                seq![record],
                parsed_csv_rows(rest.skip(line_span(rest)), line_num + 1),
            ),
        }
    }
}

#[via_fn]
proof fn parsed_csv_rows_decreases(rest: Seq<u8>, line_num: nat) {
    lemma_index_of(rest, NEWLINE);
}

/// What a CSV stream parses to. An empty stream holds no records. Otherwise the first
/// line, which has the number 0, must be the header, character for character.
pub open spec fn parsed_csv(bytes: Seq<u8>) -> Result<Seq<TxRecordView>, AppErrorView> {
    if bytes.len() == 0 {
        Ok(Seq::empty())
    } else if !valid_utf8(line_content(bytes)) {
        Err(not_text())
    } else if decode_utf8(line_content(bytes)) != header_signature() {
        Err(
            line_error(
                0,
                decode_utf8(line_content(bytes)),
                ParserErrorView::InvalidFileHeader,
            ),
        )
    } else {
        parsed_csv_rows(bytes.skip(line_span(bytes)), 1)
    }
}

/// The characters of the row of a record: the eight values with commas between them, the
/// description between double quotes and no other value quoted.
pub open spec fn csv_row(record: TxRecordView) -> Seq<char> {
    decimal(record.id as nat) + seq![CSV_DELIMITER] + record.kind.token() + seq![CSV_DELIMITER]
        + decimal(record.from as nat) + seq![CSV_DELIMITER] + decimal(record.to as nat) + seq![
        CSV_DELIMITER,
    ] + signed_decimal(record.amount as int) + seq![CSV_DELIMITER] + decimal(record.ts as nat)
        + seq![CSV_DELIMITER] + record.status.token() + seq![CSV_DELIMITER] + quoted(
        record.description,
    )
}

/// The bytes of the row of a record, newline included.
pub open spec fn csv_row_bytes(record: TxRecordView) -> Seq<u8> {
    encode_utf8(csv_row(record)).push(NEWLINE)
}

/// The rows of the records, one after the other.
pub open spec fn csv_rows_bytes(records: Seq<TxRecordView>) -> Seq<u8>
    decreases records.len(),
{
    if records.len() == 0 {
        Seq::empty()
    } else {
        csv_rows_bytes(records.drop_last()) + csv_row_bytes(records.last())
    }
}

/// The header line and the rows of the records.
pub open spec fn csv_bytes(records: Seq<TxRecordView>) -> Seq<u8> {
    encode_utf8(header_signature()).push(NEWLINE) + csv_rows_bytes(records)
}

/// Codec of the CSV format.
#[derive(Default)]
pub struct CsvCodec;

impl CsvCodec {
    /// Reads the record of one row.
    #[verifier::rlimit(50)]
    pub fn parse_csv_line(&self, line: &[char]) -> (res: Result<TxRecord, ParserError>)
        ensures
            assembled_view(res) == parsed_csv_line(line@),
    {
        let values = split_and_trim(line, CSV_DELIMITER);
        if values.len() != FIELDS_COUNT {
            return Err(ParserError::IncompleteRecord);
        }
        let id = TxIdType::from_chars(values[0])?;
        let kind = TxKind::from_chars(values[1])?;
        let from = AccountType::from_chars(values[2])?;
        let to = AccountType::from_chars(values[3])?;
        let amount = parse_i64_field(values[4])?;
        let ts = TxTimestamp::from_chars(values[5])?;
        let status = TxStatus::from_chars(values[6])?;
        let description = string_from_chars(unquote(values[7])?);
        Ok(TxRecord { id, kind, from, to, amount, ts, status, description })
    }

    /// Appends the row of one record.
    #[verifier::rlimit(50)]
    pub fn write_single_record(&self, w: &mut Vec<u8>, tx: &TxRecord) -> (res: Result<
        (),
        AppError,
    >)
        ensures
            res is Ok,
            final(w)@ == old(w)@ + csv_row_bytes(tx@),
    {
        let mut row = String::new();
        append_u64(&mut row, tx.id.0);
        row.append(",");
        row.append(tx.kind.as_str());
        row.append(",");
        append_u64(&mut row, tx.from.0);
        row.append(",");
        append_u64(&mut row, tx.to.0);
        row.append(",");
        append_i64(&mut row, tx.amount);
        row.append(",");
        append_u64(&mut row, tx.ts.0);
        row.append(",");
        row.append(tx.status.as_str());
        row.append(",");
        row.append("\"");
        row.append(tx.description.as_str());
        row.append("\"");
        proof {
            reveal_strlit(",");
            reveal_strlit("\"");
            assert(","@ =~= seq![CSV_DELIMITER]);
            assert("\""@ =~= seq!['"']);
            assert(row@ =~= csv_row(tx@));
        }
        w.extend_from_slice(row.as_str().as_bytes());
        w.push(NEWLINE);
        proof {
            assert(w@ =~= old(w)@ + csv_row_bytes(tx@));
        }
        Ok(())
    }
}

impl DataParser for CsvCodec {
    open spec fn parsed(&self, bytes: Seq<u8>) -> Result<Seq<TxRecordView>, AppErrorView> {
        parsed_csv(bytes)
    }

    #[verifier::rlimit(50)]
    fn parse(&self, r: &[u8]) -> (res: Result<Vec<TxRecord>, AppError>) {
        let mut result: Vec<TxRecord> = Vec::new();
        let n: usize = r.len();
        if n == 0 {
            proof {
                assert(record_views(result@) =~= Seq::<TxRecordView>::empty());
            }
            return Ok(result);
        }
        proof {
            assert(r@.skip(0) =~= r@);
        }
        let header = read_line(r, 0)?;
        if !chars_equal(header.chars.as_slice(), HEADER_SIGNATURE) {
            return Err(
                AppError::ParsingError {
                    context: ParserContext::with_line_number_and_line(0, header.text),
                    source: ParserError::InvalidFileHeader,
                },
            );
        }
        let mut pos: usize = header.next;
        let mut line_num: usize = 1;
        let ghost whole = parsed_csv(r@);
        proof {
            assert(record_views(result@) =~= Seq::<TxRecordView>::empty());
            match whole {
                Ok(records) => {
                    assert(Seq::<TxRecordView>::empty() + records =~= records);
                },
                Err(_) => {},
            }
        }
        while pos < n
            invariant
                pos <= n == r@.len(),
                line_num <= pos,
                whole == parsed_csv(r@),
                whole == prepend_records(
                    record_views(result@),
                    parsed_csv_rows(r@.skip(pos as int), line_num as nat),
                ),
            decreases n - pos,
        {
            let ghost rest = r@.skip(pos as int);
            let ghost done = record_views(result@);
            let line = read_line(r, pos)?;
            proof {
                assert(rest.skip(line_span(rest)) =~= r@.skip(line.next as int));
            }
            let record = add_parser_ctx(
                self.parse_csv_line(trim(line.chars.as_slice())),
                ParserContext::with_line_number_and_line(line_num, line.text),
            )?;
            proof {
                assert(record_views(result@.push(record)) =~= done + seq![record@]);
                match parsed_csv_rows(r@.skip(line.next as int), (line_num + 1) as nat) {
                    Ok(more) => {
                        assert(done + (seq![record@] + more) =~= (done + seq![record@]) + more);
                    },
                    Err(_) => {},
                }
            }
            result.push(record);
            pos = line.next;
            line_num += 1;
        }
        proof {
            assert(record_views(result@) + Seq::<TxRecordView>::empty() =~= record_views(result@));
        }
        Ok(result)
    }
}

impl DataWriter for CsvCodec {
    open spec fn written(&self, records: Seq<TxRecordView>) -> Seq<u8> {
        csv_bytes(records)
    }

    fn write(&self, w: &mut Vec<u8>, data: &[TxRecord]) -> (res: Result<(), AppError>) {
        w.extend_from_slice(HEADER_SIGNATURE.as_bytes());
        w.push(NEWLINE);
        let mut i: usize = 0;
        proof {
            assert(w@ =~= old(w)@ + encode_utf8(header_signature()).push(NEWLINE) + csv_rows_bytes(
                record_views(data@.take(0)),
            ));
        }
        while i < data.len()
            invariant
                i <= data@.len(),
                w@ == old(w)@ + encode_utf8(header_signature()).push(NEWLINE) + csv_rows_bytes(
                    record_views(data@.take(i as int)),
                ),
            decreases data@.len() - i,
        {
            self.write_single_record(w, &data[i])?;
            proof {
                let next = record_views(data@.take(i + 1));
                assert(next.drop_last() =~= record_views(data@.take(i as int)));
                assert(next.last() == data@[i as int]@);
                assert(w@ =~= old(w)@ + encode_utf8(header_signature()).push(NEWLINE)
                    + csv_rows_bytes(next));
            }
            i += 1;
        }
        proof {
            assert(data@.take(data@.len() as int) =~= data@);
            assert(w@ =~= old(w)@ + csv_bytes(record_views(data@)));
        }
        Ok(())
    }
}

} // verus!
