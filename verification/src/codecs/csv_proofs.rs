use crate::codecs::base::i64_field;
use crate::codecs::base::u64_field;
use crate::codecs::csv::csv_bytes;
use crate::codecs::csv::csv_row;
use crate::codecs::csv::csv_row_bytes;
use crate::codecs::csv::csv_rows_bytes;
use crate::codecs::csv::header_signature;
use crate::codecs::csv::parsed_csv;
use crate::codecs::csv::parsed_csv_line;
use crate::codecs::csv::parsed_csv_rows;
use crate::codecs::csv::CSV_DELIMITER;
use crate::codecs::csv::FIELDS_COUNT;
use crate::codecs::encoding::lacks;
use crate::codecs::errors::ParserErrorView;
use crate::codecs::lines::lemma_first_line;
use crate::codecs::lines::line_error;
use crate::codecs::lines::NEWLINE;
use crate::codecs::numbers::decimal;
use crate::codecs::numbers::lemma_i64_round_trip;
use crate::codecs::numbers::lemma_u64_round_trip;
use crate::codecs::numbers::signed_decimal;
use crate::codecs::text_proofs::lemma_decimal_is_field_text;
use crate::codecs::text_proofs::lemma_name_is_field_text;
use crate::codecs::text_proofs::lemma_quoted_is_field_text;
use crate::codecs::text_proofs::lemma_signed_decimal_is_field_text;
use crate::codecs::utils::lemma_split_front;
use crate::codecs::utils::lemma_split_single;
use crate::codecs::utils::lemma_unquote_quoted;
use crate::codecs::utils::quoted;
use crate::codecs::utils::split;
use crate::codecs::utils::split_trimmed;
use crate::codecs::utils::trimmed;
use crate::codecs::utils::unquoted;
use crate::domain::tx::TxKind;
use crate::domain::tx::TxRecordView;
use crate::domain::tx::TxStatus;
use crate::errors::prepend_records;
use crate::errors::AppErrorView;
use vstd::prelude::*;
use vstd::utf8::encode_utf8;

verus! {

/// Whether the row of a record can be read back: its description holds neither a comma,
/// which would split the row, nor a newline, which would end it.
pub open spec fn fits_row(record: TxRecordView) -> bool {
    lacks(record.description, CSV_DELIMITER) && lacks(record.description, '\n')
}

/// The row of a record that fits a row splits into the texts of its eight fields.
#[verifier::rlimit(50)]
pub proof fn lemma_row_splits(record: TxRecordView)
    requires
        fits_row(record),
    ensures
        split(csv_row(record), CSV_DELIMITER) == seq![
            decimal(record.id as nat),
            record.kind.token(),
            decimal(record.from as nat),
            decimal(record.to as nat),
            signed_decimal(record.amount as int),
            decimal(record.ts as nat),
            record.status.token(),
            quoted(record.description),
        ],
{
    let v1 = decimal(record.id as nat);
    let v2 = record.kind.token();
    let v3 = decimal(record.from as nat);
    let v4 = decimal(record.to as nat);
    let v5 = signed_decimal(record.amount as int);
    let v6 = decimal(record.ts as nat);
    let v7 = record.status.token();
    let v8 = quoted(record.description);
    lemma_decimal_is_field_text(record.id as nat);
    lemma_decimal_is_field_text(record.from as nat);
    lemma_decimal_is_field_text(record.to as nat);
    lemma_decimal_is_field_text(record.ts as nat);
    lemma_signed_decimal_is_field_text(record.amount as int);
    record.kind.lemma_token_is_name();
    record.status.lemma_token_is_name();
    lemma_name_is_field_text(v2);
    lemma_name_is_field_text(v7);
    assert forall|i: int| 0 <= i < v8.len() implies v8[i] != CSV_DELIMITER by {
        if 0 < i < v8.len() - 1 {
            assert(v8[i] == record.description[i - 1]);
        }
    }
    lemma_split_eight(v1, v2, v3, v4, v5, v6, v7, v8, CSV_DELIMITER);
}

/// Eight texts without the separator, written with separators between them, are the
/// eight pieces of the line.
#[verifier::rlimit(50)]
pub proof fn lemma_split_eight(
    v1: Seq<char>,
    v2: Seq<char>,
    v3: Seq<char>,
    v4: Seq<char>,
    v5: Seq<char>,
    v6: Seq<char>,
    v7: Seq<char>,
    v8: Seq<char>,
    sep: char,
)
    requires
        lacks(v1, sep),
        lacks(v2, sep),
        lacks(v3, sep),
        lacks(v4, sep),
        lacks(v5, sep),
        lacks(v6, sep),
        lacks(v7, sep),
        lacks(v8, sep),
    ensures
        split(
            v1 + seq![sep] + v2 + seq![sep] + v3 + seq![sep] + v4 + seq![sep] + v5 + seq![sep] + v6
                + seq![sep] + v7 + seq![sep] + v8,
            sep,
        ) == seq![v1, v2, v3, v4, v5, v6, v7, v8],
{
    let c = seq![sep];
    let r7 = v8;
    let r6 = v7 + c + r7;
    let r5 = v6 + c + r6;
    let r4 = v5 + c + r5;
    let r3 = v4 + c + r4;
    let r2 = v3 + c + r3;
    let r1 = v2 + c + r2;
    let r0 = v1 + c + r1;
    lemma_split_single(r7, sep);
    lemma_split_front(v7, r7, sep);
    assert(split(r6, sep) =~= seq![v7, v8]);
    lemma_split_front(v6, r6, sep);
    assert(split(r5, sep) =~= seq![v6, v7, v8]);
    lemma_split_front(v5, r5, sep);
    assert(split(r4, sep) =~= seq![v5, v6, v7, v8]);
    lemma_split_front(v4, r4, sep);
    assert(split(r3, sep) =~= seq![v4, v5, v6, v7, v8]);
    lemma_split_front(v3, r3, sep);
    assert(split(r2, sep) =~= seq![v3, v4, v5, v6, v7, v8]);
    lemma_split_front(v2, r2, sep);
    assert(split(r1, sep) =~= seq![v2, v3, v4, v5, v6, v7, v8]);
    lemma_split_front(v1, r1, sep);
    assert(split(r0, sep) =~= seq![v1, v2, v3, v4, v5, v6, v7, v8]);
    assert(v1 + c + v2 + c + v3 + c + v4 + c + v5 + c + v6 + c + v7 + c + v8 =~= r0);
}

/// The row written for a record that fits a row is read back as the record.
#[verifier::rlimit(50)]
pub proof fn lemma_row_round_trip(record: TxRecordView)
    requires
        fits_row(record),
    ensures
        parsed_csv_line(csv_row(record)) == Ok::<TxRecordView, ParserErrorView>(record),
        trimmed(csv_row(record)) == csv_row(record),
        lacks(csv_row(record), '\n'),
        csv_row(record).len() > 0,
        csv_row(record).last() == '"',
{
    let row = csv_row(record);
    let v1 = decimal(record.id as nat);
    let v2 = record.kind.token();
    let v3 = decimal(record.from as nat);
    let v4 = decimal(record.to as nat);
    let v5 = signed_decimal(record.amount as int);
    let v6 = decimal(record.ts as nat);
    let v7 = record.status.token();
    let v8 = quoted(record.description);
    lemma_row_splits(record);
    lemma_decimal_is_field_text(record.id as nat);
    lemma_decimal_is_field_text(record.from as nat);
    lemma_decimal_is_field_text(record.to as nat);
    lemma_decimal_is_field_text(record.ts as nat);
    lemma_signed_decimal_is_field_text(record.amount as int);
    record.kind.lemma_token_is_name();
    record.status.lemma_token_is_name();
    lemma_name_is_field_text(v2);
    lemma_name_is_field_text(v7);
    lemma_quoted_is_field_text(record.description);
    lemma_u64_round_trip(record.id);
    lemma_u64_round_trip(record.from);
    lemma_u64_round_trip(record.to);
    lemma_u64_round_trip(record.ts);
    lemma_i64_round_trip(record.amount);
    record.kind.lemma_token_round_trip();
    record.status.lemma_token_round_trip();
    lemma_unquote_quoted(record.description);
    let pieces = split(row, CSV_DELIMITER);
    let values = split_trimmed(row, CSV_DELIMITER);
    assert(pieces.len() == 8);
    assert(values[0] == v1 && values[1] == v2 && values[2] == v3 && values[3] == v4);
    assert(values[4] == v5 && values[5] == v6 && values[6] == v7 && values[7] == v8);
    assert(row[0] == v1[0]);
    assert(row.last() == v8.last());
    assert forall|i: int| 0 <= i < row.len() implies row[i] != '\n' by {
        lemma_row_char(record, i);
    }
}

/// No character of a row is a newline.
#[verifier::rlimit(50)]
proof fn lemma_row_char(record: TxRecordView, i: int)
    requires
        fits_row(record),
        0 <= i < csv_row(record).len(),
    ensures
        csv_row(record)[i] != '\n',
{
    let c = seq![CSV_DELIMITER];
    let v1 = decimal(record.id as nat);
    let v2 = record.kind.token();
    let v3 = decimal(record.from as nat);
    let v4 = decimal(record.to as nat);
    let v5 = signed_decimal(record.amount as int);
    let v6 = decimal(record.ts as nat);
    let v7 = record.status.token();
    let v8 = quoted(record.description);
    lemma_decimal_is_field_text(record.id as nat);
    lemma_decimal_is_field_text(record.from as nat);
    lemma_decimal_is_field_text(record.to as nat);
    lemma_decimal_is_field_text(record.ts as nat);
    lemma_signed_decimal_is_field_text(record.amount as int);
    record.kind.lemma_token_is_name();
    record.status.lemma_token_is_name();
    lemma_name_is_field_text(v2);
    lemma_name_is_field_text(v7);
    lemma_quoted_is_field_text(record.description);
    lemma_concat_lacks(v1, c, '\n');
    lemma_concat_lacks(v1 + c, v2, '\n');
    lemma_concat_lacks(v1 + c + v2, c, '\n');
    lemma_concat_lacks(v1 + c + v2 + c, v3, '\n');
    lemma_concat_lacks(v1 + c + v2 + c + v3, c, '\n');
    lemma_concat_lacks(v1 + c + v2 + c + v3 + c, v4, '\n');
    lemma_concat_lacks(v1 + c + v2 + c + v3 + c + v4, c, '\n');
    lemma_concat_lacks(v1 + c + v2 + c + v3 + c + v4 + c, v5, '\n');
    lemma_concat_lacks(v1 + c + v2 + c + v3 + c + v4 + c + v5, c, '\n');
    lemma_concat_lacks(v1 + c + v2 + c + v3 + c + v4 + c + v5 + c, v6, '\n');
    lemma_concat_lacks(v1 + c + v2 + c + v3 + c + v4 + c + v5 + c + v6, c, '\n');
    lemma_concat_lacks(v1 + c + v2 + c + v3 + c + v4 + c + v5 + c + v6 + c, v7, '\n');
    lemma_concat_lacks(v1 + c + v2 + c + v3 + c + v4 + c + v5 + c + v6 + c + v7, c, '\n');
    lemma_concat_lacks(v1 + c + v2 + c + v3 + c + v4 + c + v5 + c + v6 + c + v7 + c, v8, '\n');
}

/// Two texts that lack a character lack it in a row.
pub proof fn lemma_concat_lacks(a: Seq<char>, b: Seq<char>, x: char)
    requires
        lacks(a, x),
        lacks(b, x),
    ensures
        lacks(a + b, x),
{
    assert forall|i: int| 0 <= i < (a + b).len() implies (a + b)[i] != x by {
        if i < a.len() {
            assert((a + b)[i] == a[i]);
        } else {
            assert((a + b)[i] == b[i - a.len()]);
        }
    }
}

/// A stream that starts with the row written for a record parses to that record and then
/// to what the rest of the stream parses to.
pub proof fn lemma_row_step(record: TxRecordView, tail: Seq<u8>, line_num: nat)
    requires
        fits_row(record),
    ensures
        parsed_csv_rows(csv_row_bytes(record) + tail, line_num) == prepend_records(
            seq![record],
            parsed_csv_rows(tail, line_num + 1),
        ),
{
    lemma_row_round_trip(record);
    lemma_first_line(csv_row(record), tail);
}

/// The rows of a sequence of records are the row of the first and the rows of the others.
pub proof fn lemma_rows_front(records: Seq<TxRecordView>)
    requires
        records.len() > 0,
    ensures
        csv_rows_bytes(records) == csv_row_bytes(records.first()) + csv_rows_bytes(
            records.drop_first(),
        ),
    decreases records.len(),
{
    if records.len() == 1 {
        assert(records.drop_last() =~= Seq::<TxRecordView>::empty());
        assert(records.drop_first() =~= Seq::<TxRecordView>::empty());
        assert(csv_rows_bytes(records) =~= csv_row_bytes(records.first()) + csv_rows_bytes(
            records.drop_first(),
        ));
    } else {
        lemma_rows_front(records.drop_last());
        assert(records.drop_last().drop_first() =~= records.drop_first().drop_last());
        assert(records.drop_last().first() == records.first());
        assert(records.drop_first().last() == records.last());
        assert(csv_rows_bytes(records) =~= csv_row_bytes(records.first()) + csv_rows_bytes(
            records.drop_first(),
        ));
    }
}

/// The rows written for records that fit their rows are read back as the records.
pub proof fn lemma_rows_round_trip(records: Seq<TxRecordView>, line_num: nat)
    requires
        forall|i: int| 0 <= i < records.len() ==> fits_row(#[trigger] records[i]),
    ensures
        parsed_csv_rows(csv_rows_bytes(records), line_num) == Ok::<
            Seq<TxRecordView>,
            AppErrorView,
        >(records),
    decreases records.len(),
{
    if records.len() > 0 {
        let first = records.first();
        let others = records.drop_first();
        lemma_rows_front(records);
        lemma_row_step(first, csv_rows_bytes(others), line_num);
        assert forall|i: int| 0 <= i < others.len() implies fits_row(#[trigger] others[i]) by {
            assert(others[i] == records[i + 1]);
        }
        lemma_rows_round_trip(others, line_num + 1);
        assert(seq![first] + others =~= records);
    } else {
        assert(records =~= Seq::<TxRecordView>::empty());
    }
}

/// The header line holds no newline and does not end in a carriage return.
pub proof fn lemma_header_is_one_line()
    ensures
        lacks(header_signature(), '\n'),
        header_signature().len() > 0,
        header_signature().last() != '\r',
{
    reveal_strlit("TX_ID,TX_TYPE,FROM_USER_ID,TO_USER_ID,AMOUNT,TIMESTAMP,STATUS,DESCRIPTION");
}

/// A stream that starts with the header line parses to what its rows parse to.
pub proof fn lemma_header_is_accepted(tail: Seq<u8>)
    ensures
        parsed_csv(encode_utf8(header_signature()).push(NEWLINE) + tail) == parsed_csv_rows(
            tail,
            1,
        ),
{
    lemma_header_is_one_line();
    lemma_first_line(header_signature(), tail);
}

/// A stream whose first line is anything but the header is `InvalidFileHeader` at line 0,
/// with the line that was found; so is one with a single column renamed.
pub proof fn lemma_other_header_is_rejected(first_line: Seq<char>, tail: Seq<u8>)
    requires
        lacks(first_line, '\n'),
        first_line.len() > 0 ==> first_line.last() != '\r',
        first_line != header_signature(),
    ensures
        parsed_csv(encode_utf8(first_line).push(NEWLINE) + tail) == Err::<
            Seq<TxRecordView>,
            AppErrorView,
        >(line_error(0, first_line, ParserErrorView::InvalidFileHeader)),
{
    lemma_first_line(first_line, tail);
}

/// Writing records that fit their rows and parsing the bytes gives the same records in
/// the same order.
pub proof fn lemma_csv_round_trip(records: Seq<TxRecordView>)
    requires
        forall|i: int| 0 <= i < records.len() ==> fits_row(#[trigger] records[i]),
    ensures
        parsed_csv(csv_bytes(records)) == Ok::<Seq<TxRecordView>, AppErrorView>(records),
{
    lemma_header_is_accepted(csv_rows_bytes(records));
    lemma_rows_round_trip(records, 1);
}

/// A row that does not split into exactly eight pieces, be it seven or nine, is `IncompleteRecord`.
pub proof fn lemma_wrong_count_is_incomplete(line: Seq<char>)
    requires
        split(line, CSV_DELIMITER).len() != FIELDS_COUNT,
    ensures
        parsed_csv_line(line) == Err::<TxRecordView, ParserErrorView>(
            ParserErrorView::IncompleteRecord,
        ),
{
}

/// A row of eight pieces whose first seven are read and whose last lacks its double
/// quotes is `ShellBeQuoted` with that piece.
pub proof fn lemma_unquoted_description_is_rejected(line: Seq<char>)
    requires
        split(line, CSV_DELIMITER).len() == FIELDS_COUNT,
        u64_field(split_trimmed(line, CSV_DELIMITER)[0]) is Ok,
        TxKind::parsed(split_trimmed(line, CSV_DELIMITER)[1]) is Ok,
        u64_field(split_trimmed(line, CSV_DELIMITER)[2]) is Ok,
        u64_field(split_trimmed(line, CSV_DELIMITER)[3]) is Ok,
        i64_field(split_trimmed(line, CSV_DELIMITER)[4]) is Ok,
        u64_field(split_trimmed(line, CSV_DELIMITER)[5]) is Ok,
        TxStatus::parsed(split_trimmed(line, CSV_DELIMITER)[6]) is Ok,
        unquoted(split_trimmed(line, CSV_DELIMITER)[7]) is None,
    ensures
        parsed_csv_line(line) == Err::<TxRecordView, ParserErrorView>(
            ParserErrorView::ShellBeQuoted(split_trimmed(line, CSV_DELIMITER)[7]),
        ),
{
}

} // verus!
