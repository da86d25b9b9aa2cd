use crate::codecs::base::is_name;
use crate::codecs::base::is_name_char;
use crate::codecs::base::TxFieldKey;
use crate::codecs::encoding::lacks;
use crate::codecs::errors::ParserErrorView;
use crate::codecs::lines::lemma_first_line;
use crate::codecs::lines::line_error;
use crate::codecs::lines::NEWLINE;
use crate::codecs::numbers::decimal;
use crate::codecs::numbers::is_digit;
use crate::codecs::numbers::lemma_decimal_digits;
use crate::codecs::numbers::lemma_i64_round_trip;
use crate::codecs::numbers::lemma_u64_round_trip;
use crate::codecs::numbers::signed_decimal;
use crate::codecs::text::parsed_text;
use crate::codecs::text::text_bytes;
use crate::codecs::text::text_fields_bytes;
use crate::codecs::text::text_line;
use crate::codecs::text::text_line_bytes;
use crate::codecs::text::text_record_bytes;
use crate::codecs::text::COMMENT_SYMBOL_1LINE;
use crate::codecs::text::FIELD_KV_DELIMITER;
use crate::codecs::text::RecordBuilderView;
use crate::codecs::utils::is_solid;
use crate::codecs::utils::lemma_index_of_is;
use crate::codecs::utils::lemma_trim_start_prefix;
use crate::codecs::utils::lemma_unquote_quoted;
use crate::codecs::utils::quoted;
use crate::codecs::utils::trimmed;
use crate::domain::tx::TxKind;
use crate::domain::tx::TxRecordView;
use crate::errors::prepend_records;
use crate::errors::AppErrorView;
use vstd::prelude::*;
use vstd::utf8::encode_utf8;

verus! {

/// Whether `value` can stand as the value of a line and be read back as it is: it is not
/// empty, has no whitespace at either end and holds no newline.
pub open spec fn is_field_text(value: Seq<char>) -> bool {
    is_solid(value) && lacks(value, '\n')
}

/// The decimal form of a number can stand as the value of a line.
pub proof fn lemma_decimal_is_field_text(n: nat)
    ensures
        is_field_text(decimal(n)),
        lacks(decimal(n), ','),
{
    lemma_decimal_digits(n);
    let text = decimal(n);
    assert(is_digit(text[0]));
    assert(is_digit(text.last()));
    assert forall|i: int| 0 <= i < text.len() implies text[i] != '\n' && text[i] != ',' by {
        assert(is_digit(text[i]));
    }
}

/// The signed decimal form of a number can stand as the value of a line.
pub proof fn lemma_signed_decimal_is_field_text(n: int)
    ensures
        is_field_text(signed_decimal(n)),
        lacks(signed_decimal(n), ','),
{
    if n < 0 {
        let digits = decimal((-n) as nat);
        let text = signed_decimal(n);
        lemma_decimal_is_field_text((-n) as nat);
        assert(text[0] == '-');
        assert(text.last() == digits.last());
        assert forall|i: int| 0 <= i < text.len() implies text[i] != '\n' && text[i] != ',' by {
            if i > 0 {
                assert(text[i] == digits[i - 1]);
            }
        }
    } else {
        lemma_decimal_is_field_text(n as nat);
    }
}

/// A text of upper-case letters and underscores can stand as the value of a line.
pub proof fn lemma_name_is_field_text(text: Seq<char>)
    requires
        is_name(text),
    ensures
        is_field_text(text),
        lacks(text, ','),
        lacks(text, FIELD_KV_DELIMITER),
        text[0] != COMMENT_SYMBOL_1LINE,
{
    assert(is_name_char(text[0]));
    assert(is_name_char(text.last()));
    assert forall|i: int| 0 <= i < text.len() implies text[i] != '\n' && text[i] != ','
        && text[i] != FIELD_KV_DELIMITER by {
        assert(is_name_char(text[i]));
    }
}

/// A text without a newline can stand between double quotes as the value of a line.
pub proof fn lemma_quoted_is_field_text(text: Seq<char>)
    requires
        lacks(text, '\n'),
    ensures
        is_field_text(quoted(text)),
{
    let value = quoted(text);
    assert(value[0] == '"');
    assert(value.last() == '"');
    assert forall|i: int| 0 <= i < value.len() implies value[i] != '\n' by {
        if 0 < i < value.len() - 1 {
            assert(value[i] == text[i - 1]);
        }
    }
}

/// A `KEY: value` line is read as the field `key` with the value `value`.
#[verifier::rlimit(50)]
pub proof fn lemma_line_gives_field(builder: RecordBuilderView, key: TxFieldKey, value: Seq<char>)
    requires
        is_solid(value),
    ensures
        builder.with_line(text_line(key, value)) == builder.with_field(key, value),
        trimmed(text_line(key, value)) == text_line(key, value),
        text_line(key, value).len() > 0,
        text_line(key, value)[0] != COMMENT_SYMBOL_1LINE,
        text_line(key, value).last() == value.last(),
{
    let token = key.token();
    let line = text_line(key, value);
    key.lemma_token_is_name();
    key.lemma_token_round_trip();
    lemma_name_is_field_text(token);
    reveal_strlit(": ");
    assert(": "@ =~= seq![FIELD_KV_DELIMITER, ' ']);
    let at = token.len() as int;
    assert(line[0] == token[0]);
    assert(line.last() == value.last());
    assert forall|j: int| 0 <= j < at implies line[j] != FIELD_KV_DELIMITER by {
        assert(line[j] == token[j]);
    }
    assert(line[at] == FIELD_KV_DELIMITER);
    lemma_index_of_is(line, FIELD_KV_DELIMITER, at);
    assert(line.take(at) =~= token);
    assert(line.skip(at + 1) =~= seq![' '] + value);
    lemma_trim_start_prefix(seq![' '], value);
}

/// A line that was written for a field which the builder lacks, and whose value the
/// field's parser accepts, moves the parse on to the next line with the field set.
#[verifier::rlimit(50)]
pub proof fn lemma_field_line_step(
    key: TxFieldKey,
    value: Seq<char>,
    tail: Seq<u8>,
    line_num: nat,
    last_line: Seq<char>,
    builder: RecordBuilderView,
)
    requires
        is_field_text(value),
        builder.with_field(key, value) is Ok,
    ensures
        parsed_text(text_line_bytes(key, value) + tail, line_num, last_line, builder)
            == parsed_text(
            tail,
            line_num + 1,
            text_line(key, value),
            builder.with_field(key, value)->Ok_0,
        ),
{
    let token = key.token();
    let line = text_line(key, value);
    lemma_line_gives_field(builder, key, value);
    key.lemma_token_is_name();
    lemma_name_is_field_text(token);
    reveal_strlit(": ");
    assert(": "@ =~= seq![FIELD_KV_DELIMITER, ' ']);
    assert forall|j: int| 0 <= j < line.len() implies line[j] != '\n' by {
        if j < token.len() {
            assert(line[j] == token[j]);
        } else if j >= token.len() + 2 {
            assert(line[j] == value[j - token.len() - 2]);
        }
    }
    lemma_first_line(line, tail);
}

/// The empty line behind the lines of a record closes the record.
pub proof fn lemma_blank_line_step(
    tail: Seq<u8>,
    line_num: nat,
    last_line: Seq<char>,
    builder: RecordBuilderView,
)
    requires
        builder.is_dirty,
        builder.finalized() is Ok,
    ensures
        parsed_text(seq![NEWLINE] + tail, line_num, last_line, builder) == prepend_records(
            seq![builder.finalized()->Ok_0],
            parsed_text(tail, line_num + 1, Seq::empty(), RecordBuilderView::empty()),
        ),
{
    let nothing = Seq::<char>::empty();
    lemma_first_line(nothing, tail);
    assert(encode_utf8(nothing) =~= Seq::<u8>::empty());
    assert(encode_utf8(nothing).push(NEWLINE) + tail =~= seq![NEWLINE] + tail);
}

/// The text that stands for one field of a record.
pub open spec fn field_text(record: TxRecordView, key: TxFieldKey) -> Seq<char> {
    match key {
        TxFieldKey::Id => decimal(record.id as nat),
        TxFieldKey::TxKind => record.kind.token(),
        TxFieldKey::FromUserId => decimal(record.from as nat),
        TxFieldKey::ToUserId => decimal(record.to as nat),
        TxFieldKey::Amount => signed_decimal(record.amount as int),
        TxFieldKey::Timestamp => decimal(record.ts as nat),
        TxFieldKey::Status => record.status.token(),
        TxFieldKey::Description => quoted(record.description),
    }
}

/// The lines of the fields `keys` of a record, in the order of `keys`.
pub open spec fn text_lines_bytes(record: TxRecordView, keys: Seq<TxFieldKey>) -> Seq<u8>
    decreases keys.len(),
{
    if keys.len() == 0 {
        Seq::empty()
    } else {
        text_line_bytes(keys[0], field_text(record, keys[0])) + text_lines_bytes(
            record,
            keys.drop_first(),
        )
    }
}

/// The builder that holds the fields `held` of a record and no others.
pub open spec fn partly_filled(record: TxRecordView, held: Set<TxFieldKey>) -> RecordBuilderView {
    RecordBuilderView {
        is_dirty: exists|key: TxFieldKey| held.contains(key),
        id: if held.contains(TxFieldKey::Id) {
            Some(record.id)
        } else {
            None
        },
        kind: if held.contains(TxFieldKey::TxKind) {
            Some(record.kind)
        } else {
            None
        },
        from: if held.contains(TxFieldKey::FromUserId) {
            Some(record.from)
        } else {
            None
        },
        to: if held.contains(TxFieldKey::ToUserId) {
            Some(record.to)
        } else {
            None
        },
        amount: if held.contains(TxFieldKey::Amount) {
            Some(record.amount)
        } else {
            None
        },
        ts: if held.contains(TxFieldKey::Timestamp) {
            Some(record.ts)
        } else {
            None
        },
        status: if held.contains(TxFieldKey::Status) {
            Some(record.status)
        } else {
            None
        },
        description: if held.contains(TxFieldKey::Description) {
            Some(record.description)
        } else {
            None
        },
    }
}

/// The text of a field of a record can stand as the value of a line, and a builder that
/// lacks the field takes it from that text.
#[verifier::rlimit(50)]
pub proof fn lemma_field_text_fills(record: TxRecordView, held: Set<TxFieldKey>, key: TxFieldKey)
    requires
        lacks(record.description, '\n'),
        !held.contains(key),
    ensures
        is_field_text(field_text(record, key)),
        partly_filled(record, held).with_field(key, field_text(record, key)) == Ok::<
            RecordBuilderView,
            ParserErrorView,
        >(partly_filled(record, held.insert(key))),
{
    assert(held.insert(key).contains(key));
    match key {
        TxFieldKey::Id => {
            lemma_decimal_is_field_text(record.id as nat);
            lemma_u64_round_trip(record.id);
        },
        TxFieldKey::TxKind => {
            record.kind.lemma_token_is_name();
            lemma_name_is_field_text(record.kind.token());
            record.kind.lemma_token_round_trip();
        },
        TxFieldKey::FromUserId => {
            lemma_decimal_is_field_text(record.from as nat);
            lemma_u64_round_trip(record.from);
        },
        TxFieldKey::ToUserId => {
            lemma_decimal_is_field_text(record.to as nat);
            lemma_u64_round_trip(record.to);
        },
        TxFieldKey::Amount => {
            lemma_signed_decimal_is_field_text(record.amount as int);
            lemma_i64_round_trip(record.amount);
        },
        TxFieldKey::Timestamp => {
            lemma_decimal_is_field_text(record.ts as nat);
            lemma_u64_round_trip(record.ts);
        },
        TxFieldKey::Status => {
            record.status.lemma_token_is_name();
            lemma_name_is_field_text(record.status.token());
            record.status.lemma_token_round_trip();
        },
        TxFieldKey::Description => {
            lemma_quoted_is_field_text(record.description);
            lemma_unquote_quoted(record.description);
        },
    }
}

/// The line read last after the lines of `keys`.
pub open spec fn last_line_after(
    record: TxRecordView,
    keys: Seq<TxFieldKey>,
    last_line: Seq<char>,
) -> Seq<char> {
    if keys.len() == 0 {
        last_line
    } else {
        text_line(keys.last(), field_text(record, keys.last()))
    }
}

/// The lines of fields that the builder lacks, each field once, give the builder these fields.
#[verifier::rlimit(50)]
pub proof fn lemma_lines_fill(
    record: TxRecordView,
    keys: Seq<TxFieldKey>,
    held: Set<TxFieldKey>,
    tail: Seq<u8>,
    line_num: nat,
    last_line: Seq<char>,
)
    requires
        lacks(record.description, '\n'),
        keys.no_duplicates(),
        forall|i: int| 0 <= i < keys.len() ==> !held.contains(#[trigger] keys[i]),
    ensures
        parsed_text(
            text_lines_bytes(record, keys) + tail,
            line_num,
            last_line,
            partly_filled(record, held),
        ) == parsed_text(
            tail,
            line_num + keys.len(),
            last_line_after(record, keys, last_line),
            partly_filled(record, held.union(keys.to_set())),
        ),
    decreases keys.len(),
{
    if keys.len() == 0 {
        assert(text_lines_bytes(record, keys) + tail =~= tail);
        assert(held.union(keys.to_set()) =~= held);
    } else {
        let key = keys[0];
        let others = keys.drop_first();
        let value = field_text(record, key);
        lemma_field_text_fills(record, held, key);
        assert(text_lines_bytes(record, keys) + tail =~= text_line_bytes(key, value) + (
        text_lines_bytes(record, others) + tail));
        lemma_field_line_step(
            key,
            value,
            text_lines_bytes(record, others) + tail,
            line_num,
            last_line,
            partly_filled(record, held),
        );
        assert forall|i: int| 0 <= i < others.len() implies !held.insert(key).contains(
            #[trigger] others[i],
        ) by {
            assert(others[i] == keys[i + 1]);
        }
        assert(others.no_duplicates()) by {
            assert forall|i: int, j: int|
                0 <= i < others.len() && 0 <= j < others.len() && i != j implies others[i]
                != others[j] by {
                assert(others[i] == keys[i + 1] && others[j] == keys[j + 1]);
            }
        }
        lemma_lines_fill(
            record,
            others,
            held.insert(key),
            tail,
            line_num + 1,
            text_line(key, value),
        );
        assert(held.insert(key).union(others.to_set()) =~= held.union(keys.to_set())) by {
            assert forall|k: TxFieldKey| #[trigger]
                held.insert(key).union(others.to_set()).contains(k) == held.union(
                    keys.to_set(),
                ).contains(k) by {
                if others.to_set().contains(k) {
                    let i = choose|i: int| 0 <= i < others.len() && others[i] == k;
                    assert(keys[i + 1] == k);
                }
                if keys.to_set().contains(k) {
                    let i = choose|i: int| 0 <= i < keys.len() && keys[i] == k;
                    if i > 0 {
                        assert(others[i - 1] == k);
                    }
                }
            }
        }
        if others.len() > 0 {
            assert(others.last() == keys.last());
        }
    }
}

/// The fields of a record may stand in any order: their eight lines, each field once and
/// in whatever order, followed by an empty line, are read as the record.
#[verifier::rlimit(50)]
pub proof fn lemma_fields_in_any_order(
    record: TxRecordView,
    keys: Seq<TxFieldKey>,
    tail: Seq<u8>,
    line_num: nat,
    last_line: Seq<char>,
)
    requires
        lacks(record.description, '\n'),
        keys.no_duplicates(),
        forall|key: TxFieldKey| keys.contains(key),
    ensures
        parsed_text(
            text_lines_bytes(record, keys) + seq![NEWLINE] + tail,
            line_num,
            last_line,
            RecordBuilderView::empty(),
        ) == prepend_records(
            seq![record],
            parsed_text(
                tail,
                line_num + keys.len() + 1,
                Seq::empty(),
                RecordBuilderView::empty(),
            ),
        ),
{
    let none = Set::<TxFieldKey>::empty();
    let all = none.union(keys.to_set());
    assert(partly_filled(record, none) == RecordBuilderView::empty());
    assert(text_lines_bytes(record, keys) + seq![NEWLINE] + tail =~= text_lines_bytes(
        record,
        keys,
    ) + (seq![NEWLINE] + tail));
    lemma_lines_fill(record, keys, none, seq![NEWLINE] + tail, line_num, last_line);
    assert forall|key: TxFieldKey| all.contains(key) by {
        assert(keys.contains(key));
    }
    let full = partly_filled(record, all);
    assert(all.contains(TxFieldKey::Id));
    assert(full.is_dirty);
    assert(full.finalized() == Ok::<TxRecordView, ParserErrorView>(record));
    lemma_blank_line_step(
        tail,
        line_num + keys.len(),
        last_line_after(record, keys, last_line),
        full,
    );
}

/// The eight fields in the order in which they are written.
pub open spec fn field_order() -> Seq<TxFieldKey> {
    seq![
        TxFieldKey::Id,
        TxFieldKey::TxKind,
        TxFieldKey::FromUserId,
        TxFieldKey::ToUserId,
        TxFieldKey::Amount,
        TxFieldKey::Timestamp,
        TxFieldKey::Status,
        TxFieldKey::Description,
    ]
}

/// The lines written for a record are the lines of its fields in the fixed order.
#[verifier::rlimit(50)]
pub proof fn lemma_written_fields_are_in_order(record: TxRecordView)
    ensures
        text_fields_bytes(record) == text_lines_bytes(record, field_order()),
        field_order().no_duplicates(),
        forall|key: TxFieldKey| field_order().contains(key),
{
    let keys = field_order();
    let k1 = keys.drop_first();
    let k2 = k1.drop_first();
    let k3 = k2.drop_first();
    let k4 = k3.drop_first();
    let k5 = k4.drop_first();
    let k6 = k5.drop_first();
    let k7 = k6.drop_first();
    let k8 = k7.drop_first();
    assert(k8.len() == 0);
    assert(text_lines_bytes(record, k8) =~= Seq::<u8>::empty());
    assert(text_lines_bytes(record, k7) =~= text_line_bytes(
        TxFieldKey::Description,
        quoted(record.description),
    ));
    assert(text_lines_bytes(record, k6) == text_line_bytes(
        TxFieldKey::Status,
        record.status.token(),
    ) + text_lines_bytes(record, k7));
    assert(text_lines_bytes(record, k5) == text_line_bytes(
        TxFieldKey::Timestamp,
        decimal(record.ts as nat),
    ) + text_lines_bytes(record, k6));
    assert(text_lines_bytes(record, k4) == text_line_bytes(
        TxFieldKey::Amount,
        signed_decimal(record.amount as int),
    ) + text_lines_bytes(record, k5));
    assert(text_lines_bytes(record, k3) == text_line_bytes(
        TxFieldKey::ToUserId,
        decimal(record.to as nat),
    ) + text_lines_bytes(record, k4));
    assert(text_lines_bytes(record, k2) == text_line_bytes(
        TxFieldKey::FromUserId,
        decimal(record.from as nat),
    ) + text_lines_bytes(record, k3));
    assert(text_lines_bytes(record, k1) == text_line_bytes(
        TxFieldKey::TxKind,
        record.kind.token(),
    ) + text_lines_bytes(record, k2));
    assert(text_lines_bytes(record, keys) == text_line_bytes(
        TxFieldKey::Id,
        decimal(record.id as nat),
    ) + text_lines_bytes(record, k1));
    assert(text_fields_bytes(record) =~= text_lines_bytes(record, keys));
    assert forall|key: TxFieldKey| keys.contains(key) by {
        match key {
            TxFieldKey::Id => {
                assert(keys[0] == key);
            },
            TxFieldKey::TxKind => {
                assert(keys[1] == key);
            },
            TxFieldKey::FromUserId => {
                assert(keys[2] == key);
            },
            TxFieldKey::ToUserId => {
                assert(keys[3] == key);
            },
            TxFieldKey::Amount => {
                assert(keys[4] == key);
            },
            TxFieldKey::Timestamp => {
                assert(keys[5] == key);
            },
            TxFieldKey::Status => {
                assert(keys[6] == key);
            },
            TxFieldKey::Description => {
                assert(keys[7] == key);
            },
        }
    }
}

/// The text written for a record whose description holds no newline is read back as the
/// record, whatever follows it.
pub proof fn lemma_text_record_round_trip(
    record: TxRecordView,
    tail: Seq<u8>,
    line_num: nat,
    last_line: Seq<char>,
)
    requires
        lacks(record.description, '\n'),
    ensures
        parsed_text(
            text_record_bytes(record) + tail,
            line_num,
            last_line,
            RecordBuilderView::empty(),
        ) == prepend_records(
            seq![record],
            parsed_text(tail, line_num + 9, Seq::empty(), RecordBuilderView::empty()),
        ),
{
    lemma_written_fields_are_in_order(record);
    assert(text_record_bytes(record) + tail =~= text_lines_bytes(record, field_order()) + seq![
        NEWLINE,
    ] + tail);
    lemma_fields_in_any_order(record, field_order(), tail, line_num, last_line);
}

/// The text of a sequence of records is the text of the first and the text of the others.
pub proof fn lemma_text_front(records: Seq<TxRecordView>)
    requires
        records.len() > 0,
    ensures
        text_bytes(records) == text_record_bytes(records.first()) + text_bytes(
            records.drop_first(),
        ),
    decreases records.len(),
{
    if records.len() == 1 {
        assert(records.drop_last() =~= Seq::<TxRecordView>::empty());
        assert(records.drop_first() =~= Seq::<TxRecordView>::empty());
        assert(text_bytes(records) =~= text_record_bytes(records.first()) + text_bytes(
            records.drop_first(),
        ));
    } else {
        lemma_text_front(records.drop_last());
        assert(records.drop_last().drop_first() =~= records.drop_first().drop_last());
        assert(records.drop_last().first() == records.first());
        assert(records.drop_first().last() == records.last());
        assert(text_bytes(records) =~= text_record_bytes(records.first()) + text_bytes(
            records.drop_first(),
        ));
    }
}

/// Writing records whose descriptions hold no newline and parsing the text gives the same
/// records in the same order.
pub proof fn lemma_text_round_trip(records: Seq<TxRecordView>, line_num: nat, last_line: Seq<char>)
    requires
        forall|i: int| 0 <= i < records.len() ==> lacks((#[trigger] records[i]).description, '\n'),
    ensures
        parsed_text(text_bytes(records), line_num, last_line, RecordBuilderView::empty()) == Ok::<
            Seq<TxRecordView>,
            AppErrorView,
        >(records),
    decreases records.len(),
{
    if records.len() > 0 {
        let first = records.first();
        let others = records.drop_first();
        lemma_text_front(records);
        lemma_text_record_round_trip(first, text_bytes(others), line_num, last_line);
        assert forall|i: int| 0 <= i < others.len() implies lacks(
            (#[trigger] others[i]).description,
            '\n',
        ) by {
            assert(others[i] == records[i + 1]);
        }
        lemma_text_round_trip(others, line_num + 9, Seq::empty());
        assert(seq![first] + others =~= records);
    } else {
        assert(records =~= Seq::<TxRecordView>::empty());
    }
}

/// A line for a field that the open record holds already is `Duplicate`, whatever its value.
#[verifier::rlimit(50)]
pub proof fn lemma_second_occurrence_is_duplicate(
    key: TxFieldKey,
    value: Seq<char>,
    tail: Seq<u8>,
    line_num: nat,
    last_line: Seq<char>,
    builder: RecordBuilderView,
)
    requires
        is_field_text(value),
        builder.has(key),
    ensures
        parsed_text(text_line_bytes(key, value) + tail, line_num, last_line, builder) == Err::<
            Seq<TxRecordView>,
            AppErrorView,
        >(line_error(line_num + 1, text_line(key, value), ParserErrorView::Duplicate(key))),
{
    let token = key.token();
    let line = text_line(key, value);
    lemma_line_gives_field(builder, key, value);
    key.lemma_token_is_name();
    lemma_name_is_field_text(token);
    reveal_strlit(": ");
    assert(": "@ =~= seq![FIELD_KV_DELIMITER, ' ']);
    assert forall|j: int| 0 <= j < line.len() implies line[j] != '\n' by {
        if j < token.len() {
            assert(line[j] == token[j]);
        } else if j >= token.len() + 2 {
            assert(line[j] == value[j - token.len() - 2]);
        }
    }
    lemma_first_line(line, tail);
}

/// An empty line closes an open record: where a field is missing, the error names the
/// first field that is missing in the fixed order.
pub proof fn lemma_closing_reports_first_missing(
    tail: Seq<u8>,
    line_num: nat,
    last_line: Seq<char>,
    builder: RecordBuilderView,
)
    requires
        builder.is_dirty,
        builder.first_missing() is Some,
    ensures
        parsed_text(seq![NEWLINE] + tail, line_num, last_line, builder) == Err::<
            Seq<TxRecordView>,
            AppErrorView,
        >(
            line_error(
                line_num + 1,
                Seq::empty(),
                ParserErrorView::MissingField(builder.first_missing()->0),
            ),
        ),
        parsed_text(Seq::empty(), line_num, last_line, builder) == Err::<
            Seq<TxRecordView>,
            AppErrorView,
        >(
            line_error(
                line_num,
                last_line,
                ParserErrorView::MissingField(builder.first_missing()->0),
            ),
        ),
{
    let nothing = Seq::<char>::empty();
    lemma_first_line(nothing, tail);
    assert(encode_utf8(nothing) =~= Seq::<u8>::empty());
    assert(encode_utf8(nothing).push(NEWLINE) + tail =~= seq![NEWLINE] + tail);
}

/// A comment line leaves the open record as it is.
pub proof fn lemma_comment_keeps_fields(
    comment: Seq<char>,
    tail: Seq<u8>,
    line_num: nat,
    last_line: Seq<char>,
    builder: RecordBuilderView,
)
    requires
        lacks(comment, '\n'),
        comment.len() > 0 ==> comment.last() != '\r',
        trimmed(comment).len() > 0,
        trimmed(comment)[0] == COMMENT_SYMBOL_1LINE,
    ensures
        parsed_text(encode_utf8(comment).push(NEWLINE) + tail, line_num, last_line, builder)
            == parsed_text(tail, line_num + 1, comment, builder),
{
    lemma_first_line(comment, tail);
}

/// An empty line where no record is open changes nothing but the line count.
pub proof fn lemma_separator_keeps_fields(
    tail: Seq<u8>,
    line_num: nat,
    last_line: Seq<char>,
)
    ensures
        parsed_text(seq![NEWLINE] + tail, line_num, last_line, RecordBuilderView::empty())
            == parsed_text(tail, line_num + 1, Seq::empty(), RecordBuilderView::empty()),
{
    let nothing = Seq::<char>::empty();
    lemma_first_line(nothing, tail);
    assert(encode_utf8(nothing) =~= Seq::<u8>::empty());
    assert(encode_utf8(nothing).push(NEWLINE) + tail =~= seq![NEWLINE] + tail);
}

} // verus!
