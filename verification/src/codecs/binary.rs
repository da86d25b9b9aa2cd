use crate::codecs::base::TxFieldKey;
use crate::codecs::errors::add_parser_ctx;
use crate::codecs::errors::ParserContext;
use crate::codecs::errors::ParserContextView;
use crate::codecs::errors::ParserError;
use crate::codecs::errors::ParserErrorView;
use crate::codecs::numbers::be_bytes;
use crate::codecs::numbers::be_value;
use crate::codecs::numbers::decimal;
use crate::codecs::numbers::hex_upper;
use crate::codecs::numbers::i64_bits;
use crate::codecs::numbers::i64_from_bits;
use crate::codecs::numbers::i64_of_bits;
use crate::codecs::numbers::i64_to_bits;
use crate::codecs::numbers::lemma_be_bytes_len;
use crate::codecs::numbers::lemma_be_value_bound;
use crate::codecs::numbers::lemma_be_value_of_bytes;
use crate::codecs::numbers::lemma_pow256_values;
use crate::codecs::numbers::push_be;
use crate::codecs::numbers::read_be;
use crate::codecs::numbers::u64_to_string;
use crate::codecs::traits::DataParser;
use crate::codecs::traits::DataWriter;
use crate::codecs::utils::decode_string;
use crate::domain::tx::record_views;
use crate::domain::tx::AccountType;
use crate::domain::tx::TxIdType;
use crate::domain::tx::TxKind;
use crate::domain::tx::TxRecord;
use crate::domain::tx::TxRecordView;
use crate::domain::tx::TxStatus;
use crate::domain::tx::TxTimestamp;
use crate::errors::prepend_records;
use crate::errors::record_outcome;
use crate::errors::AppError;
use crate::errors::AppErrorView;
use crate::errors::IoFailure;
use vstd::prelude::*;
use vstd::slice::slice_subrange;
use vstd::string::StringExecFns;
use vstd::utf8::decode_utf8;
use vstd::utf8::encode_utf8;
use vstd::utf8::encode_utf8_decode_utf8;
use vstd::utf8::encode_utf8_valid_utf8;
use vstd::utf8::valid_utf8;

verus! {

/// Bytes of a frame before its body: the magic and the body length.
pub const FRAME_HEADER_SIZE: usize = 4 + 4;

/// Bytes of the fixed fields of a body: id, kind, from, to, amount, timestamp, status and
/// description length. No body is shorter.
pub const MINIMUM_RECORD_SIZE: u32 = 8 + 1 + 8 + 8 + 8 + 8 + 1 + 4;

/// The four bytes that open every frame: `YPBN`.
pub open spec fn record_magic() -> Seq<u8> {
    seq![0x59u8, 0x50u8, 0x42u8, 0x4Eu8]
}

/// The error of a stream that ends inside a frame.
pub open spec fn truncated() -> AppErrorView {
    AppErrorView::ReadError(IoFailure::UnexpectedEof)
}

/// A decoding error of one field of a body, at the offset just behind the field.
pub open spec fn field_error(position: nat, field_key: TxFieldKey, found: Seq<char>) -> AppErrorView {
    AppErrorView::ParsingError {
        context: ParserContextView::PositionAndField { position, field_key },
        source: ParserErrorView::UnparsableValue(found),
    }
}

/// The record that a frame body of at least `MINIMUM_RECORD_SIZE` bytes holds, where the
/// body starts at `offset` in the stream. The fields are decoded in order, and the first
/// one that fails decides the error: an unknown kind or status byte, a description longer
/// than the rest of the body, or description bytes that are not UTF-8. Bytes of the body
/// behind the description are ignored.
pub open spec fn decoded_body(body: Seq<u8>, offset: nat) -> Result<TxRecordView, AppErrorView> {
    let description_len = be_value(body.subrange(42, 46)) as int;
    let description = body.subrange(46, 46 + description_len);
    if TxKind::of_code(body[8]) is None {
        Err(field_error(offset + 9, TxFieldKey::TxKind, decimal(body[8] as nat)))
    } else if TxStatus::of_code(body[41]) is None {
        Err(field_error(offset + 42, TxFieldKey::Status, decimal(body[41] as nat)))
    } else if 46 + description_len > body.len() {
        Err(truncated())
    } else if !valid_utf8(description) {
        Err(
            field_error(
                (offset + 46 + description_len) as nat,
                TxFieldKey::Description,
                "non utf-8 string"@,
            ),
        )
    } else {
        Ok(
            TxRecordView {
                id: be_value(body.subrange(0, 8)) as u64,
                kind: TxKind::of_code(body[8])->0,
                from: be_value(body.subrange(9, 17)) as u64,
                to: be_value(body.subrange(17, 25)) as u64,
                amount: i64_of_bits(be_value(body.subrange(25, 33))),
                ts: be_value(body.subrange(33, 41)) as u64,
                status: TxStatus::of_code(body[41])->0,
                description: decode_utf8(description),
            },
        )
    }
}

/// What a stream of frames parses to, where `rest` is what is left of the stream from
/// byte `offset` on. An empty rest ends the sequence. Otherwise a frame must follow: four
/// magic bytes, a big-endian body length of at least `MINIMUM_RECORD_SIZE`, and a body of
/// that length. A rest that ends before any of the three is complete is a read error.
pub open spec fn parsed_frames(rest: Seq<u8>, offset: nat) -> Result<
    Seq<TxRecordView>,
    AppErrorView,
>
    decreases rest.len(),
{
    let body_len = be_value(rest.subrange(4, 8)) as int;
    if rest.len() == 0 {
        Ok(Seq::empty())
    } else if rest.len() < 4 {
        Err(truncated())
    } else if rest.subrange(0, 4) != record_magic() {
        Err(
            AppErrorView::ParsingError {
                context: ParserContextView::Position { position: offset },
                source: ParserErrorView::InvalidRecordHeader(hex_upper(rest.subrange(0, 4))),
            },
        )
    } else if rest.len() < 8 {
        Err(truncated())
    } else if body_len < MINIMUM_RECORD_SIZE {
        Err(
            AppErrorView::ParsingError {
                context: ParserContextView::Position { position: offset + 8 },
                source: ParserErrorView::IncompleteRecord,
            },
        )
    } else if rest.len() < 8 + body_len {
        Err(truncated())
    } else {
        match decoded_body(rest.subrange(8, 8 + body_len), offset + 8) {
            Err(e) => Err(e),
            Ok(record) => prepend_records(
                seq![record],
                parsed_frames(rest.skip(8 + body_len), (offset + 8 + body_len) as nat),
            ),
        }
    }
}

/// The number that the low 32 bits of `n` stand for.
pub open spec fn low_32_bits(n: nat) -> nat {
    n % 0x1_0000_0000
}

/// The body of the frame that stands for a record: the fixed fields and the description's
/// UTF-8 bytes. The description length field holds the low 32 bits of the length.
pub open spec fn body_bytes(record: TxRecordView) -> Seq<u8> {
    let description = encode_utf8(record.description);
    be_bytes(record.id as nat, 8) + seq![record.kind.code()] + be_bytes(record.from as nat, 8)
        + be_bytes(record.to as nat, 8) + be_bytes(i64_bits(record.amount), 8) + be_bytes(
        record.ts as nat,
        8,
    ) + seq![record.status.code()] + be_bytes(low_32_bits(description.len()), 4) + description
}

/// The frame that stands for a record: the magic, the low 32 bits of the body's length, the body.
pub open spec fn frame_bytes(record: TxRecordView) -> Seq<u8> {
    let body = body_bytes(record);
    record_magic() + be_bytes(low_32_bits(body.len()), 4) + body
}

/// Whether the frame of a record can state the length of its body, which has to fit in 32 bits.
pub open spec fn fits_frame(record: TxRecordView) -> bool {
    MINIMUM_RECORD_SIZE + encode_utf8(record.description).len() <= u32::MAX
}

/// A body is as long as its fixed fields and the description's UTF-8 bytes together.
pub proof fn lemma_body_len(record: TxRecordView)
    ensures
        body_bytes(record).len() == MINIMUM_RECORD_SIZE + encode_utf8(record.description).len(),
{
    lemma_be_bytes_len(record.id as nat, 8);
    lemma_be_bytes_len(record.from as nat, 8);
    lemma_be_bytes_len(record.to as nat, 8);
    lemma_be_bytes_len(i64_bits(record.amount), 8);
    lemma_be_bytes_len(record.ts as nat, 8);
    lemma_be_bytes_len(low_32_bits(encode_utf8(record.description).len()), 4);
}

/// Decoding the body written for a record gives the record back, wherever the body stands.
#[verifier::rlimit(50)]
pub proof fn lemma_body_round_trip(record: TxRecordView, offset: nat)
    requires
        fits_frame(record),
    ensures
        decoded_body(body_bytes(record), offset) == Ok::<TxRecordView, AppErrorView>(record),
{
    let description = encode_utf8(record.description);
    let body = body_bytes(record);
    lemma_body_len(record);
    lemma_be_bytes_len(record.id as nat, 8);
    lemma_be_bytes_len(record.from as nat, 8);
    lemma_be_bytes_len(record.to as nat, 8);
    lemma_be_bytes_len(i64_bits(record.amount), 8);
    lemma_be_bytes_len(record.ts as nat, 8);
    lemma_be_bytes_len(low_32_bits(description.len()), 4);
    lemma_pow256_values();
    assert(body.subrange(0, 8) =~= be_bytes(record.id as nat, 8));
    assert(body[8] == record.kind.code());
    assert(body.subrange(9, 17) =~= be_bytes(record.from as nat, 8));
    assert(body.subrange(17, 25) =~= be_bytes(record.to as nat, 8));
    assert(body.subrange(25, 33) =~= be_bytes(i64_bits(record.amount), 8));
    assert(body.subrange(33, 41) =~= be_bytes(record.ts as nat, 8));
    assert(body[41] == record.status.code());
    assert(body.subrange(42, 46) =~= be_bytes(low_32_bits(description.len()), 4));
    lemma_be_value_of_bytes(record.id as nat, 8);
    lemma_be_value_of_bytes(record.from as nat, 8);
    lemma_be_value_of_bytes(record.to as nat, 8);
    lemma_be_value_of_bytes(i64_bits(record.amount), 8);
    lemma_be_value_of_bytes(record.ts as nat, 8);
    lemma_be_value_of_bytes(low_32_bits(description.len()), 4);
    assert(body.subrange(46, 46 + description.len() as int) =~= description);
    encode_utf8_valid_utf8(record.description);
    encode_utf8_decode_utf8(record.description);
    assert(i64_of_bits(i64_bits(record.amount)) == record.amount);
}

/// A stream that starts with the frame written for a record parses to that record and
/// then to what the rest of the stream parses to.
#[verifier::rlimit(50)]
pub proof fn lemma_frame_round_trip(record: TxRecordView, tail: Seq<u8>, offset: nat)
    requires
        fits_frame(record),
    ensures
        parsed_frames(frame_bytes(record) + tail, offset) == prepend_records(
            seq![record],
            parsed_frames(tail, offset + frame_bytes(record).len()),
        ),
{
    let body = body_bytes(record);
    let rest = frame_bytes(record) + tail;
    lemma_body_len(record);
    lemma_be_bytes_len(low_32_bits(body.len()), 4);
    lemma_pow256_values();
    lemma_be_value_of_bytes(low_32_bits(body.len()), 4);
    assert(rest.subrange(0, 4) =~= record_magic());
    assert(rest.subrange(4, 8) =~= be_bytes(low_32_bits(body.len()), 4));
    assert(rest.subrange(8, 8 + body.len() as int) =~= body);
    assert(rest.skip(8 + body.len() as int) =~= tail);
    lemma_body_round_trip(record, offset + 8);
}

/// The frames of a sequence of records are the frame of the first and the frames of the others.
pub proof fn lemma_frames_front(records: Seq<TxRecordView>)
    requires
        records.len() > 0,
    ensures
        frames_bytes(records) == frame_bytes(records.first()) + frames_bytes(records.drop_first()),
    decreases records.len(),
{
    if records.len() == 1 {
        assert(records.drop_last() =~= Seq::<TxRecordView>::empty());
        assert(records.drop_first() =~= Seq::<TxRecordView>::empty());
        assert(frames_bytes(records) =~= frame_bytes(records.first()) + frames_bytes(
            records.drop_first(),
        ));
    } else {
        lemma_frames_front(records.drop_last());
        assert(records.drop_last().drop_first() =~= records.drop_first().drop_last());
        assert(records.drop_last().first() == records.first());
        assert(records.drop_first().last() == records.last());
        assert(frames_bytes(records) =~= frame_bytes(records.first()) + frames_bytes(
            records.drop_first(),
        ));
    }
}

/// Writing records whose frames can state their lengths and parsing the bytes gives the
/// same records in the same order, wherever in a stream the frames start.
pub proof fn lemma_frames_round_trip(records: Seq<TxRecordView>, offset: nat)
    requires
        forall|i: int| 0 <= i < records.len() ==> fits_frame(#[trigger] records[i]),
    ensures
        parsed_frames(frames_bytes(records), offset) == Ok::<Seq<TxRecordView>, AppErrorView>(
            records,
        ),
    decreases records.len(),
{
    if records.len() > 0 {
        let first = records.first();
        let others = records.drop_first();
        lemma_frames_front(records);
        lemma_frame_round_trip(first, frames_bytes(others), offset);
        assert forall|i: int| 0 <= i < others.len() implies fits_frame(#[trigger] others[i]) by {
            assert(others[i] == records[i + 1]);
        }
        lemma_frames_round_trip(others, offset + frame_bytes(first).len());
        assert(seq![first] + others =~= records);
    } else {
        assert(records =~= Seq::<TxRecordView>::empty());
    }
}

/// The frames of the records, one after the other.
pub open spec fn frames_bytes(records: Seq<TxRecordView>) -> Seq<u8>
    decreases records.len(),
{
    if records.len() == 0 {
        Seq::empty()
    } else {
        frames_bytes(records.drop_last()) + frame_bytes(records.last())
    }
}

/// A frame that is cut off anywhere inside is a read error, wherever it stands.
#[verifier::rlimit(50)]
pub proof fn lemma_cut_frame_is_read_error(record: TxRecordView, cut: int, offset: nat)
    requires
        fits_frame(record),
        0 < cut < frame_bytes(record).len(),
    ensures
        parsed_frames(frame_bytes(record).take(cut), offset) == Err::<
            Seq<TxRecordView>,
            AppErrorView,
        >(truncated()),
{
    let body = body_bytes(record);
    let rest = frame_bytes(record).take(cut);
    lemma_body_len(record);
    lemma_be_bytes_len(low_32_bits(body.len()), 4);
    lemma_pow256_values();
    lemma_be_value_of_bytes(low_32_bits(body.len()), 4);
    if cut >= 4 {
        assert(rest.subrange(0, 4) =~= record_magic());
    }
    if cut >= 8 {
        assert(rest.subrange(4, 8) =~= be_bytes(low_32_bits(body.len()), 4));
    }
}

/// A stream of whole frames that ends inside one more frame is a transport read error,
/// never a parsing error and never a shorter sequence of records.
#[verifier::rlimit(50)]
pub proof fn lemma_truncated_stream_is_read_error(
    records: Seq<TxRecordView>,
    last: TxRecordView,
    cut: int,
    offset: nat,
)
    requires
        forall|i: int| 0 <= i < records.len() ==> fits_frame(#[trigger] records[i]),
        fits_frame(last),
        0 < cut < frame_bytes(last).len(),
    ensures
        parsed_frames(frames_bytes(records) + frame_bytes(last).take(cut), offset) == Err::<
            Seq<TxRecordView>,
            AppErrorView,
        >(truncated()),
    decreases records.len(),
{
    let partial = frame_bytes(last).take(cut);
    if records.len() == 0 {
        assert(frames_bytes(records) + partial =~= partial);
        lemma_cut_frame_is_read_error(last, cut, offset);
    } else {
        let first = records.first();
        let others = records.drop_first();
        lemma_frames_front(records);
        assert(frames_bytes(records) + partial =~= frame_bytes(first) + (frames_bytes(others)
            + partial));
        lemma_frame_round_trip(first, frames_bytes(others) + partial, offset);
        assert forall|i: int| 0 <= i < others.len() implies fits_frame(#[trigger] others[i]) by {
            assert(others[i] == records[i + 1]);
        }
        lemma_truncated_stream_is_read_error(
            others,
            last,
            cut,
            offset + frame_bytes(first).len(),
        );
    }
}

/// A frame whose length field states less than the fixed fields take is `IncompleteRecord`,
/// whatever follows the field.
pub proof fn lemma_short_body_is_incomplete(rest: Seq<u8>, offset: nat)
    requires
        rest.len() >= 8,
        rest.subrange(0, 4) == record_magic(),
        be_value(rest.subrange(4, 8)) < MINIMUM_RECORD_SIZE,
    ensures
        parsed_frames(rest, offset) == Err::<Seq<TxRecordView>, AppErrorView>(
            AppErrorView::ParsingError {
                context: ParserContextView::Position { position: offset + 8 },
                source: ParserErrorView::IncompleteRecord,
            },
        ),
{
}

/// A body whose kind byte is none of the three codes is `UnparsableValue` for the kind.
pub proof fn lemma_unknown_kind_is_unparsable(body: Seq<u8>, offset: nat)
    requires
        body.len() >= MINIMUM_RECORD_SIZE,
        body[8] > 2,
    ensures
        decoded_body(body, offset) == Err::<TxRecordView, AppErrorView>(
            field_error(offset + 9, TxFieldKey::TxKind, decimal(body[8] as nat)),
        ),
{
}

/// A body with a known kind whose status byte is none of the three codes is
/// `UnparsableValue` for the status.
pub proof fn lemma_unknown_status_is_unparsable(body: Seq<u8>, offset: nat)
    requires
        body.len() >= MINIMUM_RECORD_SIZE,
        body[8] <= 2,
        body[41] > 2,
    ensures
        decoded_body(body, offset) == Err::<TxRecordView, AppErrorView>(
            field_error(offset + 42, TxFieldKey::Status, decimal(body[41] as nat)),
        ),
{
}

/// A body with known kind and status whose description lies within the body and is not
/// UTF-8 is `UnparsableValue` for the description.
pub proof fn lemma_non_utf8_description_is_unparsable(body: Seq<u8>, offset: nat)
    requires
        body.len() >= MINIMUM_RECORD_SIZE,
        body[8] <= 2,
        body[41] <= 2,
        46 + be_value(body.subrange(42, 46)) <= body.len(),
        !valid_utf8(body.subrange(46, 46 + be_value(body.subrange(42, 46)) as int)),
    ensures
        decoded_body(body, offset) == Err::<TxRecordView, AppErrorView>(
            field_error(
                offset + 46 + be_value(body.subrange(42, 46)),
                TxFieldKey::Description,
                "non utf-8 string"@,
            ),
        ),
{
}

/// An error of a body is the error of the stream that holds the body in a whole frame.
pub proof fn lemma_body_error_is_stream_error(rest: Seq<u8>, offset: nat)
    requires
        rest.len() >= 8,
        rest.subrange(0, 4) == record_magic(),
        be_value(rest.subrange(4, 8)) >= MINIMUM_RECORD_SIZE,
        rest.len() >= 8 + be_value(rest.subrange(4, 8)),
        decoded_body(rest.subrange(8, 8 + be_value(rest.subrange(4, 8)) as int), offset + 8) is Err,
    ensures
        parsed_frames(rest, offset) matches Err(e) && Err::<TxRecordView, AppErrorView>(e)
            == decoded_body(
            rest.subrange(8, 8 + be_value(rest.subrange(4, 8)) as int),
            offset + 8,
        ),
{
}

/// An empty stream parses to no records.
pub proof fn lemma_empty_stream_has_no_records(offset: nat)
    ensures
        parsed_frames(Seq::<u8>::empty(), offset) == Ok::<Seq<TxRecordView>, AppErrorView>(
            Seq::empty(),
        ),
{
}

/// Codec of the binary frame format.
#[derive(Default)]
pub struct BinaryCodec {}

impl BinaryCodec {
    /// Writes bytes as upper-case hexadecimal, two digits each.
    pub fn bytes_to_hex(&self, bytes: &[u8]) -> (s: String)
        ensures
            s@ == hex_upper(bytes@),
    {
        crate::codecs::numbers::bytes_to_hex(bytes)
    }

    /// Reads the four bytes at `at` as a big-endian number; a read error when fewer are left.
    pub fn read_u32_be(&self, r: &[u8], at: usize) -> (res: Result<u32, AppError>)
        ensures
            match res {
                Ok(value) => at + 4 <= r@.len() && value == be_value(r@.subrange(at as int, at + 4)),
                Err(e) => at + 4 > r@.len() && e@ == truncated(),
            },
    {
        if at > r.len() || r.len() - at < 4 {
            return Err(AppError::ReadError(IoFailure::UnexpectedEof));
        }
        proof {
            lemma_be_value_bound(r@.subrange(at as int, at + 4));
            lemma_pow256_values();
        }
        Ok(read_be(r, at, 4) as u32)
    }

    /// Reads the eight bytes at `at` as a big-endian number; a read error when fewer are left.
    pub fn read_u64_be(&self, r: &[u8], at: usize) -> (res: Result<u64, AppError>)
        ensures
            match res {
                Ok(value) => at + 8 <= r@.len() && value == be_value(r@.subrange(at as int, at + 8)),
                Err(e) => at + 8 > r@.len() && e@ == truncated(),
            },
    {
        if at > r.len() || r.len() - at < 8 {
            return Err(AppError::ReadError(IoFailure::UnexpectedEof));
        }
        Ok(read_be(r, at, 8))
    }

    /// Reads the eight bytes at `at` as a big-endian number in two's complement; a read
    /// error when fewer are left.
    pub fn read_i64_be(&self, r: &[u8], at: usize) -> (res: Result<i64, AppError>)
        ensures
            match res {
                Ok(value) => at + 8 <= r@.len() && value == i64_of_bits(
                    be_value(r@.subrange(at as int, at + 8)),
                ),
                Err(e) => at + 8 > r@.len() && e@ == truncated(),
            },
    {
        if at > r.len() || r.len() - at < 8 {
            return Err(AppError::ReadError(IoFailure::UnexpectedEof));
        }
        Ok(i64_from_bits(read_be(r, at, 8)))
    }

    /// Appends the four bytes of `v`, most significant first.
    pub fn write_u32_be(&self, w: &mut Vec<u8>, v: u32) -> (res: Result<(), AppError>)
        ensures
            res is Ok,
            final(w)@ == old(w)@ + be_bytes(v as nat, 4),
    {
        push_be(w, v as u64, 4);
        Ok(())
    }

    /// Appends the eight bytes of `v`, most significant first.
    pub fn write_u64_be(&self, w: &mut Vec<u8>, v: u64) -> (res: Result<(), AppError>)
        ensures
            res is Ok,
            final(w)@ == old(w)@ + be_bytes(v as nat, 8),
    {
        push_be(w, v, 8);
        Ok(())
    }

    /// Appends the eight bytes of `v` in two's complement, most significant first.
    pub fn write_i64_be(&self, w: &mut Vec<u8>, v: i64) -> (res: Result<(), AppError>)
        ensures
            res is Ok,
            final(w)@ == old(w)@ + be_bytes(i64_bits(v), 8),
    {
        push_be(w, i64_to_bits(v), 8);
        Ok(())
    }

    /// The kind with byte code `v`, or `UnparsableValue` with the decimal form of the byte.
    pub fn parse_kind_from_u8(&self, v: u8) -> (res: Result<TxKind, ParserError>)
        ensures
            match res {
                Ok(kind) => TxKind::of_code(v) == Some(kind),
                Err(e) => TxKind::of_code(v) is None && e@ == ParserErrorView::UnparsableValue(
                    decimal(v as nat),
                ),
            },
    {
        match v {
            0 => Ok(TxKind::Deposit),
            1 => Ok(TxKind::Transfer),
            2 => Ok(TxKind::Withdrawal),
            _ => Err(ParserError::UnparsableValue(u64_to_string(v as u64))),
        }
    }

    /// The byte code of a kind.
    pub fn kind_to_u8(&self, v: TxKind) -> (code: u8)
        ensures
            code == v.code(),
            TxKind::of_code(code) == Some(v),
    {
        match v {
            TxKind::Deposit => 0,
            TxKind::Transfer => 1,
            TxKind::Withdrawal => 2,
        }
    }

    /// The status with byte code `v`, or `UnparsableValue` with the decimal form of the byte.
    pub fn parse_status_from_u8(&self, v: u8) -> (res: Result<TxStatus, ParserError>)
        ensures
            match res {
                Ok(status) => TxStatus::of_code(v) == Some(status),
                Err(e) => TxStatus::of_code(v) is None && e@ == ParserErrorView::UnparsableValue(
                    decimal(v as nat),
                ),
            },
    {
        match v {
            0 => Ok(TxStatus::Success),
            1 => Ok(TxStatus::Failure),
            2 => Ok(TxStatus::Pending),
            _ => Err(ParserError::UnparsableValue(u64_to_string(v as u64))),
        }
    }

    /// The byte code of a status.
    pub fn status_to_u8(&self, v: TxStatus) -> (code: u8)
        ensures
            code == v.code(),
            TxStatus::of_code(code) == Some(v),
    {
        match v {
            TxStatus::Success => 0,
            TxStatus::Failure => 1,
            TxStatus::Pending => 2,
        }
    }

    /// Whether the four bytes at `at` are the frame magic.
    fn is_magic(&self, r: &[u8], at: usize) -> (found: bool)
        requires
            at + 4 <= r@.len(),
        ensures
            found == (r@.subrange(at as int, at + 4) == record_magic()),
    {
        let found = r[at] == 0x59 && r[at + 1] == 0x50 && r[at + 2] == 0x42 && r[at + 3] == 0x4E;
        proof {
            let candidate = r@.subrange(at as int, at + 4);
            assert(candidate[0] == r@[at as int]);
            assert(candidate[1] == r@[at + 1]);
            assert(candidate[2] == r@[at + 2]);
            assert(candidate[3] == r@[at + 3]);
            if found {
                assert(candidate =~= record_magic());
            }
        }
        found
    }

    /// Decodes the fields of a frame body that starts at `offset` in the stream.
    #[verifier::rlimit(50)]
    fn decode_body(&self, body: &[u8], offset: usize) -> (res: Result<TxRecord, AppError>)
        requires
            body@.len() >= MINIMUM_RECORD_SIZE,
            offset + body@.len() <= usize::MAX,
        ensures
            record_outcome(res) == decoded_body(body@, offset as nat),
    {
        let tx_id = self.read_u64_be(body, 0)?;
        let tx_kind = add_parser_ctx(
            self.parse_kind_from_u8(body[8]),
            ParserContext::with_position_and_field_key(offset + 9, TxFieldKey::TxKind),
        )?;
        let from = self.read_u64_be(body, 9)?;
        let to = self.read_u64_be(body, 17)?;
        let amount = self.read_i64_be(body, 25)?;
        let ts = TxTimestamp::from_millis(self.read_u64_be(body, 33)?);
        let status = add_parser_ctx(
            self.parse_status_from_u8(body[41]),
            ParserContext::with_position_and_field_key(offset + 42, TxFieldKey::Status),
        )?;
        let desc_len = self.read_u32_be(body, 42)? as usize;
        if body.len() - 46 < desc_len {
            return Err(AppError::ReadError(IoFailure::UnexpectedEof));
        }
        let description = match decode_string(slice_subrange(body, 46, 46 + desc_len)) {
            Some(text) => text,
            None => {
                return Err(
                    AppError::ParsingError {
                        context: ParserContext::with_position_and_field_key(
                            offset + 46 + desc_len,
                            TxFieldKey::Description,
                        ),
                        source: ParserError::UnparsableValue(String::from_str("non utf-8 string")),
                    },
                );
            },
        };
        Ok(
            TxRecord {
                id: TxIdType(tx_id),
                kind: tx_kind,
                from: AccountType(from),
                to: AccountType(to),
                amount,
                ts,
                status,
                description,
            },
        )
    }

    /// Appends the body of the frame of one record.
    #[verifier::rlimit(50)]
    pub fn write_body(&self, w: &mut Vec<u8>, rec: &TxRecord)
        ensures
            final(w)@ == old(w)@ + body_bytes(rec@),
    {
        let desc_bytes = rec.description.as_str().as_bytes();
        let desc_len: u64 = desc_bytes.len() as u64 % 0x1_0000_0000;
        let ghost record = rec@;
        let ghost description = encode_utf8(record.description);
        let ghost mut body: Seq<u8> = Seq::empty();
        proof {
            assert(w@ =~= old(w)@ + body);
        }
        push_be(w, rec.id.0, 8);
        proof {
            body = body + be_bytes(record.id as nat, 8);
            assert(w@ =~= old(w)@ + body);
        }
        w.push(self.kind_to_u8(rec.kind));
        proof {
            body = body + seq![record.kind.code()];
            assert(w@ =~= old(w)@ + body);
        }
        push_be(w, rec.from.0, 8);
        proof {
            body = body + be_bytes(record.from as nat, 8);
            assert(w@ =~= old(w)@ + body);
        }
        push_be(w, rec.to.0, 8);
        proof {
            body = body + be_bytes(record.to as nat, 8);
            assert(w@ =~= old(w)@ + body);
        }
        push_be(w, i64_to_bits(rec.amount), 8);
        proof {
            body = body + be_bytes(i64_bits(record.amount), 8);
            assert(w@ =~= old(w)@ + body);
        }
        push_be(w, rec.ts.millis(), 8);
        proof {
            body = body + be_bytes(record.ts as nat, 8);
            assert(w@ =~= old(w)@ + body);
        }
        w.push(self.status_to_u8(rec.status));
        proof {
            body = body + seq![record.status.code()];
            assert(w@ =~= old(w)@ + body);
        }
        push_be(w, desc_len, 4);
        proof {
            body = body + be_bytes(low_32_bits(description.len()), 4);
            assert(w@ =~= old(w)@ + body);
        }
        let ghost before = w@;
        w.extend_from_slice(desc_bytes);
        proof {
            assert(w@ =~= before + description);
            body = body + description;
            assert(w@ =~= old(w)@ + body);
            assert(body == body_bytes(record));
        }
    }

    /// Appends the frame of one record.
    pub fn write_frame(&self, w: &mut Vec<u8>, rec: &TxRecord)
        ensures
            final(w)@ == old(w)@ + frame_bytes(rec@),
    {
        let desc_len: usize = rec.description.as_str().as_bytes().len();
        let record_len: u64 = ((desc_len as u128 + MINIMUM_RECORD_SIZE as u128)
            % 0x1_0000_0000) as u64;
        proof {
            lemma_body_len(rec@);
        }
        w.push(0x59);
        w.push(0x50);
        w.push(0x42);
        w.push(0x4E);
        proof {
            assert(w@ =~= old(w)@ + record_magic());
        }
        push_be(w, record_len, 4);
        self.write_body(w, rec);
        proof {
            assert(w@ =~= old(w)@ + frame_bytes(rec@));
        }
    }
}

impl DataParser for BinaryCodec {
    open spec fn parsed(&self, bytes: Seq<u8>) -> Result<Seq<TxRecordView>, AppErrorView> {
        parsed_frames(bytes, 0)
    }

    #[verifier::rlimit(50)]
    fn parse(&self, r: &[u8]) -> (res: Result<Vec<TxRecord>, AppError>) {
        let mut pos: usize = 0;
        let mut result: Vec<TxRecord> = Vec::new();
        let n: usize = r.len();
        proof {
            assert(r@.skip(0) =~= r@);
        }
        while pos < n
            invariant
                pos <= n == r@.len(),
                parsed_frames(r@, 0) == prepend_records(
                    record_views(result@),
                    parsed_frames(r@.skip(pos as int), pos as nat),
                ),
            decreases n - pos,
        {
            let ghost rest = r@.skip(pos as int);
            let ghost done = record_views(result@);
            if n - pos < 4 {
                return Err(AppError::ReadError(IoFailure::UnexpectedEof));
            }
            proof {
                assert(rest.subrange(0, 4) =~= r@.subrange(pos as int, pos + 4));
            }
            if !self.is_magic(r, pos) {
                let found = self.bytes_to_hex(slice_subrange(r, pos, pos + 4));
                return add_parser_ctx(
                    Err(ParserError::InvalidRecordHeader(found)),
                    ParserContext::with_position(pos),
                );
            }
            proof {
                if pos + 8 <= n {
                    assert(rest.subrange(4, 8) =~= r@.subrange(pos + 4, pos + 4 + 4));
                }
            }
            let record_size = self.read_u32_be(r, pos + 4)?;
            if MINIMUM_RECORD_SIZE > record_size {
                return add_parser_ctx(
                    Err(ParserError::IncompleteRecord),
                    ParserContext::with_position(pos + 8),
                );
            }
            let body_len: usize = record_size as usize;
            if n - (pos + 8) < body_len {
                return Err(AppError::ReadError(IoFailure::UnexpectedEof));
            }
            let body = slice_subrange(r, pos + 8, pos + 8 + body_len);
            proof {
                assert(rest.subrange(8, 8 + body_len) =~= body@);
                assert(rest.skip(8 + body_len) =~= r@.skip(pos + 8 + body_len));
            }
            let record = self.decode_body(body, pos + 8)?;
            proof {
                assert(record_views(result@.push(record)) =~= done + seq![record@]);
                match parsed_frames(r@.skip(pos + 8 + body_len), (pos + 8 + body_len) as nat) {
                    Ok(more) => {
                        assert(done + (seq![record@] + more) =~= (done + seq![record@]) + more);
                    },
                    Err(_) => {},
                }
            }
            result.push(record);
            pos = pos + 8 + body_len;
        }
        proof {
            assert(record_views(result@) + Seq::<TxRecordView>::empty() =~= record_views(result@));
        }
        Ok(result)
    }
}

impl DataWriter for BinaryCodec {
    open spec fn written(&self, records: Seq<TxRecordView>) -> Seq<u8> {
        frames_bytes(records)
    }

    fn write(&self, w: &mut Vec<u8>, data: &[TxRecord]) -> (res: Result<(), AppError>) {
        let mut i: usize = 0;
        proof {
            assert(w@ =~= old(w)@ + frames_bytes(record_views(data@.take(0))));
        }
        while i < data.len()
            invariant
                i <= data@.len(),
                w@ == old(w)@ + frames_bytes(record_views(data@.take(i as int))),
            decreases data@.len() - i,
        {
            self.write_frame(w, &data[i]);
            proof {
                let next = record_views(data@.take(i + 1));
                assert(next.drop_last() =~= record_views(data@.take(i as int)));
                assert(next.last() == data@[i as int]@);
                assert(w@ =~= old(w)@ + frames_bytes(next));
            }
            i += 1;
        }
        proof {
            assert(data@.take(data@.len() as int) =~= data@);
        }
        Ok(())
    }
}

} // verus!
