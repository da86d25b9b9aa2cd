use crate::codecs::encoding::lacks;
use crate::codecs::encoding::lemma_encode_lacks;
use crate::codecs::encoding::lemma_encode_last;
use crate::codecs::errors::ParserContextView;
use crate::codecs::errors::ParserErrorView;
use crate::codecs::utils::chars_of;
use crate::codecs::utils::decode_string;
use crate::codecs::utils::find_byte;
use crate::codecs::utils::index_of;
use crate::codecs::utils::lemma_index_of;
use crate::codecs::utils::lemma_index_of_is;
use crate::errors::AppError;
use crate::errors::AppErrorView;
use crate::errors::IoFailure;
use vstd::prelude::*;
use vstd::slice::slice_subrange;
use vstd::utf8::decode_utf8;
use vstd::utf8::encode_utf8;
use vstd::utf8::encode_utf8_decode_utf8;
use vstd::utf8::encode_utf8_valid_utf8;
use vstd::utf8::valid_utf8;

verus! {

/// The byte that ends a line.
pub const NEWLINE: u8 = 0x0A;

/// The byte that may stand in front of the newline and then belongs to the line's end.
pub const CARRIAGE_RETURN: u8 = 0x0D;

/// How many bytes the first line of `rest` takes, its newline included. The last line of a
/// stream may lack the newline.
pub open spec fn line_span(rest: Seq<u8>) -> int {
    let end = index_of(rest, NEWLINE);
    if end < rest.len() {
        end + 1
    } else {
        end
    }
}

/// The bytes of the first line of `rest` without its end, which is a newline or a carriage
/// return and a newline. A carriage return at the end of a last line that lacks the newline
/// stays.
pub open spec fn line_content(rest: Seq<u8>) -> Seq<u8> {
    let end = index_of(rest, NEWLINE);
    if 0 < end < rest.len() && rest[end - 1] == CARRIAGE_RETURN {
        rest.take(end - 1)
    } else {
        rest.take(end)
    }
}

/// The error of a line that is not valid UTF-8.
pub open spec fn not_text() -> AppErrorView {
    AppErrorView::ReadError(IoFailure::InvalidData)
}

/// A parsing error of the line with number `line_num` and text `line`.
pub open spec fn line_error(line_num: nat, line: Seq<char>, source: ParserErrorView) -> AppErrorView {
    AppErrorView::ParsingError {
        context: ParserContextView::LineNumAndLine { line_num, line },
        source,
    }
}

/// One line of a stream as it was read: its text, its characters, and where the next line starts.
pub struct Line {
    /// The text of the line, without its end.
    pub text: String,
    /// The characters of the text.
    pub chars: Vec<char>,
    /// The offset of the byte behind the line's end.
    pub next: usize,
}

/// Reads the line that starts at `pos`; a read error when its bytes are not UTF-8.
pub fn read_line(r: &[u8], pos: usize) -> (res: Result<Line, AppError>)
    requires
        pos < r@.len(),
    ensures
        match res {
            Ok(line) => {
                &&& valid_utf8(line_content(r@.skip(pos as int)))
                &&& line.text@ == decode_utf8(line_content(r@.skip(pos as int)))
                &&& line.chars@ == line.text@
                &&& line.next == pos + line_span(r@.skip(pos as int))
                &&& pos < line.next <= r@.len()
            },
            Err(e) => !valid_utf8(line_content(r@.skip(pos as int))) && e@ == not_text(),
        },
{
    let ghost rest = r@.skip(pos as int);
    let end = find_byte(r, pos, NEWLINE);
    proof {
        lemma_index_of(rest, NEWLINE);
    }
    let next: usize = if end < r.len() {
        end + 1
    } else {
        end
    };
    let content_end: usize = if end < r.len() && end > pos && r[end - 1] == CARRIAGE_RETURN {
        end - 1
    } else {
        end
    };
    let content = slice_subrange(r, pos, content_end);
    proof {
        assert(content@ =~= line_content(rest));
    }
    match decode_string(content) {
        Some(text) => {
            let chars = chars_of(text.as_str());
            Ok(Line { text, chars, next })
        },
        None => Err(AppError::ReadError(IoFailure::InvalidData)),
    }
}

/// A text without a newline, written out with a newline behind it, is read back as the
/// first line of the stream, and the rest of the stream starts behind that newline. The
/// text must not end in a carriage return, which would count as part of the line's end.
pub proof fn lemma_first_line(text: Seq<char>, tail: Seq<u8>)
    requires
        lacks(text, '\n'),
        text.len() > 0 ==> text.last() != '\r',
    ensures
        ({
            let rest = encode_utf8(text).push(NEWLINE) + tail;
            &&& line_content(rest) == encode_utf8(text)
            &&& line_span(rest) == encode_utf8(text).len() + 1
            &&& rest.skip(line_span(rest)) == tail
            &&& valid_utf8(line_content(rest))
            &&& decode_utf8(line_content(rest)) == text
        }),
{
    let bytes = encode_utf8(text);
    let rest = bytes.push(NEWLINE) + tail;
    lemma_encode_lacks(text, '\n');
    assert(('\n' as u32) as u8 == NEWLINE);
    assert forall|j: int| 0 <= j < bytes.len() implies rest[j] != NEWLINE by {
        assert(rest[j] == bytes[j]);
    }
    assert(rest[bytes.len() as int] == NEWLINE);
    lemma_index_of_is(rest, NEWLINE, bytes.len() as int);
    if text.len() > 0 {
        lemma_encode_last(text, '\r');
        assert(('\r' as u32) as u8 == CARRIAGE_RETURN);
        assert(rest[bytes.len() - 1] == bytes.last());
        assert(bytes.last() != CARRIAGE_RETURN);
    } else {
        assert(bytes =~= Seq::<u8>::empty());
    }
    assert(rest.take(bytes.len() as int) =~= bytes);
    assert(rest.skip(bytes.len() as int + 1) =~= tail);
    encode_utf8_valid_utf8(text);
    encode_utf8_decode_utf8(text);
}

} // verus!
