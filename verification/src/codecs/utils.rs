use crate::codecs::errors::ParserError;
use crate::codecs::errors::ParserErrorView;
use std::string::FromUtf8Error;
use vstd::prelude::*;
use vstd::slice::slice_subrange;
use vstd::utf8::decode_utf8;
use vstd::utf8::valid_utf8;

verus! {

/// Whether `c` has the Unicode property White_Space.
pub open spec fn is_whitespace(c: char) -> bool {
    let v = c as u32;
    ||| 0x09 <= v <= 0x0D
    ||| v == 0x20
    ||| v == 0x85
    ||| v == 0xA0
    ||| v == 0x1680
    ||| 0x2000 <= v <= 0x200A
    ||| v == 0x2028
    ||| v == 0x2029
    ||| v == 0x202F
    ||| v == 0x205F
    ||| v == 0x3000
}

/// Tests a character for the Unicode property White_Space.
pub fn char_is_whitespace(c: char) -> (r: bool)
    ensures
        r == is_whitespace(c),
{
    let v: u32 = c as u32;
    (0x09 <= v && v <= 0x0D) || v == 0x20 || v == 0x85 || v == 0xA0 || v == 0x1680 || (0x2000 <= v
        && v <= 0x200A) || v == 0x2028 || v == 0x2029 || v == 0x202F || v == 0x205F || v == 0x3000
}

/// Position of the first occurrence of `x` in `s`, or the length of `s` when `x` does not occur.
pub open spec fn index_of<T>(s: Seq<T>, x: T) -> int
    decreases s.len(),
{
    if s.len() == 0 || s[0] == x {
        0
    } else {
        1 + index_of(s.drop_first(), x)
    }
}

/// `index_of` lies within the sequence, nothing before it equals `x`, and it points at `x` unless it is the length.
pub proof fn lemma_index_of<T>(s: Seq<T>, x: T)
    ensures
        0 <= index_of(s, x) <= s.len(),
        forall|j: int| 0 <= j < index_of(s, x) ==> s[j] != x,
        index_of(s, x) < s.len() ==> s[index_of(s, x)] == x,
    decreases s.len(),
{
    if s.len() == 0 || s[0] == x {
    } else {
        let rest = s.drop_first();
        lemma_index_of(rest, x);
        assert forall|j: int| 0 <= j < index_of(s, x) implies s[j] != x by {
            if j > 0 {
                assert(s[j] == rest[j - 1]);
            }
        }
    }
}

/// A position that nothing equal to `x` precedes, and that holds `x` or is the length, is `index_of`.
pub proof fn lemma_index_of_is<T>(s: Seq<T>, x: T, i: int)
    requires
        0 <= i <= s.len(),
        forall|j: int| 0 <= j < i ==> s[j] != x,
        i < s.len() ==> s[i] == x,
    ensures
        index_of(s, x) == i,
{
    lemma_index_of(s, x);
    let k = index_of(s, x);
    if k < i {
        assert(s[k] != x);
    } else if i < k {
        assert(s[i] == x);
    }
}

/// Finds the first `x` in `s` at or after `from`.
pub fn find_byte(s: &[u8], from: usize, x: u8) -> (i: usize)
    requires
        from <= s@.len(),
    ensures
        i == from + index_of(s@.skip(from as int), x),
        from <= i <= s@.len(),
{
    let mut i: usize = from;
    while i < s.len() && s[i] != x
        invariant
            from <= i <= s@.len(),
            forall|j: int| from <= j < i ==> s@[j] != x,
        decreases s@.len() - i,
    {
        i += 1;
    }
    proof {
        lemma_index_of_is(s@.skip(from as int), x, i - from);
    }
    i
}

/// Finds the first `x` in `s` at or after `from`.
pub fn find_char_from(s: &[char], from: usize, x: char) -> (i: usize)
    requires
        from <= s@.len(),
    ensures
        i == from + index_of(s@.skip(from as int), x),
        from <= i <= s@.len(),
{
    let mut i: usize = from;
    while i < s.len() && s[i] != x
        invariant
            from <= i <= s@.len(),
            forall|j: int| from <= j < i ==> s@[j] != x,
        decreases s@.len() - i,
    {
        i += 1;
    }
    proof {
        lemma_index_of_is(s@.skip(from as int), x, i - from);
    }
    i
}

/// Finds the first `x` in `s`.
pub fn find_char(s: &[char], x: char) -> (i: usize)
    ensures
        i == index_of(s@, x),
        i <= s@.len(),
{
    proof {
        assert(s@.skip(0) =~= s@);
    }
    find_char_from(s, 0, x)
}

/// The pieces of `line` between the occurrences of `sep`: one more piece than separators.
pub open spec fn split(line: Seq<char>, sep: char) -> Seq<Seq<char>>
    decreases line.len(),
    via split_decreases
{
    let at = index_of(line, sep);
    if at >= line.len() {
        seq![line]
    } else {
        seq![line.take(at)] + split(line.skip(at + 1), sep)
    }
}

#[via_fn]
proof fn split_decreases(line: Seq<char>, sep: char) {
    lemma_index_of(line, sep);
}

/// A line without the separator is one piece.
pub proof fn lemma_split_single(line: Seq<char>, sep: char)
    requires
        forall|i: int| 0 <= i < line.len() ==> line[i] != sep,
    ensures
        split(line, sep) == seq![line],
{
    lemma_index_of_is(line, sep, line.len() as int);
}

/// A line that starts with a piece without the separator and then a separator gives that
/// piece first, and then the pieces of what follows the separator.
pub proof fn lemma_split_front(piece: Seq<char>, others: Seq<char>, sep: char)
    requires
        forall|i: int| 0 <= i < piece.len() ==> piece[i] != sep,
    ensures
        split(piece + seq![sep] + others, sep) == seq![piece] + split(others, sep),
{
    let line = piece + seq![sep] + others;
    let at = piece.len() as int;
    assert forall|i: int| 0 <= i < at implies line[i] != sep by {
        assert(line[i] == piece[i]);
    }
    assert(line[at] == sep);
    lemma_index_of_is(line, sep, at);
    assert(line.take(at) =~= piece);
    assert(line.skip(at + 1) =~= others);
}

/// The trimmed pieces of `line` between the occurrences of `sep`.
pub open spec fn split_trimmed(line: Seq<char>, sep: char) -> Seq<Seq<char>> {
    Seq::new(split(line, sep).len(), |i: int| trimmed(split(line, sep)[i]))
}

/// Splits `line` at each `sep` and trims the pieces.
#[verifier::rlimit(50)]
pub fn split_and_trim<'a>(line: &'a [char], sep: char) -> (values: Vec<&'a [char]>)
    ensures
        values@.len() == split_trimmed(line@, sep).len(),
        forall|i: int| 0 <= i < values@.len() ==> (#[trigger] values@[i])@ == split_trimmed(line@, sep)[i],
{
    let mut values: Vec<&'a [char]> = Vec::new();
    let mut pos: usize = 0;
    let mut finished = false;
    let ghost mut pieces: Seq<Seq<char>> = Seq::empty();
    proof {
        assert(line@.skip(0) =~= line@);
        assert(pieces + split(line@, sep) =~= split(line@, sep));
    }
    while !finished
        invariant
            pos <= line@.len(),
            !finished ==> split(line@, sep) == pieces + split(line@.skip(pos as int), sep),
            finished ==> split(line@, sep) == pieces,
            values@.len() == pieces.len(),
            forall|i: int| 0 <= i < values@.len() ==> (#[trigger] values@[i])@ == trimmed(pieces[i]),
        decreases
                line@.len() - pos + if finished {
                    0int
                } else {
                    1int
                },
    {
        let ghost rest = line@.skip(pos as int);
        let at = find_char_from(line, pos, sep);
        let piece = slice_subrange(line, pos, at);
        proof {
            assert(piece@ =~= rest.take(at - pos));
        }
        values.push(trim(piece));
        if at >= line.len() {
            proof {
                assert(rest.take(at - pos) =~= rest);
                pieces = pieces.push(rest);
                assert(split(line@, sep) =~= pieces);
            }
            finished = true;
        } else {
            proof {
                assert(rest.skip(at - pos + 1) =~= line@.skip(at + 1));
                let old_pieces = pieces;
                pieces = pieces.push(rest.take(at - pos));
                assert(old_pieces + (seq![rest.take(at - pos)] + split(line@.skip(at + 1), sep))
                    =~= pieces + split(line@.skip(at + 1), sep));
            }
            pos = at + 1;
        }
    }
    values
}

/// `s` without its leading whitespace.
pub open spec fn trim_start(s: Seq<char>) -> Seq<char>
    decreases s.len(),
{
    if s.len() > 0 && is_whitespace(s[0]) {
        trim_start(s.drop_first())
    } else {
        s
    }
}

/// `s` without its trailing whitespace.
pub open spec fn trim_end(s: Seq<char>) -> Seq<char>
    decreases s.len(),
{
    if s.len() > 0 && is_whitespace(s.last()) {
        trim_end(s.drop_last())
    } else {
        s
    }
}

/// `s` without its leading and trailing whitespace.
pub open spec fn trimmed(s: Seq<char>) -> Seq<char> {
    trim_end(trim_start(s))
}

/// A sequence that neither starts nor ends with whitespace is its own trimmed form.
pub proof fn lemma_trimmed_fixed(s: Seq<char>)
    requires
        s.len() > 0 ==> !is_whitespace(s[0]) && !is_whitespace(s.last()),
    ensures
        trimmed(s) == s,
{
}

/// Whether `s` is not empty and neither starts nor ends with whitespace.
pub open spec fn is_solid(s: Seq<char>) -> bool {
    s.len() > 0 && !is_whitespace(s[0]) && !is_whitespace(s.last())
}

/// Whitespace in front of a sequence that starts with none is trimmed away.
pub proof fn lemma_trim_start_prefix(ws: Seq<char>, s: Seq<char>)
    requires
        forall|i: int| 0 <= i < ws.len() ==> is_whitespace(ws[i]),
        s.len() > 0 ==> !is_whitespace(s[0]),
    ensures
        trim_start(ws + s) == s,
    decreases ws.len(),
{
    if ws.len() == 0 {
        assert(ws + s =~= s);
    } else {
        assert((ws + s).drop_first() =~= ws.drop_first() + s);
        lemma_trim_start_prefix(ws.drop_first(), s);
    }
}

/// Removes leading and trailing whitespace.
#[verifier::rlimit(50)]
pub fn trim(s: &[char]) -> (r: &[char])
    ensures
        r@ == trimmed(s@),
{
    let mut start: usize = 0;
    proof {
        assert(s@.skip(0) =~= s@);
    }
    while start < s.len() && char_is_whitespace(s[start])
        invariant
            start <= s@.len(),
            trim_start(s@) == trim_start(s@.skip(start as int)),
        decreases s@.len() - start,
    {
        proof {
            assert(s@.skip(start as int).drop_first() =~= s@.skip(start as int + 1));
        }
        start += 1;
    }
    let mut end: usize = s.len();
    proof {
        assert(s@.subrange(start as int, end as int) =~= s@.skip(start as int));
    }
    while end > start && char_is_whitespace(s[end - 1])
        invariant
            start <= end <= s@.len(),
            trimmed(s@) == trim_end(s@.subrange(start as int, end as int)),
        decreases end,
    {
        proof {
            assert(s@.subrange(start as int, end as int).drop_last() =~= s@.subrange(
                start as int,
                end as int - 1,
            ));
        }
        end -= 1;
    }
    slice_subrange(s, start, end)
}

/// What stands between a leading and a trailing double quote, for a sequence that has both.
pub open spec fn unquoted(s: Seq<char>) -> Option<Seq<char>> {
    if s.len() >= 2 && s[0] == '"' && s.last() == '"' {
        Some(s.subrange(1, s.len() - 1))
    } else {
        None
    }
}

/// `s` between double quotes.
pub open spec fn quoted(s: Seq<char>) -> Seq<char> {
    seq!['"'] + s + seq!['"']
}

/// Quoting and then unquoting gives the sequence back.
pub proof fn lemma_unquote_quoted(s: Seq<char>)
    ensures
        unquoted(quoted(s)) == Some(s),
{
    assert(quoted(s).subrange(1, quoted(s).len() - 1) =~= s);
}

/// Strips the pair of double quotes around `value`; `None` when either is missing.
pub fn strip_quotes(value: &[char]) -> (r: Option<&[char]>)
    ensures
        match r {
            Some(inner) => unquoted(value@) == Some(inner@),
            None => unquoted(value@) is None,
        },
{
    let n: usize = value.len();
    if n >= 2 && value[0] == '"' && value[n - 1] == '"' {
        Some(slice_subrange(value, 1, n - 1))
    } else {
        None
    }
}

/// Strips the pair of double quotes around `value`, or fails with `ShellBeQuoted` and the value.
pub fn unquote(value: &[char]) -> (res: Result<&[char], ParserError>)
    ensures
        match res {
            Ok(inner) => unquoted(value@) == Some(inner@),
            Err(e) => unquoted(value@) is None && e@ == ParserErrorView::ShellBeQuoted(value@),
        },
{
    match strip_quotes(value) {
        Some(inner) => Ok(inner),
        None => Err(ParserError::ShellBeQuoted(string_from_chars(value))),
    }
}

/// `String::push`: appends one character to the end of the string.
#[verifier::external_body]
fn push_char(s: &mut String, c: char)
    ensures
        final(s)@ == old(s)@.push(c),
{
    s.push(c)
}

/// The error of `String::from_utf8`, which hands the rejected bytes back.
#[verifier::external_type_specification]
#[verifier::external_body]
pub struct ExFromUtf8Error(FromUtf8Error);

/// `String::from_utf8`: succeeds exactly on well-formed UTF-8 and then holds the
/// characters that the bytes encode.
#[verifier::external_body]
fn string_from_utf8(bytes: Vec<u8>) -> (r: Result<String, FromUtf8Error>)
    ensures
        r is Ok <==> valid_utf8(bytes@),
        r matches Ok(s) ==> s@ == decode_utf8(bytes@),
{
    String::from_utf8(bytes)
}

/// Decodes UTF-8 bytes into a string; `None` when the bytes are not well-formed UTF-8.
pub fn decode_string(bytes: &[u8]) -> (r: Option<String>)
    ensures
        r is Some <==> valid_utf8(bytes@),
        r matches Some(s) ==> s@ == decode_utf8(bytes@),
{
    match string_from_utf8(vstd::slice::slice_to_vec(bytes)) {
        Ok(text) => Some(text),
        Err(_) => None,
    }
}

/// Builds a string from its characters.
pub fn string_from_chars(chars: &[char]) -> (s: String)
    ensures
        s@ == chars@,
{
    let mut s = String::new();
    let mut i: usize = 0;
    while i < chars.len()
        invariant
            i <= chars@.len(),
            s@ == chars@.take(i as int),
        decreases chars@.len() - i,
    {
        push_char(&mut s, chars[i]);
        proof {
            assert(chars@.take(i as int).push(chars@[i as int]) =~= chars@.take(i as int + 1));
        }
        i += 1;
    }
    proof {
        assert(chars@.take(chars@.len() as int) =~= chars@);
    }
    s
}

/// Appends characters to a string.
pub fn append_chars(s: &mut String, chars: &[char])
    ensures
        final(s)@ == old(s)@ + chars@,
{
    let mut i: usize = 0;
    while i < chars.len()
        invariant
            i <= chars@.len(),
            s@ == old(s)@ + chars@.take(i as int),
        decreases chars@.len() - i,
    {
        push_char(s, chars[i]);
        proof {
            assert((old(s)@ + chars@.take(i as int)).push(chars@[i as int]) =~= old(s)@
                + chars@.take(i as int + 1));
        }
        i += 1;
    }
    proof {
        assert(chars@.take(chars@.len() as int) =~= chars@);
    }
}

/// The characters of a string, in order.
pub fn chars_of(s: &str) -> (out: Vec<char>)
    ensures
        out@ == s@,
{
    let mut out: Vec<char> = Vec::new();
    for c in it: s.chars()
        invariant
            out@ == it.seq().take(it.index() as int),
            it.seq() == s@,
    {
        out.push(c);
    }
    out
}

/// Whether the characters spell out `text`.
pub fn chars_equal(chars: &[char], text: &str) -> (r: bool)
    ensures
        r == (chars@ == text@),
{
    let other = chars_of(text);
    if chars.len() != other.len() {
        return false;
    }
    let mut i: usize = 0;
    while i < chars.len()
        invariant
            i <= chars@.len(),
            chars@.len() == other@.len(),
            other@ == text@,
            forall|j: int| 0 <= j < i ==> chars@[j] == other@[j],
        decreases chars@.len() - i,
    {
        if chars[i] != other[i] {
            return false;
        }
        i += 1;
    }
    proof {
        assert(chars@ =~= other@);
    }
    true
}

} // verus!
