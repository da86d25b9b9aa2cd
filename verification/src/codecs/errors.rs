use crate::codecs::base::TxFieldKey;
use crate::codecs::numbers::append_u64;
use crate::codecs::numbers::decimal;
use crate::codecs::numbers::NumberFault;
use crate::errors::AppError;
use vstd::prelude::*;
use vstd::string::StringExecFns;

verus! {

/// Parser-level errors before they are wrapped into [`AppError`].
#[derive(Debug)]
pub enum ParserError {
    /// Required field is missing in the record.
    MissingField(TxFieldKey),
    /// Unknown field key was met in input.
    UnparsableKey(String),
    /// Field value cannot be parsed into expected type.
    UnparsableValue(String),
    /// Same field was provided more than one time.
    Duplicate(TxFieldKey),
    /// Key-value delimiter is absent in text line.
    NoFieldDelimiter,
    /// String value expected to be wrapped in double quotes.
    ShellBeQuoted(String),
    /// File header is invalid for current format.
    InvalidFileHeader,
    /// Record header signature is invalid.
    InvalidRecordHeader(String),
    /// Record does not have all required fields.
    IncompleteRecord,
}

/// The mathematical value of a [`ParserError`].
pub enum ParserErrorView {
    MissingField(TxFieldKey),
    UnparsableKey(Seq<char>),
    UnparsableValue(Seq<char>),
    Duplicate(TxFieldKey),
    NoFieldDelimiter,
    ShellBeQuoted(Seq<char>),
    InvalidFileHeader,
    InvalidRecordHeader(Seq<char>),
    IncompleteRecord,
}

impl View for ParserError {
    type V = ParserErrorView;

    open spec fn view(&self) -> ParserErrorView {
        match self {
            ParserError::MissingField(key) => ParserErrorView::MissingField(*key),
            ParserError::UnparsableKey(name) => ParserErrorView::UnparsableKey(name@),
            ParserError::UnparsableValue(value) => ParserErrorView::UnparsableValue(value@),
            ParserError::Duplicate(key) => ParserErrorView::Duplicate(*key),
            ParserError::NoFieldDelimiter => ParserErrorView::NoFieldDelimiter,
            ParserError::ShellBeQuoted(text) => ParserErrorView::ShellBeQuoted(text@),
            ParserError::InvalidFileHeader => ParserErrorView::InvalidFileHeader,
            ParserError::InvalidRecordHeader(found) => ParserErrorView::InvalidRecordHeader(found@),
            ParserError::IncompleteRecord => ParserErrorView::IncompleteRecord,
        }
    }
}

/// What `Debug` prints for a string: the text between double quotes, with its escapes.
pub uninterp spec fn debug_form(text: Seq<char>) -> Seq<char>;

/// Formats a string with `{:?}`, that is through `<str as Debug>::fmt`.
#[verifier::external_body]
fn debug_string(text: &str) -> (r: String)
    ensures
        r@ == debug_form(text@),
{
    format!("{:?}", text)
}

impl ParserErrorView {
    /// The message that describes the error.
    pub open spec fn message(self) -> Seq<char> {
        match self {
            ParserErrorView::MissingField(key) => "required field "@ + key.token()
                + " is missing"@,
            ParserErrorView::UnparsableKey(name) => "unknown key "@ + name,
            ParserErrorView::UnparsableValue(value) => "value "@ + value + " can't be parsed"@,
            ParserErrorView::ShellBeQuoted(text) => "string ->"@ + text
                + "<- shall be double quoted"@,
            ParserErrorView::Duplicate(key) => "field "@ + key.token() + " has duplicate"@,
            ParserErrorView::NoFieldDelimiter => "key-value delimiter is expected"@,
            ParserErrorView::InvalidFileHeader => "invalid file header"@,
            ParserErrorView::IncompleteRecord =>
                "incomplete record (doesn't have all required fields)"@,
            ParserErrorView::InvalidRecordHeader(found) => "invalid record header "@ + debug_form(
                found,
            ),
        }
    }
}

impl ParserError {
    /// The message that describes the error.
    pub fn to_string(&self) -> (s: String)
        ensures
            s@ == self@.message(),
    {
        match self {
            ParserError::MissingField(key) => {
                let mut s = String::from_str("required field ");
                s.append(key.to_string().as_str());
                s.append(" is missing");
                s
            },
            ParserError::UnparsableKey(name) => {
                let mut s = String::from_str("unknown key ");
                s.append(name.as_str());
                s
            },
            ParserError::UnparsableValue(value) => {
                let mut s = String::from_str("value ");
                s.append(value.as_str());
                s.append(" can't be parsed");
                s
            },
            ParserError::ShellBeQuoted(text) => {
                let mut s = String::from_str("string ->");
                s.append(text.as_str());
                s.append("<- shall be double quoted");
                s
            },
            ParserError::Duplicate(key) => {
                let mut s = String::from_str("field ");
                s.append(key.to_string().as_str());
                s.append(" has duplicate");
                s
            },
            ParserError::NoFieldDelimiter => String::from_str("key-value delimiter is expected"),
            ParserError::InvalidFileHeader => String::from_str("invalid file header"),
            ParserError::IncompleteRecord => String::from_str(
                "incomplete record (doesn't have all required fields)",
            ),
            ParserError::InvalidRecordHeader(found) => {
                let mut s = String::from_str("invalid record header ");
                s.append(debug_string(found.as_str()).as_str());
                s
            },
        }
    }

    /// The error for text that is not the decimal form of a number: the fault's wording as the value.
    pub fn from_number_fault(fault: NumberFault) -> (e: ParserError)
        ensures
            e@ == ParserErrorView::UnparsableValue(fault.message()),
    {
        ParserError::UnparsableValue(fault.to_string())
    }
}

/// Additional context attached to parser errors.
#[derive(Debug)]
pub enum ParserContext {
    /// A line of a line-oriented format: its number and its text as read.
    LineNumAndLine { line_num: usize, line: String },
    /// A byte offset in a binary stream.
    Position { position: usize },
    /// A byte offset in a binary stream, and the field that was being decoded there.
    PositionAndField { position: usize, field_key: TxFieldKey },
}

/// The mathematical value of a [`ParserContext`].
pub enum ParserContextView {
    LineNumAndLine { line_num: nat, line: Seq<char> },
    Position { position: nat },
    PositionAndField { position: nat, field_key: TxFieldKey },
}

impl View for ParserContext {
    type V = ParserContextView;

    open spec fn view(&self) -> ParserContextView {
        match self {
            ParserContext::LineNumAndLine { line_num, line } => ParserContextView::LineNumAndLine {
                line_num: *line_num as nat,
                line: line@,
            },
            ParserContext::Position { position } => ParserContextView::Position {
                position: *position as nat,
            },
            ParserContext::PositionAndField {
                position,
                field_key,
            } => ParserContextView::PositionAndField {
                position: *position as nat,
                field_key: *field_key,
            },
        }
    }
}

impl ParserContextView {
    /// The line that describes the place, newline included.
    pub open spec fn message(self) -> Seq<char> {
        match self {
            ParserContextView::LineNumAndLine { line_num, line } => "line #"@ + decimal(line_num)
                + ", content: `"@ + line + "`\n"@,
            ParserContextView::Position { position } => "position #"@ + decimal(position)
                + "\n"@,
            ParserContextView::PositionAndField { position, field_key } => "position #"@
                + decimal(position) + ", field being parsed: `"@ + field_key.token() + "`\n"@,
        }
    }
}

impl ParserContext {
    /// The context of a line of a line-oriented format.
    pub fn with_line_number_and_line(line_num: usize, line: String) -> (ctx: Self)
        ensures
            ctx@ == (ParserContextView::LineNumAndLine { line_num: line_num as nat, line: line@ }),
    {
        Self::LineNumAndLine { line_num, line }
    }

    /// The context of a byte offset.
    pub fn with_position(position: usize) -> (ctx: Self)
        ensures
            ctx@ == (ParserContextView::Position { position: position as nat }),
    {
        Self::Position { position }
    }

    /// The context of a byte offset at which a given field was being decoded.
    pub fn with_position_and_field_key(position: usize, field_key: TxFieldKey) -> (ctx: Self)
        ensures
            ctx@ == (ParserContextView::PositionAndField {
                position: position as nat,
                field_key,
            }),
    {
        Self::PositionAndField { position, field_key }
    }

    /// The line that describes the place, newline included.
    pub fn to_string(&self) -> (s: String)
        ensures
            s@ == self@.message(),
    {
        match self {
            ParserContext::LineNumAndLine { line_num, line } => {
                let mut s = String::from_str("line #");
                append_u64(&mut s, *line_num as u64);
                s.append(", content: `");
                s.append(line.as_str());
                s.append("`\n");
                s
            },
            ParserContext::Position { position } => {
                let mut s = String::from_str("position #");
                append_u64(&mut s, *position as u64);
                s.append("\n");
                s
            },
            ParserContext::PositionAndField { position, field_key } => {
                let mut s = String::from_str("position #");
                append_u64(&mut s, *position as u64);
                s.append(", field being parsed: `");
                s.append(field_key.to_string().as_str());
                s.append("`\n");
                s
            },
        }
    }
}

/// The outcome of a parsing step with its error, if any, as a mathematical value.
pub open spec fn parser_result_view<T>(r: Result<T, ParserError>) -> Result<T, ParserErrorView> {
    match r {
        Ok(value) => Ok(value),
        Err(e) => Err(e@),
    }
}

/// Wraps the error of a parsing step, if there is one, with the place where it arose.
pub fn add_parser_ctx<T>(step: Result<T, ParserError>, ctx: ParserContext) -> (r: Result<
    T,
    AppError,
>)
    ensures
        match (step, r) {
            (Ok(value), Ok(kept)) => value == kept,
            (Err(source), Err(e)) => e == (AppError::ParsingError { context: ctx, source }),
            _ => false,
        },
{
    match step {
        Ok(value) => Ok(value),
        Err(source) => Err(AppError::ParsingError { context: ctx, source }),
    }
}

} // verus!
