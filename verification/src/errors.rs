use crate::codecs::errors::ParserContext;
use crate::codecs::errors::ParserContextView;
use crate::codecs::errors::ParserError;
use crate::codecs::errors::ParserErrorView;
use crate::domain::tx::record_views;
use crate::domain::tx::TxRecord;
use crate::domain::tx::TxRecordView;
use vstd::prelude::*;
use vstd::string::StringExecFns;

verus! {

/// Why a stream could not be read or written.
#[derive(Debug, PartialEq, Eq, Clone, Copy, Structural)]
pub enum IoFailure {
    /// The stream ended before the bytes that were asked for.
    UnexpectedEof,
    /// A line of the stream is not valid UTF-8.
    InvalidData,
}

impl IoFailure {
    /// The message that describes the failure.
    pub open spec fn message(self) -> Seq<char> {
        match self {
            IoFailure::UnexpectedEof => "failed to fill whole buffer"@,
            IoFailure::InvalidData => "stream did not contain valid UTF-8"@,
        }
    }

    /// The message that describes the failure.
    pub fn to_string(&self) -> (s: String)
        ensures
            s@ == self.message(),
    {
        match self {
            IoFailure::UnexpectedEof => String::from_str("failed to fill whole buffer"),
            IoFailure::InvalidData => String::from_str("stream did not contain valid UTF-8"),
        }
    }
}

/// Application error for IO and parsing operations.
#[derive(Debug)]
pub enum AppError {
    /// Error happened while reading input stream.
    ReadError(IoFailure),
    /// Error happened while writing output stream.
    WriteError(IoFailure),
    /// Error happened while parsing with additional context.
    ParsingError {
        /// Position context where parsing failed.
        context: ParserContext,
        /// Concrete parsing error cause.
        source: ParserError,
    },
}

/// The mathematical value of an [`AppError`].
pub enum AppErrorView {
    ReadError(IoFailure),
    WriteError(IoFailure),
    ParsingError { context: ParserContextView, source: ParserErrorView },
}

impl View for AppError {
    type V = AppErrorView;

    open spec fn view(&self) -> AppErrorView {
        match self {
            AppError::ReadError(failure) => AppErrorView::ReadError(*failure),
            AppError::WriteError(failure) => AppErrorView::WriteError(*failure),
            AppError::ParsingError { context, source } => AppErrorView::ParsingError {
                context: context@,
                source: source@,
            },
        }
    }
}

impl AppErrorView {
    /// The text shown to the user: the cause, and for a parsing error the place below it.
    pub open spec fn message(self) -> Seq<char> {
        match self {
            AppErrorView::ReadError(failure) => "read error, "@ + failure.message(),
            AppErrorView::WriteError(failure) => "write error, "@ + failure.message(),
            AppErrorView::ParsingError { context, source } => source.message() + ":\n"@
                + context.message() + "\n"@,
        }
    }
}

impl AppError {
    /// The text shown to the user: the cause, and for a parsing error the place below it.
    pub fn to_string(&self) -> (s: String)
        ensures
            s@ == self@.message(),
    {
        match self {
            AppError::ReadError(failure) => {
                let mut s = String::from_str("read error, ");
                s.append(failure.to_string().as_str());
                s
            },
            AppError::WriteError(failure) => {
                let mut s = String::from_str("write error, ");
                s.append(failure.to_string().as_str());
                s
            },
            AppError::ParsingError { context, source } => {
                let mut s = source.to_string();
                s.append(":\n");
                s.append(context.to_string().as_str());
                s.append("\n");
                s
            },
        }
    }
}

/// The outcome of parsing a stream as a mathematical value: the records' values, or the error's.
pub open spec fn parse_outcome(r: Result<Vec<TxRecord>, AppError>) -> Result<
    Seq<TxRecordView>,
    AppErrorView,
> {
    match r {
        Ok(records) => Ok(record_views(records@)),
        Err(e) => Err(e@),
    }
}

/// The outcome of decoding one record as a mathematical value.
pub open spec fn record_outcome(r: Result<TxRecord, AppError>) -> Result<
    TxRecordView,
    AppErrorView,
> {
    match r {
        Ok(record) => Ok(record@),
        Err(e) => Err(e@),
    }
}

/// The records parsed so far in front of what the rest of the stream parses to.
pub open spec fn prepend_records(
    done: Seq<TxRecordView>,
    rest: Result<Seq<TxRecordView>, AppErrorView>,
) -> Result<Seq<TxRecordView>, AppErrorView> {
    match rest {
        Ok(records) => Ok(done + records),
        Err(e) => Err(e),
    }
}

} // verus!
