//! Codecs for financial transaction records: a binary frame format, a
//! key/value text format and a CSV format over one shared record model.

/// Format selection as a command line names it.
pub mod cli_format;
/// Codecs for reading and writing supported file formats.
pub mod codecs;
/// The difference of two collections of records as multisets.
pub mod compare;
/// Domain model for transaction records.
pub mod domain;
/// Common application-level errors.
pub mod errors;
