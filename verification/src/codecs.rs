/// Shared format enums and field mapping utilities.
pub mod base;
/// Binary format codec implementation.
pub mod binary;
/// CSV format codec implementation.
pub mod csv;
/// What holds of the CSV format: reading back what was written, and what is rejected.
pub mod csv_proofs;
/// Stub codec used for testing and wiring.
pub mod dummy;
/// Facts about the UTF-8 encoding of text.
pub mod encoding;
/// Parsing and IO helper error types.
pub mod errors;
/// Splitting a stream of bytes into lines of text.
pub mod lines;
/// Decimal, hexadecimal and big-endian forms of integers.
pub mod numbers;
/// Text format codec implementation.
pub mod text;
/// What holds of the text format: reading back what was written, and the order of fields.
pub mod text_proofs;
/// Generic parse/write traits for codecs.
pub mod traits;
/// Character-level helpers shared by the line-oriented codecs.
pub mod utils;
