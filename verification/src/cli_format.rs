use crate::codecs::base::Codec;
use vstd::prelude::*;
use vstd::string::StringExecFns;

verus! {

/// Supported formats
#[derive(Clone, Copy, Debug, PartialEq, Eq, Structural)]
pub enum Format {
    /// Binary file format.
    Binary,
    /// Text file format.
    Text,
    /// CSV file format.
    Csv,
}

impl Format {
    /// The codec of the format.
    pub open spec fn codec_of(self) -> Codec {
        match self {
            Format::Binary => Codec::BinaryCodec,
            Format::Text => Codec::TextCodec,
            Format::Csv => Codec::CsvCodec,
        }
    }

    /// The name of the format.
    pub open spec fn name(self) -> Seq<char> {
        match self {
            Format::Binary => "binary"@,
            Format::Text => "text"@,
            Format::Csv => "csv"@,
        }
    }

    /// Returns format-specific codec.
    pub fn codec(&self) -> (c: Codec)
        ensures
            c == self.codec_of(),
    {
        match self {
            Format::Binary => Codec::BinaryCodec,
            Format::Text => Codec::TextCodec,
            Format::Csv => Codec::CsvCodec,
        }
    }

    /// The name of the format.
    pub fn to_string(&self) -> (s: String)
        ensures
            s@ == self.name(),
    {
        match self {
            Format::Binary => String::from_str("binary"),
            Format::Text => String::from_str("text"),
            Format::Csv => String::from_str("csv"),
        }
    }
}

} // verus!
