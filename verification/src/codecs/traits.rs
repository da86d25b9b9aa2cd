use crate::domain::tx::record_views;
use crate::domain::tx::TxRecord;
use crate::domain::tx::TxRecordView;
use crate::errors::parse_outcome;
use crate::errors::AppError;
use crate::errors::AppErrorView;
use vstd::prelude::*;

verus! {

/// Parses transaction records from the bytes of a stream.
pub trait DataParser {
    /// What the bytes of a whole stream parse to: every record in order, or the first error.
    spec fn parsed(&self, bytes: Seq<u8>) -> Result<Seq<TxRecordView>, AppErrorView>;

    /// Reads all records from the stream's bytes and returns parsed domain objects.
    fn parse(&self, r: &[u8]) -> (res: Result<Vec<TxRecord>, AppError>)
        ensures
            parse_outcome(res) == self.parsed(r@),
    ;
}

/// Writes transaction records to the end of a byte buffer.
pub trait DataWriter {
    /// The bytes that stand for the records in the codec's format.
    spec fn written(&self, records: Seq<TxRecordView>) -> Seq<u8>;

    /// Serializes all provided records after what the buffer already holds.
    fn write(&self, w: &mut Vec<u8>, data: &[TxRecord]) -> (res: Result<(), AppError>)
        ensures
            res is Ok,
            final(w)@ == old(w)@ + self.written(record_views(data@)),
    ;
}

} // verus!
