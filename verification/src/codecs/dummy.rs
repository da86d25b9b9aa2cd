use crate::codecs::traits::DataParser;
use crate::codecs::traits::DataWriter;
use crate::domain::tx::record_views;
use crate::domain::tx::TxRecord;
use crate::domain::tx::TxRecordView;
use crate::errors::AppError;
use crate::errors::AppErrorView;
use vstd::prelude::*;

verus! {

/// A codec that reads no record from any stream and writes nothing for any record.
#[derive(Default)]
pub struct DummyCodec {}

impl DataParser for DummyCodec {
    open spec fn parsed(&self, bytes: Seq<u8>) -> Result<Seq<TxRecordView>, AppErrorView> {
        Ok(Seq::empty())
    }

    fn parse(&self, r: &[u8]) -> (res: Result<Vec<TxRecord>, AppError>) {
        let records: Vec<TxRecord> = Vec::new();
        proof {
            assert(record_views(records@) =~= Seq::<TxRecordView>::empty());
        }
        Ok(records)
    }
}

impl DataWriter for DummyCodec {
    open spec fn written(&self, records: Seq<TxRecordView>) -> Seq<u8> {
        Seq::empty()
    }

    fn write(&self, w: &mut Vec<u8>, data: &[TxRecord]) -> (res: Result<(), AppError>) {
        proof {
            assert(w@ =~= old(w)@ + Seq::<u8>::empty());
        }
        Ok(())
    }
}

} // verus!
