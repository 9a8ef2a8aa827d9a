//! The whole pipeline: a document in, a batch out.

use vstd::prelude::*;
use crate::assembler::assemble_spec;
use crate::assembler::parse_sd_file;
use crate::arrow_batch::arrow_cells;
use crate::arrow_batch::arrow_fields;
use crate::arrow_batch::batch_columns;
use crate::arrow_batch::batch_fields;
use crate::arrow_batch::build_recordbatch;
use crate::arrow_batch::fits;
use crate::arrow_batch::ArrowBatch;
use crate::arrow_batch::TOO_LARGE;
use crate::batch::schema_spec;
use crate::batch::transposed;
use crate::error::IngestError;
use crate::error::IngestErrorView;
use crate::markup::markup_events;
use crate::record::SdRecordView;

verus! {

/// What a document that could be read came to.
pub enum IngestOutcome {
    /// The document holds no record. No batch was built.
    NoRecords,
    /// The records of the document, by column.
    Batch(ArrowBatch),
}

/// What ingestion makes of the outcome of a pass: a failure stays a failure,
/// no record at all is reported as such, and records become the rows of a
/// record batch, unless they are too large for one.
pub open spec fn ingest_spec(
    parsed: Result<Seq<SdRecordView>, IngestErrorView>,
    res: Result<IngestOutcome, IngestError>,
) -> bool {
    match parsed {
        Err(e) => res is Err && res->Err_0@ == e,
        Ok(records) => if records.len() == 0 {
            res matches Ok(IngestOutcome::NoRecords)
        } else if fits(transposed(records)) {
            res matches Ok(IngestOutcome::Batch(batch)) && batch_fields(batch) == arrow_fields(
                schema_spec(),
            ) && batch_columns(batch) == arrow_cells(transposed(records))
        } else {
            res matches Err(e) && e@ == (IngestErrorView::SchemaMismatch { detail: TOO_LARGE@ })
        },
    }
}

/// Reads a document held in memory and builds the batch of its records.
pub fn ingest(input: &[u8]) -> (res: Result<IngestOutcome, IngestError>)
    ensures
        ingest_spec(assemble_spec(markup_events(input@)), res),
{
    match parse_sd_file(input) {
        Ok(records) => {
            if records.len() == 0 {
                Ok(IngestOutcome::NoRecords)
            } else {
                match build_recordbatch(records.as_slice()) {
                    Ok(batch) => Ok(IngestOutcome::Batch(batch)),
                    Err(e) => Err(e),
                }
            }
        },
        Err(e) => Err(e),
    }
}

} // verus!
