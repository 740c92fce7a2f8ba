//! Signal decoders: what turns the entries of a batch into records.
use vstd::prelude::*;

use crate::envelope::MetadataEnvelope;
use crate::error::{IngestorError, IngestorResult};
use crate::logs::{DecodedLogRecord, OtlpLogsDecoder};
use crate::otlp;
use crate::source::SourceBatch;
use crate::text;

verus! {

/// Decoder of one signal.
pub trait SignalDecoder {
    type Output;

    /// Decodes the entries of a batch. The envelopes come in step with the
    /// entries.
    fn decode(&self, batch: &SourceBatch, envelopes: &[MetadataEnvelope]) -> IngestorResult<
        Self::Output,
    >;
}

/// The message about an entry that did not decode.
pub open spec fn entry_failure_text(batch: SourceBatch, k: int) -> Seq<char> {
    "signal decoder: "@ + ("OTLP logs decode failed for sequence="@ + text::decimal(
        batch.sequence as nat,
    ) + " entry_index="@ + text::decimal(batch.entries@[k].entry_index as nat) + ": "@
        + otlp::export_request(batch.entries@[k].raw_bytes@)->Err_0)
}

impl SignalDecoder for OtlpLogsDecoder {
    type Output = Vec<DecodedLogRecord>;

    /// Decodes the log records of a batch. Envelopes are not looked at: they
    /// were found to be uniform before.
    fn decode(&self, batch: &SourceBatch, envelopes: &[MetadataEnvelope]) -> (r: IngestorResult<
        Vec<DecodedLogRecord>,
    >)
        ensures
            r is Ok <==> forall|i: int|
                0 <= i < batch.entries@.len() ==> crate::logs::entry_decodes(
                    #[trigger] batch.entries@[i],
                ),
            match r {
                Ok(records) => otlp::views(records@) == crate::logs::batch_rows(
                    *batch,
                    batch.entries@.len(),
                ),
                Err(e) => exists|k: int| #[trigger]
                    crate::logs::first_undecodable(*batch, k) && e is SignalDecode
                        && crate::error::ingestor_error_text(e) == entry_failure_text(*batch, k),
            },
    {
        match self.decode_logs(batch) {
            Ok(records) => Ok(records),
            Err(e) => Err(IngestorError::from_decode(&e)),
        }
    }
}

} // verus!
