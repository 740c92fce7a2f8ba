//! Error of the ingestor as a whole.
use vstd::prelude::*;

use crate::envelope;
use crate::envelope::EnvelopeError;
use crate::logs::OtelDecodeError;
use crate::writer;
use crate::writer::WriterError;

verus! {

/// Why the ingestor stopped.
#[derive(Debug)]
pub enum IngestorError {
    Envelope(EnvelopeError),
    SignalDecode(String),
    Adapter(String),
    Writer(WriterError),
    Config(String),
    Io(String),
    Other(String),
}

pub type IngestorResult<T> = Result<T, IngestorError>;

/// The printed form of an [`IngestorError`].
pub open spec fn ingestor_error_text(e: IngestorError) -> Seq<char> {
    match e {
        IngestorError::Envelope(e) => "metadata envelope: "@ + envelope::envelope_error_text(e),
        IngestorError::SignalDecode(s) => "signal decoder: "@ + s@,
        IngestorError::Adapter(s) => "adapter: "@ + s@,
        IngestorError::Writer(e) => "clickhouse writer: "@ + writer::writer_error_text(e),
        IngestorError::Config(s) => "config: "@ + s@,
        IngestorError::Io(s) => "io: "@ + s@,
        IngestorError::Other(s) => s@,
    }
}

fn prefixed(prefix: &str, s: &String) -> (r: String)
    ensures
        r@ == prefix@ + s@,
{
    let mut out = String::from_str(prefix);
    out.append(s.as_str());
    out
}

impl IngestorError {
    /// The printed form of the error.
    pub fn message(&self) -> (s: String)
        ensures
            s@ == ingestor_error_text(*self),
    {
        match self {
            IngestorError::Envelope(e) => prefixed("metadata envelope: ", &e.message()),
            IngestorError::SignalDecode(s) => prefixed("signal decoder: ", s),
            IngestorError::Adapter(s) => prefixed("adapter: ", s),
            IngestorError::Writer(e) => prefixed("clickhouse writer: ", &e.message()),
            IngestorError::Config(s) => prefixed("config: ", s),
            IngestorError::Io(s) => prefixed("io: ", s),
            IngestorError::Other(s) => s.clone(),
        }
    }

    /// The error of a batch that did not decode.
    pub fn from_decode(e: &OtelDecodeError) -> (r: Self)
        ensures
            r matches IngestorError::SignalDecode(s) && s@ == crate::logs::decode_failure_text(*e),
    {
        IngestorError::SignalDecode(e.message())
    }
}

impl From<EnvelopeError> for IngestorError {
    fn from(e: EnvelopeError) -> (r: Self) {
        IngestorError::Envelope(e)
    }
}

impl vstd::std_specs::convert::FromSpecImpl<EnvelopeError> for IngestorError {
    open spec fn obeys_from_spec() -> bool {
        true
    }

    open spec fn from_spec(e: EnvelopeError) -> Self {
        IngestorError::Envelope(e)
    }
}

impl From<WriterError> for IngestorError {
    fn from(e: WriterError) -> (r: Self) {
        IngestorError::Writer(e)
    }
}

impl vstd::std_specs::convert::FromSpecImpl<WriterError> for IngestorError {
    open spec fn obeys_from_spec() -> bool {
        true
    }

    open spec fn from_spec(e: WriterError) -> Self {
        IngestorError::Writer(e)
    }
}

/// The printed form of an error names the part of the ingestor that it came from, and
/// ends with what that part says.
pub proof fn law_message_names_its_part(e: &IngestorError, s: String)
    requires
        call_ensures(IngestorError::message, (e,), s),
    ensures
        e matches IngestorError::SignalDecode(m) ==> s@ == "signal decoder: "@ + m@,
        e matches IngestorError::Adapter(m) ==> s@ == "adapter: "@ + m@,
        e matches IngestorError::Config(m) ==> s@ == "config: "@ + m@,
        e matches IngestorError::Io(m) ==> s@ == "io: "@ + m@,
        e matches IngestorError::Other(m) ==> s@ == m@,
        e matches IngestorError::Envelope(inner) ==> s@ == "metadata envelope: "@
            + envelope::envelope_error_text(*inner),
        e matches IngestorError::Writer(inner) ==> s@ == "clickhouse writer: "@
            + writer::writer_error_text(*inner),
{
}

} // verus!
