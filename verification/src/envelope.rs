//! Per-entry metadata envelopes.
//!
//! Producers attach a four-byte header `{version, signal_type, encoding,
//! reserved}` to the metadata of each entry. Every entry is decoded on its own,
//! because one batch can carry ranges with different envelopes. An envelope that
//! does not match what the ingestor is configured for is refused.
use vstd::prelude::*;

use crate::source::RawBufferBatch;
use crate::text;
use crate::text::push_decimal;

verus! {

/// Length of the metadata header in bytes.
pub const ENVELOPE_LEN: usize = 4;

/// What kind of telemetry an entry carries.
#[derive(Debug, Clone, Copy, PartialEq, Eq, Structural)]
pub enum SignalType {
    Metrics,
    Logs,
    Traces,
}

/// The header byte of a signal.
pub open spec fn signal_byte(signal: SignalType) -> u8 {
    match signal {
        SignalType::Metrics => 1,
        SignalType::Logs => 2,
        SignalType::Traces => 3,
    }
}

/// The printed name of a signal.
pub open spec fn signal_name(signal: SignalType) -> &'static str {
    match signal {
        SignalType::Metrics => "metrics",
        SignalType::Logs => "logs",
        SignalType::Traces => "traces",
    }
}

impl SignalType {
    pub fn as_byte(self) -> (b: u8)
        ensures
            b == signal_byte(self),
    {
        match self {
            SignalType::Metrics => 1,
            SignalType::Logs => 2,
            SignalType::Traces => 3,
        }
    }

    /// The signal whose header byte is `byte`, if there is one.
    pub fn from_byte(byte: u8) -> (r: Option<Self>)
        ensures
            r matches Some(s) ==> signal_byte(s) == byte,
            r is None ==> forall|s: SignalType| signal_byte(s) != byte,
    {
        match byte {
            1 => Some(SignalType::Metrics),
            2 => Some(SignalType::Logs),
            3 => Some(SignalType::Traces),
            _ => None,
        }
    }

    pub fn name(self) -> (s: &'static str)
        ensures
            s@ == signal_name(self)@,
    {
        match self {
            SignalType::Metrics => "metrics",
            SignalType::Logs => "logs",
            SignalType::Traces => "traces",
        }
    }
}

/// How the payload of an entry is encoded.
#[derive(Debug, Clone, Copy, PartialEq, Eq, Structural)]
pub enum PayloadEncoding {
    OtlpProtobuf,
}

/// The header byte of an encoding.
pub open spec fn encoding_byte(encoding: PayloadEncoding) -> u8 {
    match encoding {
        PayloadEncoding::OtlpProtobuf => 1,
    }
}

/// The printed name of an encoding.
pub open spec fn encoding_name(encoding: PayloadEncoding) -> &'static str {
    match encoding {
        PayloadEncoding::OtlpProtobuf => "otlp_protobuf",
    }
}

impl PayloadEncoding {
    pub fn as_byte(self) -> (b: u8)
        ensures
            b == encoding_byte(self),
    {
        match self {
            PayloadEncoding::OtlpProtobuf => 1,
        }
    }

    /// The encoding whose header byte is `byte`, if there is one.
    pub fn from_byte(byte: u8) -> (r: Option<Self>)
        ensures
            r matches Some(e) ==> encoding_byte(e) == byte,
            r is None ==> forall|e: PayloadEncoding| encoding_byte(e) != byte,
    {
        match byte {
            1 => Some(PayloadEncoding::OtlpProtobuf),
            _ => None,
        }
    }

    pub fn name(self) -> (s: &'static str)
        ensures
            s@ == encoding_name(self)@,
    {
        match self {
            PayloadEncoding::OtlpProtobuf => "otlp_protobuf",
        }
    }
}

/// Decoded form of the header.
#[derive(Debug, Clone, Copy, PartialEq, Eq, Structural)]
pub struct MetadataEnvelope {
    pub version: u8,
    pub signal_type: SignalType,
    pub encoding: PayloadEncoding,
    pub reserved: u8,
}

/// The four header bytes of an envelope.
pub open spec fn header_bytes(env: MetadataEnvelope) -> Seq<u8> {
    seq![env.version, signal_byte(env.signal_type), encoding_byte(env.encoding), env.reserved]
}

/// What the running ingestor expects of every envelope.
#[derive(Debug, Clone, Copy, PartialEq, Eq, Structural)]
pub struct ConfiguredEnvelope {
    pub version: u8,
    pub signal_type: SignalType,
    pub encoding: PayloadEncoding,
}

/// Whether an envelope is the configured one; the reserved byte is ignored.
pub open spec fn envelope_matches(configured: ConfiguredEnvelope, env: MetadataEnvelope) -> bool {
    configured.version == env.version && configured.signal_type == env.signal_type
        && configured.encoding == env.encoding
}

impl ConfiguredEnvelope {
    pub fn matches(&self, env: &MetadataEnvelope) -> (b: bool)
        ensures
            b == envelope_matches(*self, *env),
    {
        self.version == env.version && self.signal_type == env.signal_type && self.encoding
            == env.encoding
    }
}

/// Why an envelope was refused.
#[derive(Debug)]
pub enum EnvelopeError {
    TooShort { entry_index: u32, len: usize, min: usize },
    UnsupportedVersion { entry_index: u32, version: u8 },
    UnsupportedSignal { entry_index: u32, byte: u8 },
    UnsupportedEncoding { entry_index: u32, byte: u8 },
    Mismatch {
        entry_index: u32,
        version: u8,
        signal: &'static str,
        encoding: &'static str,
        exp_version: u8,
        exp_signal: &'static str,
        exp_encoding: &'static str,
    },
}

/// The printed form of an [`EnvelopeError`].
pub open spec fn envelope_error_text(e: EnvelopeError) -> Seq<char> {
    match e {
        EnvelopeError::TooShort { entry_index, len, min } => "entry "@ + text::decimal(entry_index as nat)
            + ": envelope is "@ + text::decimal(len as nat) + " bytes; expected at least "@ + text::decimal(
            min as nat,
        ),
        EnvelopeError::UnsupportedVersion { entry_index, version } => "entry "@ + text::decimal(
            entry_index as nat,
        ) + ": unsupported version "@ + text::decimal(version as nat),
        EnvelopeError::UnsupportedSignal { entry_index, byte } => "entry "@ + text::decimal(
            entry_index as nat,
        ) + ": unsupported signal_type byte "@ + text::decimal(byte as nat),
        EnvelopeError::UnsupportedEncoding { entry_index, byte } => "entry "@ + text::decimal(
            entry_index as nat,
        ) + ": unsupported encoding byte "@ + text::decimal(byte as nat),
        EnvelopeError::Mismatch {
            entry_index,
            version,
            signal,
            encoding,
            exp_version,
            exp_signal,
            exp_encoding,
        } => "entry "@ + text::decimal(entry_index as nat) + ": envelope (v"@ + text::decimal(version as nat)
            + ", signal="@ + signal@ + ", encoding="@ + encoding@
            + ") does not match configured (v"@ + text::decimal(exp_version as nat) + ", signal="@
            + exp_signal@ + ", encoding="@ + exp_encoding@ + ")"@,
    }
}

impl EnvelopeError {
    /// The printed form of the error.
    pub fn message(&self) -> (s: String)
        ensures
            s@ == envelope_error_text(*self),
    {
        let mut out = String::from_str("entry ");
        match self {
            EnvelopeError::TooShort { entry_index, len, min } => {
                push_decimal(&mut out, *entry_index as u64);
                out.append(": envelope is ");
                push_decimal(&mut out, *len as u64);
                out.append(" bytes; expected at least ");
                push_decimal(&mut out, *min as u64);
            },
            EnvelopeError::UnsupportedVersion { entry_index, version } => {
                push_decimal(&mut out, *entry_index as u64);
                out.append(": unsupported version ");
                push_decimal(&mut out, *version as u64);
            },
            EnvelopeError::UnsupportedSignal { entry_index, byte } => {
                push_decimal(&mut out, *entry_index as u64);
                out.append(": unsupported signal_type byte ");
                push_decimal(&mut out, *byte as u64);
            },
            EnvelopeError::UnsupportedEncoding { entry_index, byte } => {
                push_decimal(&mut out, *entry_index as u64);
                out.append(": unsupported encoding byte ");
                push_decimal(&mut out, *byte as u64);
            },
            EnvelopeError::Mismatch {
                entry_index,
                version,
                signal,
                encoding,
                exp_version,
                exp_signal,
                exp_encoding,
            } => {
                push_decimal(&mut out, *entry_index as u64);
                out.append(": envelope (v");
                push_decimal(&mut out, *version as u64);
                out.append(", signal=");
                out.append(signal);
                out.append(", encoding=");
                out.append(encoding);
                out.append(") does not match configured (v");
                push_decimal(&mut out, *exp_version as u64);
                out.append(", signal=");
                out.append(exp_signal);
                out.append(", encoding=");
                out.append(exp_encoding);
                out.append(")");
            },
        }
        out
    }
}

/// Whether some signal has this header byte.
pub open spec fn known_signal(byte: u8) -> bool {
    exists|s: SignalType| signal_byte(s) == byte
}

/// Whether some encoding has this header byte.
pub open spec fn known_encoding(byte: u8) -> bool {
    exists|e: PayloadEncoding| encoding_byte(e) == byte
}

/// What the header of entry `entry_index` decodes to. The length is looked at
/// first, then the version, the signal and the encoding.
pub open spec fn header_decodes(
    entry_index: u32,
    payload: Seq<u8>,
    r: Result<MetadataEnvelope, EnvelopeError>,
) -> bool {
    if payload.len() < ENVELOPE_LEN {
        r matches Err(EnvelopeError::TooShort { entry_index: i, len, min }) && i == entry_index
            && len == payload.len() && min == ENVELOPE_LEN
    } else if payload[0] != 1 {
        r matches Err(EnvelopeError::UnsupportedVersion { entry_index: i, version }) && i
            == entry_index && version == payload[0]
    } else if !known_signal(payload[1]) {
        r matches Err(EnvelopeError::UnsupportedSignal { entry_index: i, byte }) && i == entry_index
            && byte == payload[1]
    } else if !known_encoding(payload[2]) {
        r matches Err(EnvelopeError::UnsupportedEncoding { entry_index: i, byte }) && i
            == entry_index && byte == payload[2]
    } else {
        r matches Ok(env) && header_bytes(env) == payload.take(4)
    }
}

/// Whether a payload starts with a header that decodes.
pub open spec fn header_valid(payload: Seq<u8>) -> bool {
    payload.len() >= ENVELOPE_LEN && payload[0] == 1 && known_signal(payload[1]) && known_encoding(
        payload[2],
    )
}

/// Whether `env` is what a valid header decodes to.
pub open spec fn header_holds(payload: Seq<u8>, env: MetadataEnvelope) -> bool {
    header_valid(payload) && header_bytes(env) == payload.take(4)
}

/// Decodes the envelope of a single entry.
pub fn decode_one(entry_index: u32, payload: &[u8]) -> (r: Result<MetadataEnvelope, EnvelopeError>)
    ensures
        header_decodes(entry_index, payload@, r),
{
    if payload.len() < ENVELOPE_LEN {
        return Err(EnvelopeError::TooShort { entry_index, len: payload.len(), min: ENVELOPE_LEN });
    }
    let version: u8 = payload[0];
    if version != 1 {
        return Err(EnvelopeError::UnsupportedVersion { entry_index, version });
    }
    let signal: u8 = payload[1];
    let signal_type = match SignalType::from_byte(signal) {
        Some(s) => s,
        None => return Err(EnvelopeError::UnsupportedSignal { entry_index, byte: signal }),
    };
    assert(known_signal(payload@[1]));
    let code: u8 = payload[2];
    let encoding = match PayloadEncoding::from_byte(code) {
        Some(e) => e,
        None => return Err(EnvelopeError::UnsupportedEncoding { entry_index, byte: code }),
    };
    assert(known_encoding(payload@[2]));
    let env = MetadataEnvelope { version, signal_type, encoding, reserved: payload[3] };
    assert(header_bytes(env) =~= payload@.take(4));
    Ok(env)
}

/// Decodes the envelope of every entry of a batch, in order. The first entry
/// that does not decode ends the walk with its error.
pub fn decode_envelopes(batch: &RawBufferBatch) -> (r: Result<Vec<MetadataEnvelope>, EnvelopeError>)
    ensures
        match r {
            Ok(envs) => {
                &&& envs@.len() == batch.entries@.len()
                &&& forall|i: int|
                    0 <= i < envs@.len() ==> header_holds(
                        batch.entries@[i].raw_metadata@,
                        #[trigger] envs@[i],
                    )
            },
            Err(e) => exists|k: int|
                0 <= k < batch.entries@.len() && first_invalid(*batch, k) && header_decodes(
                    #[trigger] batch.entries@[k].entry_index,
                    batch.entries@[k].raw_metadata@,
                    Err(e),
                ),
        },
        r is Ok <==> forall|i: int|
            0 <= i < batch.entries@.len() ==> header_valid(
                (#[trigger] batch.entries@[i]).raw_metadata@,
            ),
{
    let mut envs: Vec<MetadataEnvelope> = Vec::new();
    let mut i: usize = 0;
    while i < batch.entries.len()
        invariant
            i <= batch.entries@.len(),
            envs@.len() == i,
            forall|j: int|
                0 <= j < i ==> header_holds(batch.entries@[j].raw_metadata@, #[trigger] envs@[j]),
        decreases batch.entries.len() - i,
    {
        let entry = &batch.entries[i];
        match decode_one(entry.entry_index, entry.raw_metadata.as_slice()) {
            Ok(env) => {
                assert(header_holds(batch.entries@[i as int].raw_metadata@, env));
                envs.push(env);
            },
            Err(e) => {
                assert forall|j: int| 0 <= j < i implies header_valid(
                    (#[trigger] batch.entries@[j]).raw_metadata@,
                ) by {
                    assert(header_holds(batch.entries@[j].raw_metadata@, envs@[j]));
                }
                assert(first_invalid(*batch, i as int));
                return Err(e);
            },
        }
        i = i + 1;
    }
    assert forall|j: int| 0 <= j < i implies header_valid(
        (#[trigger] batch.entries@[j]).raw_metadata@,
    ) by {
        assert(header_holds(batch.entries@[j].raw_metadata@, envs@[j]));
    }
    Ok(envs)
}

/// Whether entry `k` is the first of the batch whose header does not decode.
pub open spec fn first_invalid(batch: RawBufferBatch, k: int) -> bool {
    &&& !header_valid(batch.entries@[k].raw_metadata@)
    &&& forall|i: int| 0 <= i < k ==> header_valid((#[trigger] batch.entries@[i]).raw_metadata@)
}

/// Whether entry `k` is the first that is not the configured envelope.
pub open spec fn first_mismatch(
    envelopes: Seq<MetadataEnvelope>,
    configured: ConfiguredEnvelope,
    k: int,
) -> bool {
    &&& 0 <= k < envelopes.len()
    &&& !envelope_matches(configured, envelopes[k])
    &&& forall|i: int| 0 <= i < k ==> envelope_matches(configured, #[trigger] envelopes[i])
}

/// Checks that every envelope is the configured one. The error names the first
/// that is not, by its position as a 32-bit number.
pub fn validate_consistent(envelopes: &[MetadataEnvelope], configured: &ConfiguredEnvelope) -> (r:
    Result<(), EnvelopeError>)
    ensures
        r is Ok <==> forall|i: int|
            0 <= i < envelopes@.len() ==> envelope_matches(*configured, #[trigger] envelopes@[i]),
        r matches Err(e) ==> exists|k: int| #[trigger]
            first_mismatch(envelopes@, *configured, k) && {
                &&& e is Mismatch
                &&& e->Mismatch_entry_index == k as u32
                &&& e->Mismatch_version == envelopes@[k].version
                &&& e->signal@ == signal_name(envelopes@[k].signal_type)@
                &&& e->encoding@ == encoding_name(envelopes@[k].encoding)@
                &&& e->exp_version == configured.version
                &&& e->exp_signal@ == signal_name(configured.signal_type)@
                &&& e->exp_encoding@ == encoding_name(configured.encoding)@
            },
{
    let mut i: usize = 0;
    while i < envelopes.len()
        invariant
            i <= envelopes@.len(),
            forall|j: int| 0 <= j < i ==> envelope_matches(*configured, #[trigger] envelopes@[j]),
        decreases envelopes.len() - i,
    {
        let env = envelopes[i];
        if !configured.matches(&env) {
            assert(first_mismatch(envelopes@, *configured, i as int));
            return Err(
                EnvelopeError::Mismatch {
                    entry_index: i as u32,
                    version: env.version,
                    signal: env.signal_type.name(),
                    encoding: env.encoding.name(),
                    exp_version: configured.version,
                    exp_signal: configured.signal_type.name(),
                    exp_encoding: configured.encoding.name(),
                },
            );
        }
        i = i + 1;
    }
    Ok(())
}

/// An envelope is determined by its header bytes.
pub proof fn law_header_injective(a: MetadataEnvelope, b: MetadataEnvelope)
    requires
        header_bytes(a) == header_bytes(b),
    ensures
        a == b,
{
    assert(header_bytes(a)[0] == header_bytes(b)[0]);
    assert(header_bytes(a)[1] == header_bytes(b)[1]);
    assert(header_bytes(a)[2] == header_bytes(b)[2]);
    assert(header_bytes(a)[3] == header_bytes(b)[3]);
}

/// Decoding gives back what the header bytes were made from, whatever follows
/// the header, for every version-one envelope; no other result is possible.
pub proof fn law_header_round_trip(
    entry_index: u32,
    env: MetadataEnvelope,
    rest: Seq<u8>,
    r: Result<MetadataEnvelope, EnvelopeError>,
)
    requires
        env.version == 1,
        header_decodes(entry_index, header_bytes(env) + rest, r),
    ensures
        r == Ok::<MetadataEnvelope, EnvelopeError>(env),
{
    let payload = header_bytes(env) + rest;
    assert(payload[1] == signal_byte(env.signal_type));
    assert(payload[2] == encoding_byte(env.encoding));
    assert(known_signal(payload[1]));
    assert(known_encoding(payload[2]));
    assert(payload.take(4) =~= header_bytes(env));
    law_header_injective(r->Ok_0, env);
}

/// The header is four bytes: the version, the signal as one for metrics, two for
/// logs and three for traces, the encoding as one for OTLP protobuf, and a reserved
/// byte. Whatever follows them is not looked at.
pub proof fn law_header_layout(
    entry_index: u32,
    payload: Seq<u8>,
    r: Result<MetadataEnvelope, EnvelopeError>,
)
    requires
        header_decodes(entry_index, payload, r),
    ensures
        r is Ok <==> payload.len() >= 4 && payload[0] == 1 && 1 <= payload[1] <= 3 && payload[2]
            == 1,
        r matches Ok(env) ==> {
            &&& env.version == payload[0]
            &&& env.signal_type == SignalType::Metrics <==> payload[1] == 1
            &&& env.signal_type == SignalType::Logs <==> payload[1] == 2
            &&& env.signal_type == SignalType::Traces <==> payload[1] == 3
            &&& env.encoding == PayloadEncoding::OtlpProtobuf
            &&& env.reserved == payload[3]
        },
        r matches Err(e) ==> match e {
            EnvelopeError::TooShort { entry_index: i, len, min } => payload.len() < 4 && i
                == entry_index && len == payload.len() && min == 4,
            EnvelopeError::UnsupportedVersion { entry_index: i, version } => payload.len() >= 4
                && payload[0] != 1 && i == entry_index && version == payload[0],
            EnvelopeError::UnsupportedSignal { entry_index: i, byte } => payload.len() >= 4
                && payload[0] == 1 && !(1 <= payload[1] <= 3) && i == entry_index && byte
                == payload[1],
            EnvelopeError::UnsupportedEncoding { entry_index: i, byte } => payload.len() >= 4
                && payload[0] == 1 && 1 <= payload[1] <= 3 && payload[2] != 1 && i == entry_index
                && byte == payload[2],
            EnvelopeError::Mismatch { .. } => false,
        },
{
    assert(signal_byte(SignalType::Metrics) == 1);
    assert(signal_byte(SignalType::Logs) == 2);
    assert(signal_byte(SignalType::Traces) == 3);
    assert(encoding_byte(PayloadEncoding::OtlpProtobuf) == 1);
    if payload.len() >= 4 {
        assert(known_signal(payload[1]) <==> 1 <= payload[1] <= 3);
        assert(known_encoding(payload[2]) <==> payload[2] == 1);
    }
    if r is Ok {
        let env = r->Ok_0;
        assert(header_bytes(env)[0] == payload[0]);
        assert(header_bytes(env)[1] == payload[1]);
        assert(header_bytes(env)[2] == payload[2]);
        assert(header_bytes(env)[3] == payload[3]);
    }
}

/// An envelope is the configured one exactly if its version, its signal and its
/// encoding are; what the reserved byte holds makes no difference.
pub proof fn law_reserved_byte_is_ignored(
    configured: ConfiguredEnvelope,
    env: MetadataEnvelope,
    reserved: u8,
)
    ensures
        envelope_matches(configured, env) <==> env == (MetadataEnvelope {
            version: configured.version,
            signal_type: configured.signal_type,
            encoding: configured.encoding,
            reserved: env.reserved,
        }),
        envelope_matches(configured, env) == envelope_matches(
            configured,
            MetadataEnvelope { reserved, ..env },
        ),
{
}

/// Every signal has its own byte and its own name.
pub proof fn law_signals_are_told_apart(signal: SignalType, byte: u8, name: &'static str)
    requires
        call_ensures(SignalType::as_byte, (signal,), byte),
        call_ensures(SignalType::name, (signal,), name),
    ensures
        byte == 1 <==> signal == SignalType::Metrics,
        byte == 2 <==> signal == SignalType::Logs,
        byte == 3 <==> signal == SignalType::Traces,
        signal == SignalType::Metrics ==> name@ == "metrics"@,
        signal == SignalType::Logs ==> name@ == "logs"@,
        signal == SignalType::Traces ==> name@ == "traces"@,
{
}

/// A byte is read as the signal that is written with it.
pub proof fn law_signal_byte_reads_back(byte: u8, r: Option<SignalType>)
    requires
        call_ensures(SignalType::from_byte, (byte,), r),
    ensures
        byte == 1 <==> r == Some(SignalType::Metrics),
        byte == 2 <==> r == Some(SignalType::Logs),
        byte == 3 <==> r == Some(SignalType::Traces),
        r is None <==> !(1 <= byte <= 3),
{
    assert(signal_byte(SignalType::Metrics) == 1);
    assert(signal_byte(SignalType::Logs) == 2);
    assert(signal_byte(SignalType::Traces) == 3);
}

/// A header is read byte by byte: version, signal, encoding, and a byte that is kept.
pub proof fn law_header_is_read(
    entry_index: u32,
    payload: &[u8],
    r: Result<MetadataEnvelope, EnvelopeError>,
)
    requires
        call_ensures(decode_one, (entry_index, payload), r),
    ensures
        r is Ok <==> payload@.len() >= 4 && payload@[0] == 1 && 1 <= payload@[1] <= 3
            && payload@[2] == 1,
        r matches Ok(env) ==> {
            &&& env.version == 1
            &&& env.signal_type == SignalType::Metrics <==> payload@[1] == 1
            &&& env.signal_type == SignalType::Logs <==> payload@[1] == 2
            &&& env.signal_type == SignalType::Traces <==> payload@[1] == 3
            &&& env.encoding == PayloadEncoding::OtlpProtobuf
            &&& env.reserved == payload@[3]
        },
        payload@.len() < 4 <==> (r matches Err(EnvelopeError::TooShort { .. })),
{
    law_header_layout(entry_index, payload@, r);
}

/// One envelope that differs from the configured one in its version, its signal or its
/// encoding refuses the batch, and the error tells of the first such; envelopes that
/// differ in nothing but the reserved byte are taken.
pub proof fn law_one_envelope_refuses_the_batch(
    envelopes: &[MetadataEnvelope],
    configured: &ConfiguredEnvelope,
    r: Result<(), EnvelopeError>,
    k: int,
)
    requires
        call_ensures(validate_consistent, (envelopes, configured), r),
        0 <= k < envelopes@.len(),
    ensures
        envelopes@[k].version != configured.version ==> r is Err,
        envelopes@[k].signal_type != configured.signal_type ==> r is Err,
        envelopes@[k].encoding != configured.encoding ==> r is Err,
        (forall|i: int|
            0 <= i < envelopes@.len() ==> (#[trigger] envelopes@[i]).version == configured.version
                && envelopes@[i].signal_type == configured.signal_type && envelopes@[i].encoding
                == configured.encoding) ==> r is Ok,
        r matches Err(e) ==> e is Mismatch && e->exp_version == configured.version,
        envelopes@[k].version != configured.version && (forall|i: int|
            0 <= i < k ==> (#[trigger] envelopes@[i]).version == configured.version
                && envelopes@[i].signal_type == configured.signal_type && envelopes@[i].encoding
                == configured.encoding) ==> (r matches Err(e) && e->Mismatch_version
            == envelopes@[k].version && e->Mismatch_entry_index == k as u32),
{
    assert(envelope_matches(*configured, envelopes@[k]) <==> envelopes@[k].version
        == configured.version && envelopes@[k].signal_type == configured.signal_type
        && envelopes@[k].encoding == configured.encoding);
    if r is Err {
        let first = choose|j: int| #[trigger]
            first_mismatch(envelopes@, *configured, j) && r->Err_0 is Mismatch
                && r->Err_0->Mismatch_entry_index == j as u32 && r->Err_0->Mismatch_version
                == envelopes@[j].version && r->Err_0->exp_version == configured.version;
        assert(first_mismatch(envelopes@, *configured, first));
        assert(!envelope_matches(*configured, envelopes@[first]));
        if envelopes@[k].version != configured.version && (forall|i: int|
            0 <= i < k ==> (#[trigger] envelopes@[i]).version == configured.version
                && envelopes@[i].signal_type == configured.signal_type && envelopes@[i].encoding
                == configured.encoding) {
            assert(first == k);
        }
    }
}

} // verus!
