//! Wire formats of an insert body.
use vstd::prelude::*;

use crate::adapter::InsertChunk;
use crate::text;
use crate::text::push_decimal;
use crate::writer::WriterError;

pub mod jsoneachrow;
pub mod rowbinary;

pub use jsoneachrow::JsonEachRowSerializer;
pub use rowbinary::RowBinarySerializer;

verus! {

/// The format in which the rows of a chunk are handed to ClickHouse.
#[derive(Debug, Clone, Copy, PartialEq, Eq, Structural)]
pub enum SerializationFormat {
    JsonEachRow,
    RowBinary,
}

impl Default for SerializationFormat {
    fn default() -> (f: Self)
        ensures
            f == SerializationFormat::JsonEachRow,
    {
        SerializationFormat::JsonEachRow
    }
}

/// The metrics label of a format.
pub open spec fn format_label(format: SerializationFormat) -> &'static str {
    match format {
        SerializationFormat::JsonEachRow => "json_each_row",
        SerializationFormat::RowBinary => "row_binary",
    }
}

/// The keyword of a format in an `INSERT` statement.
pub open spec fn format_keyword(format: SerializationFormat) -> &'static str {
    match format {
        SerializationFormat::JsonEachRow => "JSONEachRow",
        SerializationFormat::RowBinary => "RowBinaryWithNamesAndTypes",
    }
}

impl SerializationFormat {
    /// Stable label for metrics.
    pub fn as_label(self) -> (s: &'static str)
        ensures
            s@ == format_label(self)@,
    {
        match self {
            SerializationFormat::JsonEachRow => "json_each_row",
            SerializationFormat::RowBinary => "row_binary",
        }
    }

    /// The keyword that follows `FORMAT` in the insert statement.
    pub fn format_keyword(self) -> (s: &'static str)
        ensures
            s@ == format_keyword(self)@,
    {
        match self {
            SerializationFormat::JsonEachRow => "JSONEachRow",
            SerializationFormat::RowBinary => "RowBinaryWithNamesAndTypes",
        }
    }
}

/// The message about a row whose cells do not match the columns.
pub open spec fn row_mismatch_text(values: nat, columns: nat) -> Seq<char> {
    "row has "@ + text::decimal(values) + " values but "@ + text::decimal(columns)
        + " columns are expected"@
}

/// Whether row `k` is the first whose cells do not match the columns.
pub open spec fn first_bad_row(chunk: InsertChunk, k: int) -> bool {
    &&& 0 <= k < chunk.rows@.len()
    &&& chunk.rows@[k]@.len() != chunk.columns@.len()
    &&& forall|i: int|
        0 <= i < k ==> (#[trigger] chunk.rows@[i])@.len() == chunk.columns@.len()
}

/// Whether every row has as many cells as there are columns.
pub open spec fn rows_match(chunk: InsertChunk) -> bool {
    forall|i: int|
        0 <= i < chunk.rows@.len() ==> (#[trigger] chunk.rows@[i])@.len() == chunk.columns@.len()
}

/// Whether `r` is the error about the first row that does not match.
pub open spec fn bad_row_reported(chunk: InsertChunk, r: Result<Vec<u8>, WriterError>) -> bool {
    exists|k: int| #[trigger]
        first_bad_row(chunk, k) && (r matches Err(WriterError::Serialization(message)) && message@
            == row_mismatch_text(chunk.rows@[k]@.len(), chunk.columns@.len()))
}

pub(crate) fn row_mismatch(values: usize, columns: usize) -> (e: WriterError)
    ensures
        e matches WriterError::Serialization(message) && message@ == row_mismatch_text(
            values as nat,
            columns as nat,
        ),
{
    let mut message = String::from_str("row has ");
    push_decimal(&mut message, values as u64);
    message.append(" values but ");
    push_decimal(&mut message, columns as u64);
    message.append(" columns are expected");
    WriterError::Serialization(message)
}

/// Turns the rows of a chunk into the bytes of an insert body.
pub trait ChunkSerializer {
    /// The format that the serializer writes.
    spec fn wire_format(&self) -> SerializationFormat;

    fn format(&self) -> (f: SerializationFormat)
        ensures
            f == self.wire_format(),
    ;

    fn serialize(&self, chunk: &InsertChunk) -> (r: Result<Vec<u8>, WriterError>)
        ensures
            encodes(self.wire_format(), *chunk, r),
    ;
}

/// What serializing a chunk in a format gives.
pub open spec fn encodes(
    format: SerializationFormat,
    chunk: InsertChunk,
    r: Result<Vec<u8>, WriterError>,
) -> bool {
    match format {
        SerializationFormat::JsonEachRow => jsoneachrow::json_encodes(chunk, r),
        SerializationFormat::RowBinary => rowbinary::row_binary_encodes(chunk, r),
    }
}

/// The serializer of one of the two formats.
#[derive(Debug, Clone, Copy)]
pub enum FormatSerializer {
    JsonEachRow(JsonEachRowSerializer),
    RowBinary(RowBinarySerializer),
}

impl ChunkSerializer for FormatSerializer {
    open spec fn wire_format(&self) -> SerializationFormat {
        match self {
            FormatSerializer::JsonEachRow(_) => SerializationFormat::JsonEachRow,
            FormatSerializer::RowBinary(_) => SerializationFormat::RowBinary,
        }
    }

    fn format(&self) -> (f: SerializationFormat) {
        match self {
            FormatSerializer::JsonEachRow(s) => s.format(),
            FormatSerializer::RowBinary(s) => s.format(),
        }
    }

    fn serialize(&self, chunk: &InsertChunk) -> (r: Result<Vec<u8>, WriterError>) {
        match self {
            FormatSerializer::JsonEachRow(s) => s.serialize(chunk),
            FormatSerializer::RowBinary(s) => s.serialize(chunk),
        }
    }
}

/// The serializer for a format.
pub fn build_serializer(format: SerializationFormat) -> (s: FormatSerializer)
    ensures
        s.wire_format() == format,
{
    match format {
        SerializationFormat::JsonEachRow => FormatSerializer::JsonEachRow(JsonEachRowSerializer),
        SerializationFormat::RowBinary => FormatSerializer::RowBinary(RowBinarySerializer),
    }
}

/// Each format has its own label and its own keyword, which ClickHouse knows it by. The
/// serializer that is built for a format writes that format.
pub proof fn law_formats_are_named(
    format: SerializationFormat,
    label: &'static str,
    keyword: &'static str,
    s: FormatSerializer,
)
    requires
        call_ensures(SerializationFormat::as_label, (format,), label),
        call_ensures(SerializationFormat::format_keyword, (format,), keyword),
        call_ensures(build_serializer, (format,), s),
    ensures
        format == SerializationFormat::JsonEachRow ==> label@ == "json_each_row"@ && keyword@
            == "JSONEachRow"@ && s is JsonEachRow,
        format == SerializationFormat::RowBinary ==> label@ == "row_binary"@ && keyword@
            == "RowBinaryWithNamesAndTypes"@ && s is RowBinary,
{
}

/// A chunk is refused, in either format, if one of its rows has more or fewer cells than
/// there are columns. Where the format knows the columns, no other chunk is refused, and
/// the error tells of the first such row.
pub proof fn law_uneven_row_is_refused(
    format: SerializationFormat,
    chunk: InsertChunk,
    r: Result<Vec<u8>, WriterError>,
    k: int,
)
    requires
        encodes(format, chunk, r),
        0 <= k < chunk.rows@.len(),
    ensures
        chunk.rows@[k]@.len() != chunk.columns@.len() ==> r is Err,
        (format == SerializationFormat::JsonEachRow || rowbinary::all_typed(chunk.columns@)) && (
        forall|i: int|
            0 <= i < chunk.rows@.len() ==> (#[trigger] chunk.rows@[i])@.len()
                == chunk.columns@.len()) ==> r is Ok,
        (format == SerializationFormat::JsonEachRow || rowbinary::all_typed(chunk.columns@))
            && chunk.rows@[k]@.len() != chunk.columns@.len() && (forall|i: int|
            0 <= i < k ==> (#[trigger] chunk.rows@[i])@.len() == chunk.columns@.len()) ==> (
        r matches Err(WriterError::Serialization(message)) && message@ == "row has "@
            + text::decimal(chunk.rows@[k]@.len()) + " values but "@ + text::decimal(
            chunk.columns@.len(),
        ) + " columns are expected"@),
{
    if chunk.rows@[k]@.len() != chunk.columns@.len() && (forall|i: int|
        0 <= i < k ==> (#[trigger] chunk.rows@[i])@.len() == chunk.columns@.len())
        && bad_row_reported(chunk, r) {
        let first = choose|j: int| #[trigger]
            first_bad_row(chunk, j) && (r matches Err(WriterError::Serialization(message))
                && message@ == row_mismatch_text(chunk.rows@[j]@.len(), chunk.columns@.len()));
        assert(first == k);
    }
}

} // verus!
