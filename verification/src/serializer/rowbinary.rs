//! RowBinaryWithNamesAndTypes: a header with the names and types of the columns,
//! then the cells of the rows.
use vstd::prelude::*;

use super::{row_mismatch, ChunkSerializer, SerializationFormat};
use crate::adapter;
use crate::adapter::{push_text, write_varuint, InsertChunk, RowValue};
use crate::otlp;
use crate::text;
use crate::text::{debug_text, same_text};
use crate::writer::WriterError;

verus! {

/// The ClickHouse type of a column of the logs table.
pub open spec fn column_type(name: Seq<char>) -> Option<&'static str> {
    if name == "Timestamp"@ || name == "ObservedTimestamp"@ {
        Some("DateTime64(9)")
    } else if name == "SeverityText"@ || name == "ServiceName"@ || name == "_odb_manifest_path"@ {
        Some("LowCardinality(String)")
    } else if name == "SeverityNumber"@ {
        Some("UInt8")
    } else if name == "Body"@ || name == "TraceId"@ || name == "SpanId"@ || name
        == "_odb_data_path"@ {
        Some("String")
    } else if name == "ResourceAttributes"@ || name == "LogAttributes"@ {
        Some("Map(LowCardinality(String), String)")
    } else if name == "_odb_sequence"@ {
        Some("UInt64")
    } else if name == "_odb_entry_index"@ || name == "_odb_record_index"@ || name
        == "_adapter_version"@ {
        Some("UInt32")
    } else if name == "_odb_ingestion_time_ms"@ {
        Some("Int64")
    } else if name == "_odb_gateway_received_at"@ {
        Some("Nullable(DateTime64(9))")
    } else {
        None
    }
}

/// The message about a column without a type.
pub open spec fn missing_type_text(name: Seq<char>) -> Seq<char> {
    "no RowBinary type table entry for column "@ + text::str_debug(name)
        + "; update `clickhouse_type_for_column` to match the adapter DDL"@
}

/// The ClickHouse type of a column.
pub fn clickhouse_type_for_column(name: &str) -> (r: Result<&'static str, WriterError>)
    ensures
        match column_type(name@) {
            Some(ty) => r matches Ok(t) && t@ == ty@,
            None => r matches Err(WriterError::Serialization(message)) && message@
                == missing_type_text(name@),
        },
{
    if same_text(name, "Timestamp") || same_text(name, "ObservedTimestamp") {
        Ok("DateTime64(9)")
    } else if same_text(name, "SeverityText") || same_text(name, "ServiceName") || same_text(
        name,
        "_odb_manifest_path",
    ) {
        Ok("LowCardinality(String)")
    } else if same_text(name, "SeverityNumber") {
        Ok("UInt8")
    } else if same_text(name, "Body") || same_text(name, "TraceId") || same_text(name, "SpanId")
        || same_text(name, "_odb_data_path") {
        Ok("String")
    } else if same_text(name, "ResourceAttributes") || same_text(name, "LogAttributes") {
        Ok("Map(LowCardinality(String), String)")
    } else if same_text(name, "_odb_sequence") {
        Ok("UInt64")
    } else if same_text(name, "_odb_entry_index") || same_text(name, "_odb_record_index")
        || same_text(name, "_adapter_version") {
        Ok("UInt32")
    } else if same_text(name, "_odb_ingestion_time_ms") {
        Ok("Int64")
    } else if same_text(name, "_odb_gateway_received_at") {
        Ok("Nullable(DateTime64(9))")
    } else {
        let mut message = String::from_str("no RowBinary type table entry for column ");
        let shown = debug_text(name);
        message.append(shown.as_str());
        message.append("; update `clickhouse_type_for_column` to match the adapter DDL");
        Err(WriterError::Serialization(message))
    }
}

/// The names of the first `n` columns.
pub open spec fn names_bytes(columns: Seq<&'static str>, n: nat) -> Seq<u8>
    decreases n,
{
    if n == 0 {
        Seq::empty()
    } else {
        names_bytes(columns, (n - 1) as nat) + adapter::text_bytes(columns[n - 1]@)
    }
}

/// The types of the first `n` columns.
pub open spec fn types_bytes(columns: Seq<&'static str>, n: nat) -> Seq<u8>
    decreases n,
{
    if n == 0 {
        Seq::empty()
    } else {
        types_bytes(columns, (n - 1) as nat) + adapter::text_bytes(column_type(columns[n - 1]@)->0@)
    }
}

/// The header: the number of columns, their names and their types.
pub open spec fn header_bytes(columns: Seq<&'static str>) -> Seq<u8> {
    adapter::varuint(columns.len()) + names_bytes(columns, columns.len()) + types_bytes(
        columns,
        columns.len(),
    )
}

/// The cells of the first `n` rows.
pub open spec fn rows_bytes(rows: Seq<Seq<adapter::CellView>>, n: nat) -> Seq<u8>
    decreases n,
{
    if n == 0 {
        Seq::empty()
    } else {
        rows_bytes(rows, (n - 1) as nat) + adapter::cells_bytes(rows[n - 1])
    }
}

/// Whether column `k` is the first without a type.
pub open spec fn first_untyped(columns: Seq<&'static str>, k: int) -> bool {
    &&& 0 <= k < columns.len()
    &&& column_type(columns[k]@) is None
    &&& forall|i: int| 0 <= i < k ==> column_type((#[trigger] columns[i])@) is Some
}

/// Whether every column has a type.
pub open spec fn all_typed(columns: Seq<&'static str>) -> bool {
    forall|i: int| 0 <= i < columns.len() ==> column_type((#[trigger] columns[i])@) is Some
}

/// What serializing a chunk gives: the header and the rows; or the error about
/// the first column without a type; or, where all columns have one, the error
/// about the first row that does not match them.
pub open spec fn row_binary_encodes(chunk: InsertChunk, r: Result<Vec<u8>, WriterError>) -> bool {
    if !all_typed(chunk.columns@) {
        exists|k: int| #[trigger]
            first_untyped(chunk.columns@, k) && (r matches Err(
                WriterError::Serialization(message),
            ) && message@ == missing_type_text(chunk.columns@[k]@))
    } else if super::rows_match(chunk) {
        r matches Ok(out) && out@ == header_bytes(chunk.columns@) + rows_bytes(
            adapter::row_views(chunk.rows@),
            chunk.rows@.len(),
        )
    } else {
        super::bad_row_reported(chunk, r)
    }
}

/// Serializer of the RowBinaryWithNamesAndTypes format.
#[derive(Debug, Clone, Copy)]
pub struct RowBinarySerializer;

fn write_header(out: &mut Vec<u8>, columns: &Vec<&'static str>) -> (r: Result<(), WriterError>)
    requires
        old(out)@ == Seq::<u8>::empty(),
    ensures
        match r {
            Ok(()) => all_typed(columns@) && final(out)@ == header_bytes(columns@),
            Err(e) => exists|k: int| #[trigger]
                first_untyped(columns@, k) && (e matches WriterError::Serialization(message)
                    && message@ == missing_type_text(columns@[k]@)),
        },
{
    write_varuint(out, columns.len() as u64);
    let ghost count = adapter::varuint(columns@.len());
    let mut i: usize = 0;
    assert(out@ =~= count + names_bytes(columns@, 0));
    while i < columns.len()
        invariant
            i <= columns@.len(),
            out@ == count + names_bytes(columns@, i as nat),
        decreases columns.len() - i,
    {
        push_text(out, columns[i]);
        i = i + 1;
        assert(out@ =~= count + names_bytes(columns@, i as nat));
    }
    let ghost named = out@;
    let mut j: usize = 0;
    assert(out@ =~= named + types_bytes(columns@, 0));
    while j < columns.len()
        invariant
            j <= columns@.len(),
            out@ == named + types_bytes(columns@, j as nat),
            forall|l: int| 0 <= l < j ==> column_type((#[trigger] columns@[l])@) is Some,
        decreases columns.len() - j,
    {
        match clickhouse_type_for_column(columns[j]) {
            Ok(ty) => push_text(out, ty),
            Err(e) => {
                assert(first_untyped(columns@, j as int));
                return Err(e);
            },
        }
        j = j + 1;
        assert(out@ =~= named + types_bytes(columns@, j as nat));
    }
    Ok(())
}

fn write_cells(out: &mut Vec<u8>, row: &Vec<RowValue>)
    ensures
        final(out)@ == old(out)@ + adapter::cells_bytes(otlp::views(row@)),
{
    let ghost cells = otlp::views(row@);
    let mut i: usize = 0;
    assert(out@ =~= old(out)@ + adapter::cells_bytes(cells.take(0)));
    while i < row.len()
        invariant
            i <= row@.len(),
            cells == otlp::views(row@),
            out@ == old(out)@ + adapter::cells_bytes(cells.take(i as int)),
        decreases row.len() - i,
    {
        row[i].write_row_binary(out);
        proof {
            assert(cells.take(i + 1).drop_last() =~= cells.take(i as int));
            assert(cells.take(i + 1).last() == row@[i as int]@);
            assert(out@ =~= old(out)@ + adapter::cells_bytes(cells.take(i + 1)));
        }
        i = i + 1;
    }
    assert(cells.take(i as int) =~= cells);
}

impl ChunkSerializer for RowBinarySerializer {
    open spec fn wire_format(&self) -> SerializationFormat {
        SerializationFormat::RowBinary
    }

    fn format(&self) -> (f: SerializationFormat) {
        SerializationFormat::RowBinary
    }

    fn serialize(&self, chunk: &InsertChunk) -> (r: Result<Vec<u8>, WriterError>) {
        let mut out: Vec<u8> = Vec::new();
        match write_header(&mut out, &chunk.columns) {
            Ok(()) => {},
            Err(e) => return Err(e),
        }
        let ghost header = header_bytes(chunk.columns@);
        let ghost rows = adapter::row_views(chunk.rows@);
        let mut i: usize = 0;
        assert(out@ =~= header + rows_bytes(rows, 0));
        while i < chunk.rows.len()
            invariant
                i <= chunk.rows@.len(),
                all_typed(chunk.columns@),
                rows == adapter::row_views(chunk.rows@),
                out@ == header + rows_bytes(rows, i as nat),
                forall|j: int|
                    0 <= j < i ==> (#[trigger] chunk.rows@[j])@.len() == chunk.columns@.len(),
            decreases chunk.rows.len() - i,
        {
            let row = &chunk.rows[i];
            if row.len() != chunk.columns.len() {
                assert(super::first_bad_row(*chunk, i as int));
                return Err(row_mismatch(row.len(), chunk.columns.len()));
            }
            write_cells(&mut out, row);
            i = i + 1;
            assert(out@ =~= header + rows_bytes(rows, i as nat));
        }
        Ok(out)
    }
}

proof fn lemma_cells_split(cells: Seq<adapter::CellView>)
    requires
        cells.len() > 0,
    ensures
        adapter::cells_bytes(cells) == adapter::cell_bytes(cells[0]) + adapter::cells_bytes(
            cells.drop_first(),
        ),
    decreases cells.len(),
{
    let front = cells.drop_last();
    if front.len() == 0 {
        assert(adapter::cells_bytes(front) =~= Seq::<u8>::empty());
        assert(adapter::cells_bytes(cells.drop_first()) =~= Seq::<u8>::empty());
        assert(adapter::cells_bytes(cells) =~= adapter::cell_bytes(cells[0])
            + adapter::cells_bytes(cells.drop_first()));
    } else {
        lemma_cells_split(front);
        let tail = cells.drop_first();
        assert(tail.drop_last() =~= front.drop_first());
        assert(front[0] == cells[0]);
        assert(adapter::cells_bytes(cells) =~= adapter::cell_bytes(cells[0])
            + adapter::cells_bytes(tail));
    }
}

/// Whether two rows have cells of the same kinds.
pub open spec fn same_shape(a: Seq<adapter::CellView>, b: Seq<adapter::CellView>) -> bool {
    a.len() == b.len() && forall|i: int|
        0 <= i < a.len() ==> adapter::same_kind(#[trigger] a[i], b[i])
}

/// Rows of the same shape that start the same byte string are equal, and so is
/// what follows them.
pub proof fn law_row_prefix_free(
    a: Seq<adapter::CellView>,
    b: Seq<adapter::CellView>,
    x: Seq<u8>,
    y: Seq<u8>,
)
    requires
        same_shape(a, b),
        adapter::cells_bytes(a) + x == adapter::cells_bytes(b) + y,
    ensures
        a == b,
        x == y,
    decreases a.len(),
{
    if a.len() == 0 {
        assert(a =~= b);
        assert(adapter::cells_bytes(a) + x =~= x);
        assert(adapter::cells_bytes(b) + y =~= y);
    } else {
        lemma_cells_split(a);
        lemma_cells_split(b);
        let p = a.drop_first();
        let q = b.drop_first();
        assert(adapter::cells_bytes(a) + x =~= adapter::cell_bytes(a[0]) + (adapter::cells_bytes(p)
            + x));
        assert(adapter::cells_bytes(b) + y =~= adapter::cell_bytes(b[0]) + (adapter::cells_bytes(q)
            + y));
        adapter::law_cell_prefix_free(
            a[0],
            b[0],
            adapter::cells_bytes(p) + x,
            adapter::cells_bytes(q) + y,
        );
        assert forall|i: int| 0 <= i < p.len() implies adapter::same_kind(#[trigger] p[i], q[i]) by {
            assert(p[i] == a[i + 1] && q[i] == b[i + 1]);
        }
        law_row_prefix_free(p, q, x, y);
        assert(a =~= seq![a[0]] + p);
        assert(b =~= seq![b[0]] + q);
    }
}

proof fn lemma_rows_split(rows: Seq<Seq<adapter::CellView>>, n: nat)
    requires
        0 < n <= rows.len(),
    ensures
        rows_bytes(rows, n) == adapter::cells_bytes(rows[0]) + rows_bytes(
            rows.drop_first(),
            (n - 1) as nat,
        ),
    decreases n,
{
    if n == 1 {
        assert(rows_bytes(rows, 0) =~= Seq::<u8>::empty());
        assert(rows_bytes(rows, 1) =~= adapter::cells_bytes(rows[0]) + rows_bytes(
            rows.drop_first(),
            0,
        ));
    } else {
        lemma_rows_split(rows, (n - 1) as nat);
        let tail = rows.drop_first();
        assert(tail[n - 2] == rows[n - 1]);
        assert(rows_bytes(rows, n) =~= adapter::cells_bytes(rows[0]) + rows_bytes(
            tail,
            (n - 1) as nat,
        ));
    }
}

proof fn lemma_cell_not_empty(v: adapter::CellView)
    ensures
        adapter::cell_bytes(v).len() >= 1,
{
    reveal_with_fuel(adapter::le_bytes, 2);
}

/// The rows can be told from the body: two tables of one or more columns whose
/// rows all have the shape of `row` and whose bytes are the same have the same
/// rows.
pub proof fn law_rows_recoverable(
    row: Seq<adapter::CellView>,
    a: Seq<Seq<adapter::CellView>>,
    b: Seq<Seq<adapter::CellView>>,
)
    requires
        row.len() > 0,
        forall|i: int| 0 <= i < a.len() ==> same_shape(row, #[trigger] a[i]),
        forall|i: int| 0 <= i < b.len() ==> same_shape(row, #[trigger] b[i]),
        rows_bytes(a, a.len()) == rows_bytes(b, b.len()),
    ensures
        a == b,
    decreases a.len(),
{
    if a.len() > 0 {
        lemma_rows_split(a, a.len());
        lemma_cells_split(a[0]);
        lemma_cell_not_empty(a[0][0]);
    }
    if b.len() > 0 {
        lemma_rows_split(b, b.len());
        lemma_cells_split(b[0]);
        lemma_cell_not_empty(b[0][0]);
    }
    if a.len() == 0 || b.len() == 0 {
        assert(a =~= b);
    } else {
        assert(same_shape(row, a[0]) && same_shape(row, b[0]));
        assert forall|i: int| 0 <= i < a[0].len() implies adapter::same_kind(
            #[trigger] a[0][i],
            b[0][i],
        ) by {
            assert(adapter::same_kind(row[i], a[0][i]));
            assert(adapter::same_kind(row[i], b[0][i]));
        }
        let p = a.drop_first();
        let q = b.drop_first();
        law_row_prefix_free(a[0], b[0], rows_bytes(p, p.len()), rows_bytes(q, q.len()));
        assert forall|i: int| 0 <= i < p.len() implies same_shape(row, #[trigger] p[i]) by {
            assert(p[i] == a[i + 1]);
        }
        assert forall|i: int| 0 <= i < q.len() implies same_shape(row, #[trigger] q[i]) by {
            assert(q[i] == b[i + 1]);
        }
        law_rows_recoverable(row, p, q);
        assert(a =~= seq![a[0]] + p);
        assert(b =~= seq![b[0]] + q);
    }
}

/// The names of the columns, as texts.
pub open spec fn name_texts(columns: Seq<&'static str>) -> Seq<Seq<char>> {
    columns.map_values(|c: &'static str| c@)
}

/// The types of the columns, as texts.
pub open spec fn type_texts(columns: Seq<&'static str>) -> Seq<Seq<char>> {
    columns.map_values(|c: &'static str| column_type(c@)->0@)
}

proof fn lemma_texts_bytes_push(texts: Seq<Seq<char>>, last: Seq<char>)
    ensures
        adapter::texts_bytes(texts.push(last)) == adapter::texts_bytes(texts)
            + adapter::text_bytes(last),
    decreases texts.len(),
{
    let all = texts.push(last);
    if texts.len() == 0 {
        assert(all.drop_first() =~= Seq::<Seq<char>>::empty());
        assert(adapter::texts_bytes(all.drop_first()) =~= Seq::<u8>::empty());
        assert(adapter::texts_bytes(all) =~= adapter::texts_bytes(texts) + adapter::text_bytes(
            last,
        ));
    } else {
        let tail = texts.drop_first();
        lemma_texts_bytes_push(tail, last);
        assert(all.drop_first() =~= tail.push(last));
        assert(all[0] == texts[0]);
        assert(adapter::texts_bytes(all) =~= adapter::texts_bytes(texts) + adapter::text_bytes(
            last,
        ));
    }
}

proof fn lemma_header_texts(columns: Seq<&'static str>, n: nat)
    requires
        n <= columns.len(),
    ensures
        names_bytes(columns, n) == adapter::texts_bytes(name_texts(columns).take(n as int)),
        types_bytes(columns, n) == adapter::texts_bytes(type_texts(columns).take(n as int)),
    decreases n,
{
    if n == 0 {
        assert(names_bytes(columns, n) =~= adapter::texts_bytes(name_texts(columns).take(0)));
        assert(types_bytes(columns, n) =~= adapter::texts_bytes(type_texts(columns).take(0)));
    } else {
        lemma_header_texts(columns, (n - 1) as nat);
        let names = name_texts(columns);
        let types = type_texts(columns);
        assert(names.take(n as int) =~= names.take(n - 1).push(names[n - 1]));
        assert(types.take(n as int) =~= types.take(n - 1).push(types[n - 1]));
        lemma_texts_bytes_push(names.take(n - 1), names[n - 1]);
        lemma_texts_bytes_push(types.take(n - 1), types[n - 1]);
    }
}

/// A reader of the format gets the columns back from the front of the body,
/// whatever rows follow: a count, that many texts, which are the names of the
/// columns in order, and that many more, which are their types in the same order.
pub proof fn law_header_reads_back(columns: Seq<&'static str>, rows: Seq<u8>)
    ensures
        adapter::varuint_at(header_bytes(columns) + rows) matches Some((n, taken)) && {
            &&& n == columns.len()
            &&& adapter::texts_at((header_bytes(columns) + rows).skip(taken as int), n) matches
                Some((names, after)) && {
                &&& names == name_texts(columns)
                &&& adapter::texts_at(after, n) == Some((type_texts(columns), rows))
            }
        },
{
    let n = columns.len();
    let all = header_bytes(columns) + rows;
    let names = names_bytes(columns, n);
    let types = types_bytes(columns, n);
    lemma_header_texts(columns, n);
    assert(name_texts(columns).take(n as int) =~= name_texts(columns));
    assert(type_texts(columns).take(n as int) =~= type_texts(columns));
    assert(all =~= adapter::varuint(n) + (names + (types + rows)));
    adapter::law_varuint_reads_back(n, names + (types + rows));
    assert(all.skip(adapter::varuint(n).len() as int) =~= names + (types + rows));
    adapter::law_texts_read_back(name_texts(columns), types + rows);
    adapter::law_texts_read_back(type_texts(columns), rows);
}

/// The rows of a body follow each other, the first row first: the rows of one run
/// and then those of another are the rows of both.
pub proof fn law_rows_follow_each_other(
    a: Seq<Seq<adapter::CellView>>,
    b: Seq<Seq<adapter::CellView>>,
    row: Seq<adapter::CellView>,
)
    ensures
        rows_bytes(a + b, (a + b).len()) == rows_bytes(a, a.len()) + rows_bytes(b, b.len()),
        rows_bytes(seq![row], 1) == adapter::cells_bytes(row),
        rows_bytes(Seq::empty(), 0) == Seq::<u8>::empty(),
    decreases b.len(),
{
    reveal_with_fuel(rows_bytes, 2);
    assert(rows_bytes(seq![row], 1) =~= adapter::cells_bytes(row));
    if b.len() == 0 {
        assert(a + b =~= a);
        assert(rows_bytes(a, a.len()) + rows_bytes(b, b.len()) =~= rows_bytes(a, a.len()));
    } else {
        let c = b.drop_last();
        law_rows_follow_each_other(a, c, row);
        lemma_rows_prefix(a + b, a + c, (a + c).len());
        lemma_rows_prefix(b, c, c.len());
        assert((a + b)[(a + b).len() - 1] == b[b.len() - 1]);
        assert(rows_bytes(a + b, (a + b).len()) =~= rows_bytes(a, a.len()) + rows_bytes(
            b,
            b.len(),
        ));
    }
}

proof fn lemma_rows_prefix(
    a: Seq<Seq<adapter::CellView>>,
    b: Seq<Seq<adapter::CellView>>,
    n: nat,
)
    requires
        n <= a.len(),
        n <= b.len(),
        forall|i: int| 0 <= i < n ==> #[trigger] a[i] == b[i],
    ensures
        rows_bytes(a, n) == rows_bytes(b, n),
    decreases n,
{
    if n > 0 {
        lemma_rows_prefix(a, b, (n - 1) as nat);
    }
}

/// The body of a chunk is its header and then its rows: a reader gets the names
/// and types of the columns and then, row by row, the cells; a chunk without rows
/// is its header.
pub proof fn law_body_is_header_and_rows(chunk: InsertChunk, r: Result<Vec<u8>, WriterError>)
    requires
        row_binary_encodes(chunk, r),
        all_typed(chunk.columns@),
        super::rows_match(chunk),
    ensures
        r is Ok,
        ({
            let rows = adapter::row_views(chunk.rows@);
            &&& adapter::varuint_at(r->Ok_0@) matches Some((n, taken)) && {
                &&& n == chunk.columns@.len()
                &&& adapter::texts_at(r->Ok_0@.skip(taken as int), n) matches Some((names, after))
                    && {
                    &&& names == name_texts(chunk.columns@)
                    &&& adapter::texts_at(after, n) == Some(
                        (type_texts(chunk.columns@), rows_bytes(rows, rows.len())),
                    )
                }
            }
        }),
{
    law_header_reads_back(
        chunk.columns@,
        rows_bytes(adapter::row_views(chunk.rows@), chunk.rows@.len()),
    );
}

/// The type of every column: times count nanoseconds, attributes are maps of texts, the
/// coordinates of a row are as wide as they are in the source, and what repeats from row
/// to row is kept in a dictionary. A column that is not among them has no type.
pub proof fn law_types_of_the_columns(name: &str, r: Result<&'static str, WriterError>)
    requires
        call_ensures(clickhouse_type_for_column, (name,), r),
    ensures
        name@ == "Timestamp"@ || name@ == "ObservedTimestamp"@ ==> (r matches Ok(t) && t@
            == "DateTime64(9)"@),
        name@ == "SeverityText"@ || name@ == "ServiceName"@ || name@ == "_odb_manifest_path"@ ==> (
        r matches Ok(t) && t@ == "LowCardinality(String)"@),
        name@ == "SeverityNumber"@ ==> (r matches Ok(t) && t@ == "UInt8"@),
        name@ == "Body"@ || name@ == "TraceId"@ || name@ == "SpanId"@ || name@
            == "_odb_data_path"@ ==> (r matches Ok(t) && t@ == "String"@),
        name@ == "ResourceAttributes"@ || name@ == "LogAttributes"@ ==> (r matches Ok(t) && t@
            == "Map(LowCardinality(String), String)"@),
        name@ == "_odb_sequence"@ ==> (r matches Ok(t) && t@ == "UInt64"@),
        name@ == "_odb_entry_index"@ || name@ == "_odb_record_index"@ || name@
            == "_adapter_version"@ ==> (r matches Ok(t) && t@ == "UInt32"@),
        name@ == "_odb_ingestion_time_ms"@ ==> (r matches Ok(t) && t@ == "Int64"@),
        name@ == "_odb_gateway_received_at"@ ==> (r matches Ok(t) && t@
            == "Nullable(DateTime64(9))"@),
        r is Ok ==> seq![
            "Timestamp"@,
            "ObservedTimestamp"@,
            "SeverityText"@,
            "ServiceName"@,
            "_odb_manifest_path"@,
            "SeverityNumber"@,
            "Body"@,
            "TraceId"@,
            "SpanId"@,
            "_odb_data_path"@,
            "ResourceAttributes"@,
            "LogAttributes"@,
            "_odb_sequence"@,
            "_odb_entry_index"@,
            "_odb_record_index"@,
            "_adapter_version"@,
            "_odb_ingestion_time_ms"@,
            "_odb_gateway_received_at"@,
        ].contains(name@),
{
    lemma_column_literals_differ();
    let known = seq![
        "Timestamp"@,
        "ObservedTimestamp"@,
        "SeverityText"@,
        "ServiceName"@,
        "_odb_manifest_path"@,
        "SeverityNumber"@,
        "Body"@,
        "TraceId"@,
        "SpanId"@,
        "_odb_data_path"@,
        "ResourceAttributes"@,
        "LogAttributes"@,
        "_odb_sequence"@,
        "_odb_entry_index"@,
        "_odb_record_index"@,
        "_adapter_version"@,
        "_odb_ingestion_time_ms"@,
        "_odb_gateway_received_at"@,
    ];
    assert(known[0] == "Timestamp"@ && known[1] == "ObservedTimestamp"@ && known[2]
        == "SeverityText"@ && known[3] == "ServiceName"@ && known[4] == "_odb_manifest_path"@
        && known[5] == "SeverityNumber"@ && known[6] == "Body"@ && known[7] == "TraceId"@
        && known[8] == "SpanId"@ && known[9] == "_odb_data_path"@ && known[10]
        == "ResourceAttributes"@ && known[11] == "LogAttributes"@ && known[12]
        == "_odb_sequence"@ && known[13] == "_odb_entry_index"@ && known[14]
        == "_odb_record_index"@ && known[15] == "_adapter_version"@ && known[16]
        == "_odb_ingestion_time_ms"@ && known[17] == "_odb_gateway_received_at"@);
}

/// The groups of columns of one type are told apart by their lengths, or by a letter
/// where two are equally long.
proof fn lemma_column_literals_differ()
    ensures
        "Timestamp"@.len() == 9,
        "ObservedTimestamp"@.len() == 17,
        "ObservedTimestamp"@[0] == 'O',
        "SeverityText"@.len() == 12,
        "ServiceName"@.len() == 11,
        "_odb_manifest_path"@.len() == 18,
        "_odb_manifest_path"@[0] == '_',
        "SeverityNumber"@.len() == 14,
        "SeverityNumber"@[0] == 'S',
        "Body"@.len() == 4,
        "TraceId"@.len() == 7,
        "SpanId"@.len() == 6,
        "_odb_data_path"@.len() == 14,
        "_odb_data_path"@[0] == '_',
        "ResourceAttributes"@.len() == 18,
        "ResourceAttributes"@[0] == 'R',
        "LogAttributes"@.len() == 13,
        "LogAttributes"@[0] == 'L',
        "_odb_sequence"@.len() == 13,
        "_odb_sequence"@[0] == '_',
        "_odb_entry_index"@.len() == 16,
        "_odb_record_index"@.len() == 17,
        "_odb_record_index"@[0] == '_',
        "_adapter_version"@.len() == 16,
        "_odb_ingestion_time_ms"@.len() == 22,
        "_odb_gateway_received_at"@.len() == 24,
{
    reveal_strlit("Timestamp");
    reveal_strlit("ObservedTimestamp");
    reveal_strlit("SeverityText");
    reveal_strlit("ServiceName");
    reveal_strlit("_odb_manifest_path");
    reveal_strlit("SeverityNumber");
    reveal_strlit("Body");
    reveal_strlit("TraceId");
    reveal_strlit("SpanId");
    reveal_strlit("_odb_data_path");
    reveal_strlit("ResourceAttributes");
    reveal_strlit("LogAttributes");
    reveal_strlit("_odb_sequence");
    reveal_strlit("_odb_entry_index");
    reveal_strlit("_odb_record_index");
    reveal_strlit("_adapter_version");
    reveal_strlit("_odb_ingestion_time_ms");
    reveal_strlit("_odb_gateway_received_at");
}

} // verus!
