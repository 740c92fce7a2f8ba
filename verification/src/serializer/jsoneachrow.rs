//! JSONEachRow: one JSON object per row, each on a line of its own.
use serde_json::Value;
use vstd::prelude::*;

use super::{row_mismatch, ChunkSerializer, SerializationFormat};
use crate::adapter;
use crate::adapter::{InsertChunk, JsonCell, RowValue};
use crate::otlp;
use crate::text::{owned, push_bytes};
use crate::writer::WriterError;

verus! {

/// `serde_json::Map`, the members of a JSON object.
#[verifier::external_type_specification]
#[verifier::external_body]
#[verifier::reject_recursive_types(K)]
#[verifier::reject_recursive_types(V)]
pub struct ExMap<K, V>(serde_json::Map<K, V>);

/// `serde_json::Value`, any JSON value.
#[verifier::external_type_specification]
#[verifier::external_body]
pub struct ExValue(serde_json::Value);

/// `serde_json::Error`.
#[verifier::external_type_specification]
#[verifier::external_body]
pub struct ExError(serde_json::Error);

/// The members of a `serde_json::Map`; a number among them is read by its value.
pub uninterp spec fn object_members(object: serde_json::Map<String, Value>) -> Map<
    Seq<char>,
    adapter::JsonView,
>;

/// The bytes that `serde_json::to_vec` writes for an object with these members. A
/// `serde_json::Map` is walked in the order of the names, whatever was put in first.
pub uninterp spec fn object_json(members: Map<Seq<char>, adapter::JsonView>) -> Seq<u8>;

/// An object without members.
pub open spec fn no_members() -> Map<Seq<char>, adapter::JsonView> {
    Map::empty()
}

/// `serde_json::Map::new` makes an object without members.
#[verifier::external_body]
pub(crate) fn object_new() -> (object: serde_json::Map<String, Value>)
    ensures
        object_members(object) == no_members(),
{
    serde_json::Map::new()
}

/// `serde_json::Map::insert` sets a member, and replaces one of the same name. A
/// `serde_json::Number` made of an integer holds its value alone: one that is not
/// negative is the same whether it came from a signed or an unsigned type.
#[verifier::external_body]
pub(crate) fn object_insert(object: &mut serde_json::Map<String, Value>, name: String, cell: JsonCell)
    ensures
        object_members(*final(object)) == object_members(*old(object)).insert(name@, cell@),
{
    let value = match cell {
        JsonCell::Null => Value::Null,
        JsonCell::Text(s) => Value::String(s),
        JsonCell::Unsigned(n) => Value::from(n),
        JsonCell::Signed(n) => Value::from(n),
        JsonCell::Object(pairs) => pairs.into_iter().collect(),
    };
    object.insert(name, value);
}

/// `serde_json::to_vec` writes an object. It fails only where a `Serialize` impl
/// fails or a map has keys that are not strings, and neither is the case here.
/// The compact form has no line feed: it holds no whitespace between tokens, and
/// control characters in strings are escaped.
#[verifier::external_body]
pub(crate) fn object_bytes(
    object: &serde_json::Map<String, Value>,
) -> (r: Result<Vec<u8>, serde_json::Error>)
    ensures
        r is Ok,
        r->Ok_0@ == object_json(object_members(*object)),
        !r->Ok_0@.contains(10u8),
{
    serde_json::to_vec(object)
}

/// The members of the object of a row: its first `n` cells under the names of
/// their columns.
pub open spec fn row_members(
    columns: Seq<&'static str>,
    row: Seq<adapter::CellView>,
    n: nat,
) -> Map<
    Seq<char>,
    adapter::JsonView,
>
    decreases n,
{
    if n == 0 {
        Map::empty()
    } else {
        row_members(columns, row, (n - 1) as nat).insert(
            columns[n - 1]@,
            adapter::cell_json(row[n - 1]),
        )
    }
}

/// The line of a row.
pub open spec fn row_line(columns: Seq<&'static str>, row: Seq<adapter::CellView>) -> Seq<u8> {
    object_json(row_members(columns, row, columns.len())).push(10u8)
}

/// The lines of the first `n` rows.
pub open spec fn row_lines(
    columns: Seq<&'static str>,
    rows: Seq<Seq<adapter::CellView>>,
    n: nat,
) -> Seq<u8>
    decreases n,
{
    if n == 0 {
        Seq::empty()
    } else {
        row_lines(columns, rows, (n - 1) as nat) + row_line(columns, rows[n - 1])
    }
}

/// The number of line feeds in a byte string.
pub open spec fn line_feeds(bytes: Seq<u8>) -> nat
    decreases bytes.len(),
{
    if bytes.len() == 0 {
        0
    } else {
        line_feeds(bytes.drop_last()) + if bytes.last() == 10 {
            1nat
        } else {
            0nat
        }
    }
}

/// What serializing a chunk gives: a line for each row, as many lines as rows;
/// or the error about the first row that does not match the columns.
pub open spec fn json_encodes(chunk: InsertChunk, r: Result<Vec<u8>, WriterError>) -> bool {
    if super::rows_match(chunk) {
        r matches Ok(out) && out@ == row_lines(
            chunk.columns@,
            adapter::row_views(chunk.rows@),
            chunk.rows@.len(),
        ) && line_feeds(out@) == chunk.rows@.len()
    } else {
        super::bad_row_reported(chunk, r)
    }
}

proof fn lemma_no_line_feed(bytes: Seq<u8>)
    requires
        !bytes.contains(10u8),
    ensures
        line_feeds(bytes) == 0,
    decreases bytes.len(),
{
    if bytes.len() > 0 {
        assert(bytes.contains(bytes.last()));
        assert(!bytes.drop_last().contains(10u8)) by {
            if bytes.drop_last().contains(10u8) {
                let i = choose|i: int| 0 <= i < bytes.len() - 1 && bytes.drop_last()[i] == 10u8;
                assert(bytes[i] == 10u8);
            }
        }
        lemma_no_line_feed(bytes.drop_last());
    }
}

proof fn lemma_line_feeds_concat(a: Seq<u8>, b: Seq<u8>)
    ensures
        line_feeds(a + b) == line_feeds(a) + line_feeds(b),
    decreases b.len(),
{
    if b.len() == 0 {
        assert(a + b =~= a);
    } else {
        lemma_line_feeds_concat(a, b.drop_last());
        assert((a + b).drop_last() =~= a + b.drop_last());
    }
}

/// Serializer of the JSONEachRow format.
#[derive(Debug, Clone, Copy)]
pub struct JsonEachRowSerializer;

fn write_row(out: &mut Vec<u8>, columns: &Vec<&'static str>, row: &Vec<RowValue>)
    requires
        row@.len() == columns@.len(),
    ensures
        final(out)@ == old(out)@ + row_line(columns@, otlp::views(row@)),
        line_feeds(final(out)@) == line_feeds(old(out)@) + 1,
{
    let ghost cells = otlp::views(row@);
    let mut object = object_new();
    let mut i: usize = 0;
    while i < row.len()
        invariant
            row@.len() == columns@.len(),
            i <= columns@.len(),
            cells == otlp::views(row@),
            object_members(object) == row_members(columns@, cells, i as nat),
        decreases row.len() - i,
    {
        object_insert(&mut object, owned(columns[i]), row[i].to_json());
        i = i + 1;
    }
    let line = object_bytes(&object).unwrap();
    push_bytes(out, line.as_slice());
    out.push(10);
    proof {
        let text = line@.push(10u8);
        assert(out@ =~= old(out)@ + text);
        lemma_no_line_feed(line@);
        assert(text.drop_last() =~= line@);
        lemma_line_feeds_concat(old(out)@, text);
    }
}

impl ChunkSerializer for JsonEachRowSerializer {
    open spec fn wire_format(&self) -> SerializationFormat {
        SerializationFormat::JsonEachRow
    }

    fn format(&self) -> (f: SerializationFormat) {
        SerializationFormat::JsonEachRow
    }

    fn serialize(&self, chunk: &InsertChunk) -> (r: Result<Vec<u8>, WriterError>) {
        let mut out: Vec<u8> = Vec::new();
        let ghost rows = adapter::row_views(chunk.rows@);
        let mut i: usize = 0;
        while i < chunk.rows.len()
            invariant
                i <= chunk.rows@.len(),
                rows == adapter::row_views(chunk.rows@),
                out@ == row_lines(chunk.columns@, rows, i as nat),
                line_feeds(out@) == i,
                forall|j: int|
                    0 <= j < i ==> (#[trigger] chunk.rows@[j])@.len() == chunk.columns@.len(),
            decreases chunk.rows.len() - i,
        {
            let row = &chunk.rows[i];
            if row.len() != chunk.columns.len() {
                assert(super::first_bad_row(*chunk, i as int));
                return Err(row_mismatch(row.len(), chunk.columns.len()));
            }
            write_row(&mut out, &chunk.columns, row);
            i = i + 1;
        }
        Ok(out)
    }
}

proof fn lemma_row_members(
    columns: Seq<&'static str>,
    row: Seq<adapter::CellView>,
    n: nat,
    key: Seq<char>,
)
    requires
        n <= columns.len(),
    ensures
        row_members(columns, row, n).contains_key(key) <==> exists|i: int|
            0 <= i < n && (#[trigger] columns[i])@ == key,
        forall|i: int|
            0 <= i < n && (#[trigger] columns[i])@ == key && (forall|j: int|
                i < j < n ==> (#[trigger] columns[j])@ != key) ==> row_members(
                columns,
                row,
                n,
            )[key] == adapter::cell_json(row[i]),
    decreases n,
{
    if n > 0 {
        lemma_row_members(columns, row, (n - 1) as nat, key);
        if columns[n - 1]@ != key {
            assert forall|i: int|
                0 <= i < n && (#[trigger] columns[i])@ == key && (forall|j: int|
                    i < j < n ==> (#[trigger] columns[j])@ != key) implies row_members(
                columns,
                row,
                n,
            )[key] == adapter::cell_json(row[i]) by {
                assert(i < n - 1);
            }
        }
    }
}

/// The line of a row is the JSON object whose members are the cells of the row
/// under the names of their columns, and a line feed: it is so for every map that
/// has the value of each cell under the name of its column and nothing else.
pub proof fn law_line_is_the_object_of_the_row(
    columns: Seq<&'static str>,
    row: Seq<adapter::CellView>,
    members: Map<Seq<char>, adapter::JsonView>,
)
    requires
        row.len() == columns.len(),
        forall|i: int, j: int|
            0 <= i < j < columns.len() ==> (#[trigger] columns[i])@ != (#[trigger] columns[j])@,
        forall|i: int|
            0 <= i < columns.len() ==> members.contains_key((#[trigger] columns[i])@)
                && members[columns[i]@] == adapter::cell_json(row[i]),
        forall|k: Seq<char>| #[trigger]
            members.contains_key(k) ==> exists|i: int|
                0 <= i < columns.len() && (#[trigger] columns[i])@ == k,
    ensures
        row_line(columns, row) == object_json(members).push(10u8),
{
    let n = columns.len();
    let made = row_members(columns, row, n);
    assert forall|k: Seq<char>| made.contains_key(k) <==> members.contains_key(k) by {
        lemma_row_members(columns, row, n, k);
    }
    assert forall|k: Seq<char>| #[trigger] made.contains_key(k) implies made[k] == members[k] by {
        lemma_row_members(columns, row, n, k);
        let i = choose|i: int| 0 <= i < n && (#[trigger] columns[i])@ == k;
        assert forall|j: int| i < j < n implies (#[trigger] columns[j])@ != k by {}
    }
    assert(made =~= members);
}

/// The lines of a body follow each other, the first row first, one for each row.
pub proof fn law_lines_follow_each_other(
    columns: Seq<&'static str>,
    a: Seq<Seq<adapter::CellView>>,
    b: Seq<Seq<adapter::CellView>>,
    row: Seq<adapter::CellView>,
)
    ensures
        row_lines(columns, a + b, (a + b).len()) == row_lines(columns, a, a.len()) + row_lines(
            columns,
            b,
            b.len(),
        ),
        row_lines(columns, seq![row], 1) == row_line(columns, row),
        row_lines(columns, Seq::empty(), 0) == Seq::<u8>::empty(),
    decreases b.len(),
{
    reveal_with_fuel(row_lines, 2);
    assert(row_lines(columns, seq![row], 1) =~= row_line(columns, row));
    if b.len() == 0 {
        assert(a + b =~= a);
        assert(row_lines(columns, a, a.len()) + row_lines(columns, b, b.len()) =~= row_lines(
            columns,
            a,
            a.len(),
        ));
    } else {
        let c = b.drop_last();
        law_lines_follow_each_other(columns, a, c, row);
        lemma_lines_prefix(columns, a + b, a + c, (a + c).len());
        lemma_lines_prefix(columns, b, c, c.len());
        assert((a + b)[(a + b).len() - 1] == b[b.len() - 1]);
        assert(row_lines(columns, a + b, (a + b).len()) =~= row_lines(columns, a, a.len())
            + row_lines(columns, b, b.len()));
    }
}

proof fn lemma_lines_prefix(
    columns: Seq<&'static str>,
    a: Seq<Seq<adapter::CellView>>,
    b: Seq<Seq<adapter::CellView>>,
    n: nat,
)
    requires
        n <= a.len(),
        n <= b.len(),
        forall|i: int| 0 <= i < n ==> #[trigger] a[i] == b[i],
    ensures
        row_lines(columns, a, n) == row_lines(columns, b, n),
    decreases n,
{
    if n > 0 {
        lemma_lines_prefix(columns, a, b, (n - 1) as nat);
    }
}

} // verus!
