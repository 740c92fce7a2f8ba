//! Rows on their way to ClickHouse: cell values and their RowBinary form, the
//! chunks in which rows are inserted, and the planner that makes chunks.
use vstd::prelude::*;
use vstd::utf8::*;

use crate::attributes;
use crate::attributes::AttributeMap;
use crate::otlp;
use crate::runtime::CommitIdentity;
use crate::text;
use crate::text::push_bytes;

verus! {

/// A cell of a row.
#[derive(Debug)]
pub enum RowValue {
    String(String),
    LowCardinalityString(String),
    UInt8(u8),
    UInt32(u32),
    UInt64(u64),
    Int32(i32),
    Int64(i64),
    DateTime64Nanos(u64),
    NullableDateTime64Nanos(Option<u64>),
    StringMap(AttributeMap),
}

/// What a cell holds; a map is its entries in the order of their keys.
#[verifier::ext_equal]
pub enum CellView {
    String(Seq<char>),
    LowCardinalityString(Seq<char>),
    UInt8(u8),
    UInt32(u32),
    UInt64(u64),
    Int32(i32),
    Int64(i64),
    DateTime64Nanos(u64),
    NullableDateTime64Nanos(Option<u64>),
    StringMap(Seq<attributes::TextPair>),
}

impl View for RowValue {
    type V = CellView;

    open spec fn view(&self) -> CellView {
        match self {
            RowValue::String(s) => CellView::String(s@),
            RowValue::LowCardinalityString(s) => CellView::LowCardinalityString(s@),
            RowValue::UInt8(n) => CellView::UInt8(*n),
            RowValue::UInt32(n) => CellView::UInt32(*n),
            RowValue::UInt64(n) => CellView::UInt64(*n),
            RowValue::Int32(n) => CellView::Int32(*n),
            RowValue::Int64(n) => CellView::Int64(*n),
            RowValue::DateTime64Nanos(n) => CellView::DateTime64Nanos(*n),
            RowValue::NullableDateTime64Nanos(n) => CellView::NullableDateTime64Nanos(*n),
            RowValue::StringMap(m) => CellView::StringMap(m.pairs()),
        }
    }
}

/// A length in base 128, the low digit first; every byte but the last has its
/// high bit set.
pub open spec fn varuint(n: nat) -> Seq<u8>
    decreases n,
{
    if n < 128 {
        seq![n as u8]
    } else {
        seq![(128 + n % 128) as u8] + varuint(n / 128)
    }
}

/// `n` in `width` bytes, the low byte first.
pub open spec fn le_bytes(n: nat, width: nat) -> Seq<u8>
    decreases width,
{
    if width == 0 {
        Seq::empty()
    } else {
        seq![(n % 256) as u8] + le_bytes(n / 256, (width - 1) as nat)
    }
}

/// A signed number as the unsigned one with the same bits.
pub open spec fn twos_complement(n: int, modulus: nat) -> nat {
    if n < 0 {
        (n + modulus) as nat
    } else {
        n as nat
    }
}

/// A text as its length in bytes and its bytes.
pub open spec fn text_bytes(s: Seq<char>) -> Seq<u8> {
    varuint(encode_utf8(s).len()) + encode_utf8(s)
}

/// The keys and values of a run of pairs, in turn.
pub open spec fn pairs_row_binary(pairs: Seq<attributes::TextPair>) -> Seq<u8>
    decreases pairs.len(),
{
    if pairs.len() == 0 {
        Seq::empty()
    } else {
        pairs_row_binary(pairs.drop_last()) + text_bytes(pairs.last().0) + text_bytes(
            pairs.last().1,
        )
    }
}

/// The RowBinary form of a cell. A nullable cell starts with a flag that is one
/// when there is no value.
pub open spec fn cell_bytes(v: CellView) -> Seq<u8> {
    match v {
        CellView::String(s) => text_bytes(s),
        CellView::LowCardinalityString(s) => text_bytes(s),
        CellView::UInt8(n) => seq![n],
        CellView::UInt32(n) => le_bytes(n as nat, 4),
        CellView::UInt64(n) => le_bytes(n as nat, 8),
        CellView::Int32(n) => le_bytes(twos_complement(n as int, 0x1_0000_0000), 4),
        CellView::Int64(n) => le_bytes(twos_complement(n as int, 0x1_0000_0000_0000_0000), 8),
        CellView::DateTime64Nanos(n) => le_bytes(n as nat, 8),
        CellView::NullableDateTime64Nanos(None) => seq![1u8],
        CellView::NullableDateTime64Nanos(Some(n)) => seq![0u8] + le_bytes(n as nat, 8),
        CellView::StringMap(pairs) => varuint(pairs.len()) + pairs_row_binary(pairs),
    }
}

/// The RowBinary form of a run of cells.
pub open spec fn cells_bytes(cells: Seq<CellView>) -> Seq<u8>
    decreases cells.len(),
{
    if cells.len() == 0 {
        Seq::empty()
    } else {
        cells_bytes(cells.drop_last()) + cell_bytes(cells.last())
    }
}

/// Appends a length in base 128.
pub fn write_varuint(out: &mut Vec<u8>, n: u64)
    ensures
        final(out)@ == old(out)@ + varuint(n as nat),
{
    let mut rest: u64 = n;
    assert(out@ + varuint(rest as nat) =~= old(out)@ + varuint(n as nat));
    while rest >= 128
        invariant
            out@ + varuint(rest as nat) == old(out)@ + varuint(n as nat),
        decreases rest,
    {
        let ghost before = out@;
        let byte: u8 = (128 + rest % 128) as u8;
        out.push(byte);
        proof {
            assert(varuint(rest as nat) == seq![byte] + varuint((rest / 128) as nat));
            assert(before.push(byte) + varuint((rest / 128) as nat) =~= before + varuint(
                rest as nat,
            ));
        }
        rest = rest / 128;
    }
    proof {
        assert(out@.push(rest as u8) =~= out@ + varuint(rest as nat));
    }
    out.push(rest as u8);
}

fn push_le(out: &mut Vec<u8>, n: u64, width: u64)
    ensures
        final(out)@ == old(out)@ + le_bytes(n as nat, width as nat),
{
    let mut rest: u64 = n;
    let mut left: u64 = width;
    while left > 0
        invariant
            left <= width,
            out@ + le_bytes(rest as nat, left as nat) == old(out)@ + le_bytes(
                n as nat,
                width as nat,
            ),
        decreases left,
    {
        let ghost before = out@;
        let byte: u8 = (rest % 256) as u8;
        out.push(byte);
        proof {
            let tail = le_bytes((rest / 256) as nat, (left - 1) as nat);
            assert(le_bytes(rest as nat, left as nat) == seq![byte] + tail);
            assert(before.push(byte) + tail =~= before + le_bytes(rest as nat, left as nat));
        }
        rest = rest / 256;
        left = left - 1;
    }
    assert(out@ =~= out@ + le_bytes(rest as nat, 0));
}

/// Appends a text as its length in bytes and its bytes.
pub fn push_text(out: &mut Vec<u8>, s: &str)
    ensures
        final(out)@ == old(out)@ + text_bytes(s@),
{
    let bytes: &[u8] = s.as_bytes();
    write_varuint(out, bytes.len() as u64);
    push_bytes(out, bytes);
    assert(out@ =~= old(out)@ + text_bytes(s@));
}

/// A JSON value of a row object.
#[derive(Debug)]
pub enum JsonCell {
    Null,
    Text(String),
    Unsigned(u64),
    Signed(i64),
    Object(Vec<(String, String)>),
}

/// What a JSON value says: a number is its value, whatever type it came from.
pub enum JsonView {
    Null,
    Text(Seq<char>),
    Number(int),
    Object(Map<Seq<char>, Seq<char>>),
}

impl View for JsonCell {
    type V = JsonView;

    open spec fn view(&self) -> JsonView {
        match self {
            JsonCell::Null => JsonView::Null,
            JsonCell::Text(s) => JsonView::Text(s@),
            JsonCell::Unsigned(n) => JsonView::Number(*n as int),
            JsonCell::Signed(n) => JsonView::Number(*n as int),
            JsonCell::Object(pairs) => JsonView::Object(
                attributes::map_of(attributes::entry_texts(pairs@)),
            ),
        }
    }
}

/// The JSON value of a cell. Timestamps are their count of nanoseconds.
pub open spec fn cell_json(v: CellView) -> JsonView {
    match v {
        CellView::String(s) => JsonView::Text(s),
        CellView::LowCardinalityString(s) => JsonView::Text(s),
        CellView::UInt8(n) => JsonView::Number(n as int),
        CellView::UInt32(n) => JsonView::Number(n as int),
        CellView::UInt64(n) => JsonView::Number(n as int),
        CellView::Int32(n) => JsonView::Number(n as int),
        CellView::Int64(n) => JsonView::Number(n as int),
        CellView::DateTime64Nanos(n) => JsonView::Number(n as int),
        CellView::NullableDateTime64Nanos(None) => JsonView::Null,
        CellView::NullableDateTime64Nanos(Some(n)) => JsonView::Number(n as int),
        CellView::StringMap(pairs) => JsonView::Object(attributes::map_of(pairs)),
    }
}

impl RowValue {
    /// Appends the RowBinary form of the cell.
    pub fn write_row_binary(&self, out: &mut Vec<u8>)
        ensures
            final(out)@ == old(out)@ + cell_bytes(self@),
    {
        match self {
            RowValue::String(s) => push_text(out, s.as_str()),
            RowValue::LowCardinalityString(s) => push_text(out, s.as_str()),
            RowValue::UInt8(n) => {
                out.push(*n);
                assert(out@ =~= old(out)@ + seq![*n]);
            },
            RowValue::UInt32(n) => push_le(out, *n as u64, 4),
            RowValue::UInt64(n) => push_le(out, *n, 8),
            RowValue::Int32(n) => {
                let bits: u64 = if *n < 0 {
                    (*n as i64 + 0x1_0000_0000) as u64
                } else {
                    *n as u64
                };
                push_le(out, bits, 4)
            },
            RowValue::Int64(n) => {
                let bits: u64 = if *n < 0 {
                    (*n as i128 + 0x1_0000_0000_0000_0000) as u64
                } else {
                    *n as u64
                };
                push_le(out, bits, 8)
            },
            RowValue::DateTime64Nanos(n) => push_le(out, *n, 8),
            RowValue::NullableDateTime64Nanos(None) => {
                out.push(1);
                assert(out@ =~= old(out)@ + seq![1u8]);
            },
            RowValue::NullableDateTime64Nanos(Some(n)) => {
                out.push(0);
                push_le(out, *n, 8);
                assert(out@ =~= old(out)@ + (seq![0u8] + le_bytes(*n as nat, 8)));
            },
            RowValue::StringMap(map) => {
                write_varuint(out, map.len() as u64);
                let ghost pairs = map.pairs();
                let mut i: usize = 0;
                assert(out@ =~= old(out)@ + varuint(pairs.len()) + pairs_row_binary(pairs.take(0)));
                while i < map.len()
                    invariant
                        pairs == map.pairs(),
                        i <= pairs.len(),
                        out@ == old(out)@ + varuint(pairs.len()) + pairs_row_binary(
                            pairs.take(i as int),
                        ),
                    decreases pairs.len() - i,
                {
                    push_text(out, map.key_at(i));
                    push_text(out, map.value_at(i));
                    proof {
                        assert(pairs.take(i + 1).drop_last() =~= pairs.take(i as int));
                        assert(pairs.take(i + 1).last() == pairs[i as int]);
                        assert(out@ =~= old(out)@ + varuint(pairs.len()) + pairs_row_binary(
                            pairs.take(i + 1),
                        ));
                    }
                    i = i + 1;
                }
                assert(pairs.take(i as int) =~= pairs);
                assert(out@ =~= old(out)@ + (varuint(pairs.len()) + pairs_row_binary(pairs)));
            },
        }
    }

    /// The JSON value of the cell.
    pub fn to_json(&self) -> (v: JsonCell)
        ensures
            v@ == cell_json(self@),
    {
        match self {
            RowValue::String(s) => JsonCell::Text(s.clone()),
            RowValue::LowCardinalityString(s) => JsonCell::Text(s.clone()),
            RowValue::UInt8(n) => JsonCell::Unsigned(*n as u64),
            RowValue::UInt32(n) => JsonCell::Unsigned(*n as u64),
            RowValue::UInt64(n) => JsonCell::Unsigned(*n),
            RowValue::Int32(n) => JsonCell::Signed(*n as i64),
            RowValue::Int64(n) => JsonCell::Signed(*n),
            RowValue::DateTime64Nanos(n) => JsonCell::Unsigned(*n),
            RowValue::NullableDateTime64Nanos(None) => JsonCell::Null,
            RowValue::NullableDateTime64Nanos(Some(n)) => JsonCell::Unsigned(*n),
            RowValue::StringMap(map) => JsonCell::Object(map.to_pairs()),
        }
    }
}

/// Settings of an insert.
#[derive(Debug)]
pub struct ClickHouseSettings {
    pub insert_quorum: Option<String>,
    pub insert_deduplication_token: String,
    pub apply_deduplication_token: bool,
}

impl Default for ClickHouseSettings {
    fn default() -> (s: Self)
        ensures
            s.insert_quorum is None,
            s.insert_deduplication_token@ == Seq::<char>::empty(),
            !s.apply_deduplication_token,
    {
        ClickHouseSettings {
            insert_quorum: None,
            insert_deduplication_token: String::new(),
            apply_deduplication_token: false,
        }
    }
}

/// Rows that are inserted together, under one deduplication token.
#[derive(Debug)]
pub struct InsertChunk {
    pub database: String,
    pub table: String,
    pub columns: Vec<&'static str>,
    pub rows: Vec<Vec<RowValue>>,
    pub settings: ClickHouseSettings,
    pub idempotency_token: String,
    pub chunk_index: u32,
    pub observability_labels: Vec<(&'static str, String)>,
}

/// The cells of a run of rows.
pub open spec fn row_views(rows: Seq<Vec<RowValue>>) -> Seq<Seq<CellView>> {
    rows.map_values(|row: Vec<RowValue>| otlp::views(row@))
}

impl InsertChunk {
    pub fn rows_count(&self) -> (n: usize)
        ensures
            n == self.rows@.len(),
    {
        self.rows.len()
    }
}

/// Why an adapter could not plan a batch.
#[derive(Debug)]
pub struct AdapterError {
    pub message: String,
}

pub type AdapterResult<T> = Result<T, AdapterError>;

/// The records of one commit, as an adapter plans them.
#[derive(Debug)]
pub struct ClickHouseAdapterBatch<R> {
    pub identity: CommitIdentity,
    pub records: Vec<R>,
    pub bytes: usize,
}

/// Turns the records of a commit into insert chunks.
pub trait Adapter {
    type Input;

    fn plan(&self, batch: ClickHouseAdapterBatch<Self::Input>) -> AdapterResult<Vec<InsertChunk>>;
}

proof fn lemma_varuint_first(n: nat)
    ensures
        varuint(n).len() >= 1,
        varuint(n)[0] == if n < 128 {
            n as u8
        } else {
            (128 + n % 128) as u8
        },
{
}

/// A length can be read back from the front of a byte string: two of them that
/// start the same byte string are equal, and so is what follows.
pub proof fn law_varuint_prefix_free(a: nat, b: nat, x: Seq<u8>, y: Seq<u8>)
    requires
        varuint(a) + x == varuint(b) + y,
    ensures
        a == b,
        x == y,
    decreases a,
{
    lemma_varuint_first(a);
    lemma_varuint_first(b);
    let s = varuint(a) + x;
    let t = varuint(b) + y;
    assert(s[0] == varuint(a)[0]);
    assert(t[0] == varuint(b)[0]);
    if a < 128 {
        assert(s.skip(1) =~= x);
        assert(t.skip(1) =~= y);
    } else {
        assert(s.skip(1) =~= varuint(a / 128) + x);
        assert(t.skip(1) =~= varuint(b / 128) + y);
        law_varuint_prefix_free(a / 128, b / 128, x, y);
    }
}

proof fn lemma_le_len(n: nat, width: nat)
    ensures
        le_bytes(n, width).len() == width,
    decreases width,
{
    if width > 0 {
        lemma_le_len(n / 256, (width - 1) as nat);
    }
}

/// Two hundred and fifty-six to the power `width`.
pub open spec fn byte_range(width: nat) -> nat
    decreases width,
{
    if width == 0 {
        1
    } else {
        256 * byte_range((width - 1) as nat)
    }
}

proof fn lemma_le_injective(a: nat, b: nat, width: nat)
    requires
        le_bytes(a, width) == le_bytes(b, width),
        a < byte_range(width),
        b < byte_range(width),
    ensures
        a == b,
    decreases width,
{
    if width > 0 {
        let s = le_bytes(a, width);
        let t = le_bytes(b, width);
        assert(s[0] == (a % 256) as u8);
        assert(t[0] == (b % 256) as u8);
        assert(s.skip(1) =~= le_bytes(a / 256, (width - 1) as nat));
        assert(t.skip(1) =~= le_bytes(b / 256, (width - 1) as nat));
        assert(a / 256 < byte_range((width - 1) as nat));
        assert(b / 256 < byte_range((width - 1) as nat));
        lemma_le_injective(a / 256, b / 256, (width - 1) as nat);
    }
}

proof fn lemma_le_prefix_free(a: nat, b: nat, width: nat, x: Seq<u8>, y: Seq<u8>)
    requires
        le_bytes(a, width) + x == le_bytes(b, width) + y,
        a < byte_range(width),
        b < byte_range(width),
    ensures
        a == b,
        x == y,
{
    lemma_le_len(a, width);
    lemma_le_len(b, width);
    let s = le_bytes(a, width) + x;
    let t = le_bytes(b, width) + y;
    assert(s.take(width as int) =~= le_bytes(a, width));
    assert(t.take(width as int) =~= le_bytes(b, width));
    assert(s.skip(width as int) =~= x);
    assert(t.skip(width as int) =~= y);
    lemma_le_injective(a, b, width);
}

proof fn lemma_text_prefix_free(a: Seq<char>, b: Seq<char>, x: Seq<u8>, y: Seq<u8>)
    requires
        text_bytes(a) + x == text_bytes(b) + y,
    ensures
        a == b,
        x == y,
{
    let p = encode_utf8(a);
    let q = encode_utf8(b);
    assert(text_bytes(a) + x =~= varuint(p.len()) + (p + x));
    assert(text_bytes(b) + y =~= varuint(q.len()) + (q + y));
    law_varuint_prefix_free(p.len(), q.len(), p + x, q + y);
    let n = p.len() as int;
    assert((p + x).take(n) =~= p);
    assert((q + y).take(n) =~= q);
    assert((p + x).skip(n) =~= x);
    assert((q + y).skip(n) =~= y);
    text::lemma_utf8_injective(a, b);
}

proof fn lemma_pairs_split(pairs: Seq<attributes::TextPair>)
    requires
        pairs.len() > 0,
    ensures
        pairs_row_binary(pairs) == text_bytes(pairs[0].0) + text_bytes(pairs[0].1)
            + pairs_row_binary(pairs.drop_first()),
    decreases pairs.len(),
{
    if pairs.len() == 1 {
        reveal_with_fuel(pairs_row_binary, 2);
        assert(pairs_row_binary(pairs.drop_first()) =~= Seq::<u8>::empty());
        assert(pairs_row_binary(pairs) =~= text_bytes(pairs[0].0) + text_bytes(pairs[0].1)
            + pairs_row_binary(pairs.drop_first()));
    } else {
        let front = pairs.drop_last();
        lemma_pairs_split(front);
        let tail = pairs.drop_first();
        assert(tail.drop_last() =~= front.drop_first());
        assert(front[0] == pairs[0]);
        assert(pairs_row_binary(pairs) =~= text_bytes(pairs[0].0) + text_bytes(pairs[0].1)
            + pairs_row_binary(tail));
    }
}

proof fn lemma_regroup(a: Seq<u8>, b: Seq<u8>, c: Seq<u8>, d: Seq<u8>)
    ensures
        a + b + c + d == a + (b + (c + d)),
{
    assert(a + b + c + d =~= a + (b + (c + d)));
}

proof fn lemma_pairs_prefix_free(
    p: Seq<attributes::TextPair>,
    q: Seq<attributes::TextPair>,
    x: Seq<u8>,
    y: Seq<u8>,
)
    requires
        p.len() == q.len(),
        pairs_row_binary(p) + x == pairs_row_binary(q) + y,
    ensures
        p == q,
        x == y,
    decreases p.len(),
{
    if p.len() == 0 {
        assert(p =~= q);
        assert(pairs_row_binary(p) + x =~= x);
        assert(pairs_row_binary(q) + y =~= y);
    } else {
        lemma_pairs_split(p);
        lemma_pairs_split(q);
        let pv = text_bytes(p[0].1) + (pairs_row_binary(p.drop_first()) + x);
        let qv = text_bytes(q[0].1) + (pairs_row_binary(q.drop_first()) + y);
        lemma_regroup(
            text_bytes(p[0].0),
            text_bytes(p[0].1),
            pairs_row_binary(p.drop_first()),
            x,
        );
        lemma_regroup(
            text_bytes(q[0].0),
            text_bytes(q[0].1),
            pairs_row_binary(q.drop_first()),
            y,
        );
        lemma_text_prefix_free(p[0].0, q[0].0, pv, qv);
        lemma_text_prefix_free(
            p[0].1,
            q[0].1,
            pairs_row_binary(p.drop_first()) + x,
            pairs_row_binary(q.drop_first()) + y,
        );
        lemma_pairs_prefix_free(p.drop_first(), q.drop_first(), x, y);
        assert(p =~= seq![p[0]] + p.drop_first());
        assert(q =~= seq![q[0]] + q.drop_first());
    }
}

/// Whether two cells are of the same kind.
pub open spec fn same_kind(a: CellView, b: CellView) -> bool {
    match a {
        CellView::String(_) => b is String,
        CellView::LowCardinalityString(_) => b is LowCardinalityString,
        CellView::UInt8(_) => b is UInt8,
        CellView::UInt32(_) => b is UInt32,
        CellView::UInt64(_) => b is UInt64,
        CellView::Int32(_) => b is Int32,
        CellView::Int64(_) => b is Int64,
        CellView::DateTime64Nanos(_) => b is DateTime64Nanos,
        CellView::NullableDateTime64Nanos(_) => b is NullableDateTime64Nanos,
        CellView::StringMap(_) => b is StringMap,
    }
}

/// RowBinary loses nothing: cells of the same kind that start the same byte
/// string are equal, and so is what follows them.
pub proof fn law_cell_prefix_free(a: CellView, b: CellView, x: Seq<u8>, y: Seq<u8>)
    requires
        same_kind(a, b),
        cell_bytes(a) + x == cell_bytes(b) + y,
    ensures
        a == b,
        x == y,
{
    reveal_with_fuel(byte_range, 9);
    let s = cell_bytes(a) + x;
    let t = cell_bytes(b) + y;
    match a {
        CellView::String(m) => {
            lemma_text_prefix_free(m, b->String_0, x, y);
        },
        CellView::LowCardinalityString(m) => {
            lemma_text_prefix_free(m, b->LowCardinalityString_0, x, y);
        },
        CellView::UInt8(m) => {
            assert(s[0] == m);
            assert(t[0] == b->UInt8_0);
            assert(s.skip(1) =~= x);
            assert(t.skip(1) =~= y);
        },
        CellView::UInt32(m) => {
            lemma_le_prefix_free(m as nat, b->UInt32_0 as nat, 4, x, y);
        },
        CellView::UInt64(m) => {
            lemma_le_prefix_free(m as nat, b->UInt64_0 as nat, 8, x, y);
        },
        CellView::Int32(m) => {
            lemma_le_prefix_free(
                twos_complement(m as int, 0x1_0000_0000),
                twos_complement(b->Int32_0 as int, 0x1_0000_0000),
                4,
                x,
                y,
            );
        },
        CellView::Int64(m) => {
            lemma_le_prefix_free(
                twos_complement(m as int, 0x1_0000_0000_0000_0000),
                twos_complement(b->Int64_0 as int, 0x1_0000_0000_0000_0000),
                8,
                x,
                y,
            );
        },
        CellView::DateTime64Nanos(m) => {
            lemma_le_prefix_free(m as nat, b->DateTime64Nanos_0 as nat, 8, x, y);
        },
        CellView::NullableDateTime64Nanos(m) => {
            let n = b->NullableDateTime64Nanos_0;
            assert(s[0] == if m is None { 1u8 } else { 0u8 });
            assert(t[0] == if n is None { 1u8 } else { 0u8 });
            if m is None {
                assert(s.skip(1) =~= x);
                assert(t.skip(1) =~= y);
            } else {
                assert(s.skip(1) =~= le_bytes(m->0 as nat, 8) + x);
                assert(t.skip(1) =~= le_bytes(n->0 as nat, 8) + y);
                lemma_le_prefix_free(m->0 as nat, n->0 as nat, 8, x, y);
            }
        },
        CellView::StringMap(p) => {
            let q = b->StringMap_0;
            assert(s =~= varuint(p.len()) + (pairs_row_binary(p) + x));
            assert(t =~= varuint(q.len()) + (pairs_row_binary(q) + y));
            law_varuint_prefix_free(
                p.len(),
                q.len(),
                pairs_row_binary(p) + x,
                pairs_row_binary(q) + y,
            );
            lemma_pairs_prefix_free(p, q, x, y);
        },
    }
}

/// Reads a length off the front of a byte string: seven bits of each byte, the
/// low ones first, up to the first byte below 128. What it is, and how many bytes
/// it took.
pub open spec fn varuint_at(bytes: Seq<u8>) -> Option<(nat, nat)>
    decreases bytes.len(),
{
    if bytes.len() == 0 {
        None
    } else if bytes[0] < 128 {
        Some((bytes[0] as nat, 1))
    } else {
        match varuint_at(bytes.drop_first()) {
            Some((high, taken)) => Some(((bytes[0] - 128) as nat + 128 * high, taken + 1)),
            None => None,
        }
    }
}

/// A length is read back from its bytes, whatever follows them.
pub proof fn law_varuint_reads_back(n: nat, rest: Seq<u8>)
    ensures
        varuint_at(varuint(n) + rest) == Some((n, varuint(n).len())),
        n < 128 ==> varuint(n).len() == 1,
    decreases n,
{
    let s = varuint(n) + rest;
    lemma_varuint_first(n);
    assert(s[0] == varuint(n)[0]);
    if n >= 128 {
        law_varuint_reads_back(n / 128, rest);
        assert(s.drop_first() =~= varuint(n / 128) + rest);
        assert(varuint(n).len() == 1 + varuint(n / 128).len());
    }
}

/// The number that a byte string holds, the low byte first.
pub open spec fn le_value(bytes: Seq<u8>) -> nat
    decreases bytes.len(),
{
    if bytes.len() == 0 {
        0
    } else {
        bytes[0] as nat + 256 * le_value(bytes.drop_first())
    }
}

/// A number that fits in `width` bytes is read back from them.
pub proof fn law_le_bytes_read_back(n: nat, width: nat)
    requires
        n < byte_range(width),
    ensures
        le_bytes(n, width).len() == width,
        le_value(le_bytes(n, width)) == n,
    decreases width,
{
    lemma_le_len(n, width);
    if width > 0 {
        let tail = le_bytes(n / 256, (width - 1) as nat);
        assert(n / 256 < byte_range((width - 1) as nat));
        law_le_bytes_read_back(n / 256, (width - 1) as nat);
        assert(le_bytes(n, width).drop_first() =~= tail);
        assert(le_bytes(n, width)[0] == (n % 256) as u8);
    }
}

/// Reads a text off the front of a byte string: its length in bytes, and that many
/// bytes of UTF-8. The text, and what follows it.
pub open spec fn text_at(bytes: Seq<u8>) -> Option<(Seq<char>, Seq<u8>)> {
    match varuint_at(bytes) {
        Some((n, taken)) => if taken + n <= bytes.len() && valid_utf8(
            bytes.subrange(taken as int, (taken + n) as int),
        ) {
            Some(
                (
                    decode_utf8(bytes.subrange(taken as int, (taken + n) as int)),
                    bytes.skip((taken + n) as int),
                ),
            )
        } else {
            None
        },
        None => None,
    }
}

/// Reads `n` texts off the front of a byte string, one after the other.
pub open spec fn texts_at(bytes: Seq<u8>, n: nat) -> Option<(Seq<Seq<char>>, Seq<u8>)>
    decreases n,
{
    if n == 0 {
        Some((Seq::empty(), bytes))
    } else {
        match text_at(bytes) {
            Some((first, rest)) => match texts_at(rest, (n - 1) as nat) {
                Some((others, end)) => Some((seq![first] + others, end)),
                None => None,
            },
            None => None,
        }
    }
}

/// A text is read back from its bytes, whatever follows them.
pub proof fn law_text_reads_back(s: Seq<char>, rest: Seq<u8>)
    ensures
        text_at(text_bytes(s) + rest) == Some((s, rest)),
{
    let b = encode_utf8(s);
    let all = text_bytes(s) + rest;
    let k = varuint(b.len()).len();
    assert(all =~= varuint(b.len()) + (b + rest));
    law_varuint_reads_back(b.len(), b + rest);
    assert(all.subrange(k as int, (k + b.len()) as int) =~= b);
    assert(all.skip((k + b.len()) as int) =~= rest);
    encode_utf8_valid_utf8(s);
    encode_utf8_decode_utf8(s);
}

/// The bytes of a run of texts, one after the other.
pub open spec fn texts_bytes(texts: Seq<Seq<char>>) -> Seq<u8>
    decreases texts.len(),
{
    if texts.len() == 0 {
        Seq::empty()
    } else {
        text_bytes(texts[0]) + texts_bytes(texts.drop_first())
    }
}

/// A run of texts is read back from its bytes, whatever follows them.
pub proof fn law_texts_read_back(texts: Seq<Seq<char>>, rest: Seq<u8>)
    ensures
        texts_at(texts_bytes(texts) + rest, texts.len()) == Some((texts, rest)),
    decreases texts.len(),
{
    if texts.len() == 0 {
        assert(texts_bytes(texts) + rest =~= rest);
        assert(texts =~= Seq::<Seq<char>>::empty());
    } else {
        let tail = texts.drop_first();
        assert(texts_bytes(texts) + rest =~= text_bytes(texts[0]) + (texts_bytes(tail) + rest));
        law_text_reads_back(texts[0], texts_bytes(tail) + rest);
        law_texts_read_back(tail, rest);
        assert(seq![texts[0]] + tail =~= texts);
    }
}

/// The keys and values of a run of pairs, in turn.
pub open spec fn in_turn(pairs: Seq<attributes::TextPair>) -> Seq<Seq<char>> {
    Seq::new(
        2 * pairs.len(),
        |i: int|
            if i % 2 == 0 {
                pairs[i / 2].0
            } else {
                pairs[i / 2].1
            },
    )
}

proof fn lemma_pairs_are_texts(pairs: Seq<attributes::TextPair>)
    ensures
        pairs_row_binary(pairs) == texts_bytes(in_turn(pairs)),
    decreases pairs.len(),
{
    let t = in_turn(pairs);
    if pairs.len() == 0 {
        assert(pairs_row_binary(pairs) =~= texts_bytes(t));
    } else {
        lemma_pairs_split(pairs);
        let rest = pairs.drop_first();
        lemma_pairs_are_texts(rest);
        assert(t[0] == pairs[0].0 && t[1] == pairs[0].1);
        assert(t.drop_first().drop_first() =~= in_turn(rest));
        assert(t.drop_first()[0] == pairs[0].1);
        assert(texts_bytes(t) == text_bytes(t[0]) + texts_bytes(t.drop_first()));
        assert(texts_bytes(t.drop_first()) == text_bytes(pairs[0].1) + texts_bytes(in_turn(rest)));
        assert(pairs_row_binary(pairs) =~= texts_bytes(t));
    }
}

/// What a column of ClickHouse reads from the RowBinary form of a cell is what the
/// cell holds: a number from as many bytes as its type has, the low byte first,
/// negative ones modulo the range of the type; a text from its length and its
/// bytes; a map from its size and its keys and values in turn; and a nullable
/// number from a flag that is zero where there is one.
pub proof fn law_cell_reads_back(v: CellView, rest: Seq<u8>)
    ensures
        match v {
            CellView::String(s) => text_at(cell_bytes(v) + rest) == Some((s, rest)),
            CellView::LowCardinalityString(s) => text_at(cell_bytes(v) + rest) == Some((s, rest)),
            CellView::UInt8(n) => cell_bytes(v).len() == 1 && le_value(cell_bytes(v)) == n,
            CellView::UInt32(n) => cell_bytes(v).len() == 4 && le_value(cell_bytes(v)) == n,
            CellView::UInt64(n) => cell_bytes(v).len() == 8 && le_value(cell_bytes(v)) == n,
            CellView::Int32(n) => cell_bytes(v).len() == 4 && le_value(cell_bytes(v)) == if n >= 0 {
                n as int
            } else {
                n + 0x1_0000_0000
            },
            CellView::Int64(n) => cell_bytes(v).len() == 8 && le_value(cell_bytes(v)) == if n >= 0 {
                n as int
            } else {
                n + 0x1_0000_0000_0000_0000
            },
            CellView::DateTime64Nanos(n) => cell_bytes(v).len() == 8 && le_value(cell_bytes(v))
                == n,
            CellView::NullableDateTime64Nanos(None) => cell_bytes(v) == seq![1u8],
            CellView::NullableDateTime64Nanos(Some(n)) => cell_bytes(v).len() == 9 && cell_bytes(
                v,
            )[0] == 0 && le_value(cell_bytes(v).drop_first()) == n,
            CellView::StringMap(pairs) => varuint_at(cell_bytes(v) + rest) matches Some((n, taken))
                && n == pairs.len() && texts_at((cell_bytes(v) + rest).skip(taken as int), 2 * n)
                == Some((in_turn(pairs), rest)),
        },
{
    reveal_with_fuel(byte_range, 9);
    match v {
        CellView::String(s) => law_text_reads_back(s, rest),
        CellView::LowCardinalityString(s) => law_text_reads_back(s, rest),
        CellView::UInt8(n) => {
            assert(cell_bytes(v).drop_first() =~= Seq::<u8>::empty());
            assert(le_value(cell_bytes(v).drop_first()) == 0);
        },
        CellView::UInt32(n) => law_le_bytes_read_back(n as nat, 4),
        CellView::UInt64(n) => law_le_bytes_read_back(n as nat, 8),
        CellView::Int32(n) => law_le_bytes_read_back(
            twos_complement(n as int, 0x1_0000_0000),
            4,
        ),
        CellView::Int64(n) => law_le_bytes_read_back(
            twos_complement(n as int, 0x1_0000_0000_0000_0000),
            8,
        ),
        CellView::DateTime64Nanos(n) => law_le_bytes_read_back(n as nat, 8),
        CellView::NullableDateTime64Nanos(None) => {},
        CellView::NullableDateTime64Nanos(Some(n)) => {
            law_le_bytes_read_back(n as nat, 8);
            assert(cell_bytes(v).drop_first() =~= le_bytes(n as nat, 8));
        },
        CellView::StringMap(pairs) => {
            let all = cell_bytes(v) + rest;
            let body = pairs_row_binary(pairs) + rest;
            assert(all =~= varuint(pairs.len()) + body);
            law_varuint_reads_back(pairs.len(), body);
            assert(all.skip(varuint(pairs.len()).len() as int) =~= body);
            lemma_pairs_are_texts(pairs);
            law_texts_read_back(in_turn(pairs), rest);
        },
    }
}

/// The JSON form and the RowBinary form of a cell say the same: a number is the
/// one that a column reads from the bytes, a text is the text that it reads, and
/// what is null in one is null in the other. In a map with ascending keys every
/// pair is a member, and there are no others.
pub proof fn law_json_agrees_with_row_binary(v: CellView)
    requires
        v matches CellView::StringMap(pairs) ==> attributes::keys_ascend(pairs),
    ensures
        match v {
            CellView::String(_) | CellView::LowCardinalityString(_) => cell_json(v) matches
                JsonView::Text(t) && text_at(cell_bytes(v)) == Some((t, Seq::<u8>::empty())),
            CellView::UInt8(_) | CellView::UInt32(_) | CellView::UInt64(_)
            | CellView::DateTime64Nanos(_) => cell_json(v) == JsonView::Number(
                le_value(cell_bytes(v)) as int,
            ),
            CellView::Int32(_) => cell_json(v) matches JsonView::Number(n) && -0x8000_0000 <= n
                < 0x8000_0000 && le_value(cell_bytes(v)) == n % 0x1_0000_0000,
            CellView::Int64(_) => cell_json(v) matches JsonView::Number(n) && -0x8000_0000_0000_0000
                <= n < 0x8000_0000_0000_0000 && le_value(cell_bytes(v)) == n
                % 0x1_0000_0000_0000_0000,
            CellView::NullableDateTime64Nanos(_) => if cell_bytes(v)[0] == 1 {
                cell_json(v) == JsonView::Null
            } else {
                cell_json(v) == JsonView::Number(le_value(cell_bytes(v).drop_first()) as int)
            },
            CellView::StringMap(pairs) => cell_json(v) matches JsonView::Object(map) && {
                &&& forall|i: int|
                    0 <= i < pairs.len() ==> map.contains_key((#[trigger] pairs[i]).0)
                        && map[pairs[i].0] == pairs[i].1
                &&& forall|k: Seq<char>| #[trigger]
                    map.contains_key(k) ==> exists|i: int|
                        0 <= i < pairs.len() && (#[trigger] pairs[i]).0 == k
            },
        },
{
    law_cell_reads_back(v, Seq::empty());
    assert(cell_bytes(v) + Seq::<u8>::empty() =~= cell_bytes(v));
    match v {
        CellView::StringMap(pairs) => {
            attributes::lemma_map_of_ascending(pairs);
            let map = attributes::map_of(pairs);
            assert forall|i: int| 0 <= i < pairs.len() implies map.contains_key(
                (#[trigger] pairs[i]).0,
            ) && map[pairs[i].0] == pairs[i].1 by {
                assert(map.dom().contains(pairs[i].0));
            }
            assert forall|k: Seq<char>| #[trigger] map.contains_key(k) implies exists|i: int|
                0 <= i < pairs.len() && (#[trigger] pairs[i]).0 == k by {
                assert(map.dom().contains(k));
            }
        },
        _ => {},
    }
}

/// The JSON form of a cell loses nothing: cells of the same kind with the same
/// JSON value are equal.
pub proof fn law_json_loses_nothing(a: CellView, b: CellView)
    requires
        same_kind(a, b),
        cell_json(a) == cell_json(b),
        a matches CellView::StringMap(pairs) ==> attributes::keys_ascend(pairs),
        b matches CellView::StringMap(pairs) ==> attributes::keys_ascend(pairs),
    ensures
        a == b,
{
    match a {
        CellView::StringMap(p) => {
            attributes::law_entry_order_is_determined(p, b->StringMap_0);
        },
        _ => {},
    }
}

/// The bytes of a run of cells are those of its cells, the first cell first.
pub proof fn law_cells_follow_each_other(a: Seq<CellView>, b: Seq<CellView>, v: CellView)
    ensures
        cells_bytes(a + b) == cells_bytes(a) + cells_bytes(b),
        cells_bytes(seq![v]) == cell_bytes(v),
        cells_bytes(Seq::empty()) == Seq::<u8>::empty(),
    decreases b.len(),
{
    reveal_with_fuel(cells_bytes, 2);
    assert(seq![v].drop_last() =~= Seq::<CellView>::empty());
    assert(cells_bytes(seq![v]) =~= cell_bytes(v));
    if b.len() == 0 {
        assert(a + b =~= a);
        assert(cells_bytes(a) + cells_bytes(b) =~= cells_bytes(a));
    } else {
        law_cells_follow_each_other(a, b.drop_last(), v);
        assert((a + b).drop_last() =~= a + b.drop_last());
        assert(cells_bytes(a + b) =~= cells_bytes(a) + cells_bytes(b));
    }
}

/// A cell is written behind what is there, and reads back as what it holds: a number as
/// that number in the width of its type, a time as its nanoseconds, a text as its text.
pub proof fn law_written_cell_reads_back(cell: &RowValue, out: &mut Vec<u8>)
    requires
        call_ensures(RowValue::write_row_binary, (cell, out), ()),
    ensures
        final(out)@.len() > old(out)@.len(),
        final(out)@.take(old(out)@.len() as int) == old(out)@,
        ({
            let bytes = final(out)@.skip(old(out)@.len() as int);
            match *cell {
                RowValue::String(s) => text_at(bytes) == Some((s@, Seq::<u8>::empty())),
                RowValue::LowCardinalityString(s) => text_at(bytes) == Some(
                    (s@, Seq::<u8>::empty()),
                ),
                RowValue::UInt8(n) => bytes.len() == 1 && bytes[0] == n,
                RowValue::UInt32(n) => bytes.len() == 4 && le_value(bytes) == n,
                RowValue::UInt64(n) => bytes.len() == 8 && le_value(bytes) == n,
                RowValue::Int32(n) => bytes.len() == 4 && le_value(bytes) == (n as int)
                    % 0x1_0000_0000,
                RowValue::Int64(n) => bytes.len() == 8 && le_value(bytes) == (n as int)
                    % 0x1_0000_0000_0000_0000,
                RowValue::DateTime64Nanos(n) => bytes.len() == 8 && le_value(bytes) == n,
                RowValue::NullableDateTime64Nanos(None) => bytes == seq![1u8],
                RowValue::NullableDateTime64Nanos(Some(n)) => bytes.len() == 9 && bytes[0] == 0
                    && le_value(bytes.drop_first()) == n,
                RowValue::StringMap(m) => varuint_at(bytes) matches Some((n, taken)) && n
                    == m.pairs().len() && texts_at(bytes.skip(taken as int), 2 * n) == Some(
                    (in_turn(m.pairs()), Seq::<u8>::empty()),
                ),
            }
        }),
{
    let bytes = final(out)@.skip(old(out)@.len() as int);
    assert(bytes =~= cell_bytes(cell@));
    assert(final(out)@.take(old(out)@.len() as int) =~= old(out)@);
    law_cell_reads_back(cell@, Seq::empty());
    assert(cell_bytes(cell@) + Seq::<u8>::empty() =~= cell_bytes(cell@));
    match *cell {
        RowValue::String(s) => {
            assert(text_at(bytes) is Some);
            assert(bytes.len() > 0);
        },
        RowValue::LowCardinalityString(s) => {
            assert(text_at(bytes) is Some);
            assert(bytes.len() > 0);
        },
        RowValue::UInt8(n) => {
            assert(le_value(bytes.drop_first()) == 0) by {
                assert(bytes.drop_first().len() == 0);
            }
        },
        RowValue::StringMap(m) => {
            assert(varuint_at(bytes) is Some);
            assert(bytes.len() > 0);
        },
        _ => {},
    }
}

/// The JSON of a cell is the number, the text or the entries that it holds, and `null`
/// exactly for a time that is missing.
pub proof fn law_json_is_what_the_cell_holds(cell: &RowValue, json: JsonCell)
    requires
        call_ensures(RowValue::to_json, (cell,), json),
    ensures
        cell matches RowValue::String(s) ==> json@ == JsonView::Text(s@),
        cell matches RowValue::LowCardinalityString(s) ==> json@ == JsonView::Text(s@),
        cell matches RowValue::UInt8(n) ==> json@ == JsonView::Number(*n as int),
        cell matches RowValue::UInt32(n) ==> json@ == JsonView::Number(*n as int),
        cell matches RowValue::UInt64(n) ==> json@ == JsonView::Number(*n as int),
        cell matches RowValue::Int32(n) ==> json@ == JsonView::Number(*n as int),
        cell matches RowValue::Int64(n) ==> json@ == JsonView::Number(*n as int),
        cell matches RowValue::DateTime64Nanos(n) ==> json@ == JsonView::Number(*n as int),
        cell matches RowValue::NullableDateTime64Nanos(Some(n)) ==> json@ == JsonView::Number(
            *n as int,
        ),
        json@ == JsonView::Null <==> *cell == RowValue::NullableDateTime64Nanos(None),
        cell matches RowValue::StringMap(m) ==> json@ == JsonView::Object(
            attributes::map_of(m.pairs()),
        ),
{
}

/// A length is written behind what is there, and reads back; so is a text.
pub proof fn law_written_text_reads_back(
    n: u64,
    lengths: &mut Vec<u8>,
    s: &str,
    texts: &mut Vec<u8>,
)
    requires
        call_ensures(write_varuint, (lengths, n), ()),
        call_ensures(push_text, (texts, s), ()),
    ensures
        final(lengths)@.take(old(lengths)@.len() as int) == old(lengths)@,
        varuint_at(final(lengths)@.skip(old(lengths)@.len() as int)) matches Some((read, taken))
            && read == n && taken == final(lengths)@.len() - old(lengths)@.len(),
        final(texts)@.take(old(texts)@.len() as int) == old(texts)@,
        text_at(final(texts)@.skip(old(texts)@.len() as int)) == Some((s@, Seq::<u8>::empty())),
{
    assert(final(lengths)@.take(old(lengths)@.len() as int) =~= old(lengths)@);
    assert(final(lengths)@.skip(old(lengths)@.len() as int) =~= varuint(n as nat) + Seq::<
        u8,
    >::empty());
    law_varuint_reads_back(n as nat, Seq::empty());
    assert(final(texts)@.take(old(texts)@.len() as int) =~= old(texts)@);
    assert(final(texts)@.skip(old(texts)@.len() as int) =~= text_bytes(s@) + Seq::<u8>::empty());
    law_text_reads_back(s@, Seq::empty());
}

} // verus!
