use clickhouse_ingestor::adapter::{
    write_varuint, ClickHouseSettings, InsertChunk, JsonCell, RowValue,
};
use clickhouse_ingestor::attributes::AttributeMap;
use clickhouse_ingestor::logs_adapter::log_columns;
use clickhouse_ingestor::serializer::jsoneachrow::JsonEachRowSerializer;
use clickhouse_ingestor::serializer::rowbinary::{clickhouse_type_for_column, RowBinarySerializer};
use clickhouse_ingestor::serializer::{build_serializer, ChunkSerializer, SerializationFormat};
use clickhouse_ingestor::writer::WriterError;
use serde_json::Value as JsonValue;

fn chunk(rows: Vec<Vec<RowValue>>) -> InsertChunk {
    InsertChunk {
        database: "responsive".into(),
        table: "logs".into(),
        columns: vec!["a", "b"],
        rows,
        settings: ClickHouseSettings {
            insert_quorum: Some("auto".into()),
            insert_deduplication_token: "tok".into(),
            apply_deduplication_token: true,
        },
        idempotency_token: "tok".into(),
        chunk_index: 0,
        observability_labels: vec![],
    }
}

fn severity_chunk(rows: Vec<Vec<RowValue>>) -> InsertChunk {
    InsertChunk {
        database: "responsive".into(),
        table: "logs".into(),
        columns: vec!["SeverityNumber"],
        rows,
        settings: ClickHouseSettings::default(),
        idempotency_token: "tok".into(),
        chunk_index: 0,
        observability_labels: vec![],
    }
}

#[test]
fn jsoneachrow_emits_one_object_per_row() {
    let c = chunk(vec![
        vec![RowValue::String("x".into()), RowValue::UInt64(1)],
        vec![RowValue::String("y".into()), RowValue::UInt64(2)],
    ]);
    let body = JsonEachRowSerializer.serialize(&c).expect("serialize");
    let body_str = std::str::from_utf8(&body).expect("utf8");
    let lines: Vec<&str> = body_str.lines().collect();
    assert_eq!(lines.len(), 2);
    let row0: JsonValue = serde_json::from_str(lines[0]).unwrap();
    assert_eq!(row0["a"], "x");
    assert_eq!(row0["b"], 1);
    let row1: JsonValue = serde_json::from_str(lines[1]).unwrap();
    assert_eq!(row1["a"], "y");
    assert_eq!(row1["b"], 2);
}

#[test]
fn jsoneachrow_rejects_row_column_mismatch() {
    let mut c = chunk(vec![vec![RowValue::String("x".into())]]);
    c.columns = vec!["a", "b"];
    let err = JsonEachRowSerializer.serialize(&c).unwrap_err();
    match err {
        WriterError::Serialization(msg) => assert!(msg.contains("row has 1 values")),
        other => panic!("unexpected error: {other:?}"),
    }
}

/// Every column that the logs adapter writes has a RowBinary type.
#[test]
fn rowbinary_type_table_covers_all_otlp_logs_columns() {
    for col in log_columns() {
        clickhouse_type_for_column(col)
            .unwrap_or_else(|e| panic!("missing rowbinary type for column {col:?}: {e:?}"));
    }
}

#[test]
fn write_row_binary_emits_expected_bytes_for_each_variant() {
    let mut out = Vec::new();
    RowValue::UInt8(0x5A).write_row_binary(&mut out);
    assert_eq!(out, vec![0x5A]);

    out.clear();
    RowValue::UInt32(0x0102_0304).write_row_binary(&mut out);
    assert_eq!(out, vec![0x04, 0x03, 0x02, 0x01]);

    out.clear();
    RowValue::UInt64(0x0807_0605_0403_0201).write_row_binary(&mut out);
    assert_eq!(out, vec![0x01, 0x02, 0x03, 0x04, 0x05, 0x06, 0x07, 0x08]);

    out.clear();
    RowValue::Int32(-1).write_row_binary(&mut out);
    assert_eq!(out, vec![0xFF, 0xFF, 0xFF, 0xFF]);

    out.clear();
    RowValue::Int64(-1).write_row_binary(&mut out);
    assert_eq!(out, vec![0xFF, 0xFF, 0xFF, 0xFF, 0xFF, 0xFF, 0xFF, 0xFF]);

    out.clear();
    RowValue::DateTime64Nanos(0).write_row_binary(&mut out);
    assert_eq!(out, vec![0, 0, 0, 0, 0, 0, 0, 0]);

    out.clear();
    RowValue::String("hi".into()).write_row_binary(&mut out);
    assert_eq!(out, vec![0x02, b'h', b'i']);

    out.clear();
    RowValue::LowCardinalityString("abc".into()).write_row_binary(&mut out);
    assert_eq!(out, vec![0x03, b'a', b'b', b'c']);

    out.clear();
    let mut map = AttributeMap::new();
    map.insert("k".to_string(), "v".to_string());
    map.insert("aa".to_string(), "bb".to_string());
    RowValue::StringMap(map).write_row_binary(&mut out);
    // Count, then ("aa","bb"), ("k","v") in the order of the keys.
    assert_eq!(
        out,
        vec![
            0x02, // count = 2
            0x02, b'a', b'a', 0x02, b'b', b'b', 0x01, b'k', 0x01, b'v',
        ],
    );
}

#[test]
fn rowbinary_serialize_header_for_otlp_logs() {
    let chunk = severity_chunk(vec![vec![RowValue::UInt8(9)], vec![RowValue::UInt8(13)]]);
    let bytes = RowBinarySerializer.serialize(&chunk).expect("serialize");
    // Header: 1 column, name "SeverityNumber", type "UInt8".
    let mut expected = Vec::new();
    expected.push(0x01); // column count
    expected.push(b"SeverityNumber".len() as u8);
    expected.extend_from_slice(b"SeverityNumber");
    expected.push(b"UInt8".len() as u8);
    expected.extend_from_slice(b"UInt8");
    expected.push(9);
    expected.push(13);
    assert_eq!(bytes, expected);
}

#[test]
fn rowbinary_rejects_row_column_mismatch() {
    let chunk = severity_chunk(vec![vec![RowValue::UInt8(1), RowValue::UInt8(2)]]);
    let err = RowBinarySerializer.serialize(&chunk).unwrap_err();
    match err {
        WriterError::Serialization(msg) => assert!(msg.contains("row has 2 values")),
        other => panic!("unexpected error: {other:?}"),
    }
}

#[test]
fn rowbinary_rejects_an_unknown_column() {
    let err = clickhouse_type_for_column("nope").unwrap_err();
    match err {
        WriterError::Serialization(msg) => assert_eq!(
            msg,
            "no RowBinary type table entry for column \"nope\"; update `clickhouse_type_for_column` to match the adapter DDL"
        ),
        other => panic!("unexpected error: {other:?}"),
    }
}

#[test]
fn nullable_time_has_a_flag_byte() {
    let mut out = Vec::new();
    RowValue::NullableDateTime64Nanos(None).write_row_binary(&mut out);
    assert_eq!(out, vec![1]);
    out.clear();
    RowValue::NullableDateTime64Nanos(Some(258)).write_row_binary(&mut out);
    assert_eq!(out, vec![0, 2, 1, 0, 0, 0, 0, 0, 0]);
}

#[test]
fn lengths_are_written_seven_bits_at_a_time() {
    let mut out = Vec::new();
    write_varuint(&mut out, 127);
    write_varuint(&mut out, 128);
    write_varuint(&mut out, 300);
    assert_eq!(out, vec![0x7F, 0x80, 0x01, 0xAC, 0x02]);
    out.clear();
    write_varuint(&mut out, u64::MAX);
    assert_eq!(out.len(), 10);
}

#[test]
fn two_row_lists_never_share_their_bytes() {
    // A row that ends where another begins is still told apart by its length.
    let one = severity_chunk(vec![vec![RowValue::UInt8(1)], vec![RowValue::UInt8(2)]]);
    let two = severity_chunk(vec![vec![RowValue::UInt8(1)]]);
    let a = RowBinarySerializer.serialize(&one).unwrap();
    let b = RowBinarySerializer.serialize(&two).unwrap();
    assert_ne!(a, b);
    let mut x = Vec::new();
    RowValue::String("ab".into()).write_row_binary(&mut x);
    RowValue::String("c".into()).write_row_binary(&mut x);
    let mut y = Vec::new();
    RowValue::String("a".into()).write_row_binary(&mut y);
    RowValue::String("bc".into()).write_row_binary(&mut y);
    assert_ne!(x, y);
}

#[test]
fn json_rows_escape_line_feeds() {
    let c = chunk(vec![vec![RowValue::String("one\ntwo".into()), RowValue::Int64(-5)]]);
    let body = JsonEachRowSerializer.serialize(&c).expect("serialize");
    assert_eq!(body, b"{\"a\":\"one\\ntwo\",\"b\":-5}\n".to_vec());
}

#[test]
fn cells_have_json_forms() {
    assert!(matches!(RowValue::UInt8(7).to_json(), JsonCell::Unsigned(7)));
    assert!(matches!(RowValue::Int32(-7).to_json(), JsonCell::Signed(-7)));
    assert!(matches!(RowValue::NullableDateTime64Nanos(None).to_json(), JsonCell::Null));
    match RowValue::LowCardinalityString("x".into()).to_json() {
        JsonCell::Text(s) => assert_eq!(s, "x"),
        other => panic!("unexpected {other:?}"),
    }
    let map = AttributeMap::from_pairs(vec![("b".into(), "2".into()), ("a".into(), "1".into())]);
    match RowValue::StringMap(map).to_json() {
        JsonCell::Object(pairs) => assert_eq!(
            pairs,
            vec![("a".to_string(), "1".to_string()), ("b".to_string(), "2".to_string())]
        ),
        other => panic!("unexpected {other:?}"),
    }
}

#[test]
fn formats_have_labels_and_keywords() {
    assert_eq!(SerializationFormat::JsonEachRow.as_label(), "json_each_row");
    assert_eq!(SerializationFormat::RowBinary.as_label(), "row_binary");
    assert_eq!(SerializationFormat::JsonEachRow.format_keyword(), "JSONEachRow");
    assert_eq!(
        SerializationFormat::RowBinary.format_keyword(),
        "RowBinaryWithNamesAndTypes"
    );
    for format in [SerializationFormat::JsonEachRow, SerializationFormat::RowBinary] {
        assert_eq!(build_serializer(format).format(), format);
    }
    let c = severity_chunk(vec![vec![RowValue::UInt8(3)]]);
    assert_eq!(
        build_serializer(SerializationFormat::RowBinary).serialize(&c).unwrap(),
        RowBinarySerializer.serialize(&c).unwrap()
    );
}

#[test]
fn a_json_number_is_its_value() {
    let signed = JsonEachRowSerializer
        .serialize(&severity_chunk(vec![vec![RowValue::Int64(5)]]))
        .expect("serialize");
    let unsigned = JsonEachRowSerializer
        .serialize(&severity_chunk(vec![vec![RowValue::UInt64(5)]]))
        .expect("serialize");
    assert_eq!(signed, unsigned);
    assert_eq!(signed, b"{\"SeverityNumber\":5}\n".to_vec());
    let negative = JsonEachRowSerializer
        .serialize(&severity_chunk(vec![vec![RowValue::Int64(-5)]]))
        .expect("serialize");
    assert_eq!(negative, b"{\"SeverityNumber\":-5}\n".to_vec());
}
