//! What the benches ask of a ClickHouse server: statements, and how their answers
//! are read.
use std::time::Duration;
use vstd::prelude::*;

use crate::serializer::SerializationFormat;
use crate::text;
use crate::text::{debug_text, number_error_text, owned, parse_u64, push_decimal, trim};
use crate::time;
use crate::writer::{HttpClientMode, WriterConfig};

verus! {

/// Why the server could not be set up or asked.
#[derive(Debug)]
pub enum FixtureError {
    Testcontainers(String),
    Writer(String),
    Query(String),
}

/// The message of an error.
pub open spec fn fixture_error_text(e: FixtureError) -> Seq<char> {
    match e {
        FixtureError::Testcontainers(m) => "testcontainers: "@ + m@,
        FixtureError::Writer(m) => "ClickHouse writer: "@ + m@,
        FixtureError::Query(m) => "ClickHouse query: "@ + m@,
    }
}

impl FixtureError {
    pub fn message(&self) -> (r: String)
        ensures
            r@ == fixture_error_text(*self),
    {
        match self {
            FixtureError::Testcontainers(m) => {
                let mut out = owned("testcontainers: ");
                out.append(m.as_str());
                out
            },
            FixtureError::Writer(m) => {
                let mut out = owned("ClickHouse writer: ");
                out.append(m.as_str());
                out
            },
            FixtureError::Query(m) => {
                let mut out = owned("ClickHouse query: ");
                out.append(m.as_str());
                out
            },
        }
    }
}

/// The address of a server on a port of this machine.
pub fn local_endpoint(port: u16) -> (r: String)
    ensures
        r@ == "http://127.0.0.1:"@ + text::decimal(port as nat),
{
    let mut out = owned("http://127.0.0.1:");
    push_decimal(&mut out, port as u64);
    out
}

/// The writer with which a server is set up and asked.
pub fn fixture_writer_config(endpoint: String) -> (r: WriterConfig)
    ensures
        r.endpoint == endpoint,
        r.user@ == "default"@,
        r.password@ == Seq::<char>::empty(),
        time::duration_nanos(r.request_timeout) == 30_000_000_000,
        r.max_attempts == 4,
        time::duration_nanos(r.initial_backoff) == 100_000_000,
        r.serialization_format == SerializationFormat::JsonEachRow,
        r.http_client_mode == HttpClientMode::PerCall,
{
    WriterConfig {
        endpoint,
        user: owned("default"),
        password: String::new(),
        request_timeout: Duration::from_secs(30),
        max_attempts: 4,
        initial_backoff: Duration::from_millis(100),
        serialization_format: SerializationFormat::JsonEachRow,
        http_client_mode: HttpClientMode::PerCall,
    }
}

/// The writer of the sink of a run: that of the fixture, with the format and the
/// client that the run is about.
pub fn sink_writer_config(
    fixture: &WriterConfig,
    endpoint: &str,
    serialization_format: SerializationFormat,
    http_client_mode: HttpClientMode,
) -> (r: WriterConfig)
    ensures
        r.endpoint@ == endpoint@,
        r.user@ == fixture.user@,
        r.password@ == fixture.password@,
        r.request_timeout == fixture.request_timeout,
        r.max_attempts == fixture.max_attempts,
        r.initial_backoff == fixture.initial_backoff,
        r.serialization_format == serialization_format,
        r.http_client_mode == http_client_mode,
{
    WriterConfig {
        endpoint: owned(endpoint),
        user: owned(fixture.user.as_str()),
        password: owned(fixture.password.as_str()),
        request_timeout: fixture.request_timeout,
        max_attempts: fixture.max_attempts,
        initial_backoff: fixture.initial_backoff,
        serialization_format,
        http_client_mode,
    }
}

/// The statement that makes a database.
pub fn create_database_sql(database: &str) -> (r: String)
    ensures
        r@ == "CREATE DATABASE IF NOT EXISTS "@ + database@,
{
    let mut out = owned("CREATE DATABASE IF NOT EXISTS ");
    out.append(database);
    out
}

/// A table as a statement names it.
pub open spec fn qualified(database: Seq<char>, table: Seq<char>) -> Seq<char> {
    database + "."@ + table
}

fn push_qualified(out: &mut String, database: &str, table: &str)
    ensures
        final(out)@ == old(out)@ + qualified(database@, table@),
{
    out.append(database);
    out.append(".");
    out.append(table);
    assert(out@ =~= old(out)@ + qualified(database@, table@));
}

/// The statement that empties a table before an iteration.
pub fn truncate_sql(database: &str, table: &str) -> (r: String)
    ensures
        r@ == "TRUNCATE TABLE IF EXISTS "@ + qualified(database@, table@),
{
    let mut out = owned("TRUNCATE TABLE IF EXISTS ");
    push_qualified(&mut out, database, table);
    out
}

/// The number of rows, as they are stored.
pub open spec fn raw_count_text(database: Seq<char>, table: Seq<char>) -> Seq<char> {
    "SELECT count() FROM "@ + qualified(database, table)
}

pub fn count_raw_sql(database: &str, table: &str) -> (r: String)
    ensures
        r@ == raw_count_text(database@, table@),
{
    let mut out = owned("SELECT count() FROM ");
    push_qualified(&mut out, database, table);
    out
}

/// The number of rows that are left after replaced ones are taken out.
pub fn count_visible_sql(database: &str, table: &str) -> (r: String)
    ensures
        r@ == raw_count_text(database@, table@) + " FINAL"@,
{
    let mut out = count_raw_sql(database, table);
    out.append(" FINAL");
    out
}

/// How many stored rows share their source coordinates with another.
pub open spec fn duplicates_text(database: Seq<char>, table: Seq<char>) -> Seq<char> {
    "SELECT count() - count(DISTINCT (_odb_sequence, _odb_entry_index, _odb_record_index)) FROM "@
        + qualified(database, table)
}

pub fn count_pre_dedupe_duplicates_sql(database: &str, table: &str) -> (r: String)
    ensures
        r@ == duplicates_text(database@, table@),
{
    let mut out = owned(
        "SELECT count() - count(DISTINCT (_odb_sequence, _odb_entry_index, _odb_record_index)) FROM ",
    );
    push_qualified(&mut out, database, table);
    out
}

pub fn count_post_dedupe_duplicates_sql(database: &str, table: &str) -> (r: String)
    ensures
        r@ == duplicates_text(database@, table@) + " FINAL"@,
{
    let mut out = count_pre_dedupe_duplicates_sql(database, table);
    out.append(" FINAL");
    out
}

/// A fingerprint of the rows of a table that does not depend on their order. The
/// time at which the server took a row in is left out.
pub fn hash_rows_sql(database: &str, table: &str) -> (r: String)
    ensures
        r@
            == "SELECT sum(cityHash64(toString(tuple(* EXCEPT _odb_clickhouse_inserted_at)))) FROM "@
            + qualified(database@, table@) + " FINAL"@,
{
    let mut out = owned(
        "SELECT sum(cityHash64(toString(tuple(* EXCEPT _odb_clickhouse_inserted_at)))) FROM ",
    );
    push_qualified(&mut out, database, table);
    out.append(" FINAL");
    out
}

/// A fingerprint of one column of a table.
pub fn hash_column_sql(database: &str, table: &str, column: &str) -> (r: String)
    ensures
        r@ == "SELECT sum(cityHash64(toString("@ + column@ + "))) FROM "@ + qualified(
            database@,
            table@,
        ) + " FINAL"@,
{
    let mut out = owned("SELECT sum(cityHash64(toString(");
    out.append(column);
    out.append("))) FROM ");
    push_qualified(&mut out, database, table);
    out.append(" FINAL");
    out
}

/// The number that an answer holds, with white space around it.
pub open spec fn count_in(raw: Seq<char>) -> Option<u64> {
    text::parsed_u64(text::trimmed_end(text::trimmed_start(raw)))
}

/// What is said of an answer that is not a number.
pub open spec fn bad_count_text(sql: Seq<char>, raw: Seq<char>) -> Seq<char> {
    "parse "@ + text::str_debug(sql) + " -> "@ + text::str_debug(raw) + ": "@ + text::number_error(
        text::trimmed_end(text::trimmed_start(raw)),
    )
}

/// Reads the answer to a statement that asks for one number.
pub fn read_count(sql: &str, raw: &str) -> (r: Result<u64, FixtureError>)
    ensures
        match count_in(raw@) {
            Some(n) => r == Ok::<u64, FixtureError>(n),
            None => r matches Err(FixtureError::Query(m)) && m@ == bad_count_text(sql@, raw@),
        },
{
    let answer: &str = trim(raw);
    match parse_u64(answer) {
        Some(n) => Ok(n),
        None => {
            let mut out = owned("parse ");
            out.append(debug_text(sql).as_str());
            out.append(" -> ");
            out.append(debug_text(raw).as_str());
            out.append(": ");
            out.append(number_error_text(answer).as_str());
            Err(FixtureError::Query(out))
        },
    }
}

/// The server answers with a number and a line feed, and that number is read.
pub proof fn law_count_round_trip(n: u64)
    ensures
        count_in(text::decimal(n as nat) + "\n"@) == Some(n),
{
    reveal_strlit("\n");
    let digits = text::decimal(n as nat);
    let answer = digits + "\n"@;
    text::lemma_decimal_shape(n as nat);
    text::law_decimal_round_trip(n);
    assert(answer[0] == digits[0]);
    assert(text::trimmed_start(answer) == answer);
    assert(answer.last() == '\n');
    assert(answer.drop_last() =~= digits);
    assert(digits.last() == digits[digits.len() - 1]);
    assert(text::trimmed_end(digits) == digits);
    assert(text::trimmed_end(answer) == digits);
}

/// The questions put to a server all name the table by its database. What is asked of
/// the rows as they are stored and what is asked of those that are left differ by
/// `FINAL` alone.
pub proof fn law_questions_name_the_table(
    database: &str,
    table: &str,
    raw: String,
    visible: String,
    before: String,
    after: String,
    emptied: String,
    made: String,
)
    requires
        call_ensures(count_raw_sql, (database, table), raw),
        call_ensures(count_visible_sql, (database, table), visible),
        call_ensures(count_pre_dedupe_duplicates_sql, (database, table), before),
        call_ensures(count_post_dedupe_duplicates_sql, (database, table), after),
        call_ensures(truncate_sql, (database, table), emptied),
        call_ensures(create_database_sql, (database,), made),
    ensures
        raw@ == "SELECT count() FROM "@ + (database@ + "."@ + table@),
        visible@ == raw@ + " FINAL"@,
        before@
            == "SELECT count() - count(DISTINCT (_odb_sequence, _odb_entry_index, _odb_record_index)) FROM "@
            + (database@ + "."@ + table@),
        after@ == before@ + " FINAL"@,
        emptied@ == "TRUNCATE TABLE IF EXISTS "@ + (database@ + "."@ + table@),
        made@ == "CREATE DATABASE IF NOT EXISTS "@ + database@,
{
}

/// A fingerprint is asked of the rows that are left: of all columns but the time at
/// which the server took a row in, or of the one column that is named.
pub proof fn law_fingerprints_are_of_visible_rows(
    database: &str,
    table: &str,
    column: &str,
    rows: String,
    one: String,
)
    requires
        call_ensures(hash_rows_sql, (database, table), rows),
        call_ensures(hash_column_sql, (database, table, column), one),
    ensures
        rows@
            == "SELECT sum(cityHash64(toString(tuple(* EXCEPT _odb_clickhouse_inserted_at)))) FROM "@
            + (database@ + "."@ + table@) + " FINAL"@,
        one@ == "SELECT sum(cityHash64(toString("@ + column@ + "))) FROM "@ + (database@ + "."@
            + table@) + " FINAL"@,
{
}

/// An answer is read as the number that it holds, whatever white space stands before
/// and behind it. Where it is not a number, the error is about the question and the
/// answer.
pub proof fn law_answer_is_its_number(
    sql: &str,
    raw: &str,
    r: Result<u64, FixtureError>,
    n: u64,
)
    requires
        call_ensures(read_count, (sql, raw), r),
    ensures
        raw@ == text::decimal(n as nat) + "\n"@ ==> r == Ok::<u64, FixtureError>(n),
        raw@.len() == 0 ==> r is Err,
        r is Err ==> r->Err_0 is Query,
{
    law_count_round_trip(n);
}

/// The sink of a run talks to the server as the fixture does, in the format and with
/// the client of the run.
pub proof fn law_sink_talks_as_the_fixture(
    fixture: &WriterConfig,
    endpoint: &str,
    format: SerializationFormat,
    client: HttpClientMode,
    r: WriterConfig,
)
    requires
        call_ensures(sink_writer_config, (fixture, endpoint, format, client), r),
    ensures
        r.endpoint@ == endpoint@,
        r.serialization_format == format,
        r.http_client_mode == client,
        r.user@ == fixture.user@,
        r.password@ == fixture.password@,
        r.request_timeout == fixture.request_timeout,
        r.max_attempts == fixture.max_attempts,
        r.initial_backoff == fixture.initial_backoff,
{
}

} // verus!
