//! ClickHouse writer: what is sent for a chunk, how an answer is read, and when
//! an attempt is repeated.
//!
//! Every chunk goes out as one synchronous HTTP insert. The statement and the
//! rows share the request body, and the settings ride in the URL. A failed
//! attempt is retried with the same request, and therefore the same
//! deduplication token, while the failure is one that may pass.
use std::time::Duration;
use vstd::arithmetic::power2::*;
use vstd::prelude::*;
use vstd::utf8::*;

use crate::adapter::InsertChunk;
use crate::metrics::InsertResult;
use crate::serializer;
use crate::serializer::{build_serializer, ChunkSerializer, FormatSerializer, SerializationFormat};
use crate::text;
use crate::text::{owned, push_bytes, push_decimal};
use crate::time;

verus! {

/// What kind of failure an error is.
#[derive(Debug, Clone, Copy, PartialEq, Eq, Structural)]
pub enum WriterErrorClass {
    /// May pass: try the same request again.
    Retryable,
    /// Will not pass: stop and report.
    NonRetryable,
    /// The attempts were used up on failures after any of which the insert may
    /// have been committed.
    RetryBudgetExhausted,
}

/// Why an insert failed.
#[derive(Debug)]
pub enum WriterError {
    Retryable { message: String },
    NonRetryable { message: String },
    /// A retryable failure after which the attempts were used up.
    RetryBudgetExhausted { message: String },
    Serialization(String),
}

/// The class of an error. What cannot be serialized now cannot be later either.
pub open spec fn class_of(e: WriterError) -> WriterErrorClass {
    match e {
        WriterError::Retryable { message } => WriterErrorClass::Retryable,
        WriterError::NonRetryable { message } => WriterErrorClass::NonRetryable,
        WriterError::RetryBudgetExhausted { message } => WriterErrorClass::RetryBudgetExhausted,
        WriterError::Serialization(_) => WriterErrorClass::NonRetryable,
    }
}

/// The printed form of an error.
pub open spec fn writer_error_text(e: WriterError) -> Seq<char> {
    match e {
        WriterError::Retryable { message } => "clickhouse insert failed (retryable): "@ + message@,
        WriterError::NonRetryable { message } => "clickhouse insert failed (non-retryable): "@
            + message@,
        WriterError::RetryBudgetExhausted { message } =>
        "clickhouse insert failed (retry budget exhausted): "@ + message@,
        WriterError::Serialization(message) => "serialization error: "@ + message@,
    }
}

impl WriterError {
    pub fn class(&self) -> (c: WriterErrorClass)
        ensures
            c == class_of(*self),
    {
        match self {
            WriterError::Retryable { .. } => WriterErrorClass::Retryable,
            WriterError::RetryBudgetExhausted { .. } => WriterErrorClass::RetryBudgetExhausted,
            WriterError::NonRetryable { .. } => WriterErrorClass::NonRetryable,
            WriterError::Serialization(_) => WriterErrorClass::NonRetryable,
        }
    }

    /// The printed form of the error.
    pub fn message(&self) -> (s: String)
        ensures
            s@ == writer_error_text(*self),
    {
        match self {
            WriterError::Retryable { message } => {
                let mut out = String::from_str("clickhouse insert failed (retryable): ");
                out.append(message.as_str());
                out
            },
            WriterError::NonRetryable { message } => {
                let mut out = String::from_str("clickhouse insert failed (non-retryable): ");
                out.append(message.as_str());
                out
            },
            WriterError::RetryBudgetExhausted { message } => {
                let mut out = String::from_str(
                    "clickhouse insert failed (retry budget exhausted): ",
                );
                out.append(message.as_str());
                out
            },
            WriterError::Serialization(message) => {
                let mut out = String::from_str("serialization error: ");
                out.append(message.as_str());
                out
            },
        }
    }
}

/// How the writer manages its HTTP client.
#[derive(Debug, Clone, Copy, PartialEq, Eq, Structural)]
pub enum HttpClientMode {
    /// A fresh client for every request.
    PerCall,
    /// One client for the lifetime of the writer, with a pool of idle
    /// connections.
    Pooled { pool_max_idle_per_host: usize, pool_idle_timeout_ms: u64 },
}

impl Default for HttpClientMode {
    fn default() -> (m: Self)
        ensures
            m == HttpClientMode::PerCall,
    {
        HttpClientMode::PerCall
    }
}

/// The label of a mode.
pub open spec fn http_mode_text(mode: HttpClientMode) -> &'static str {
    match mode {
        HttpClientMode::PerCall => "per_call",
        HttpClientMode::Pooled { pool_max_idle_per_host, pool_idle_timeout_ms } => "pooled",
    }
}

impl HttpClientMode {
    pub fn as_label(&self) -> (s: &'static str)
        ensures
            s@ == http_mode_text(*self)@,
    {
        match self {
            HttpClientMode::PerCall => "per_call",
            HttpClientMode::Pooled { .. } => "pooled",
        }
    }
}

/// Configuration of the writer.
#[derive(Debug)]
pub struct WriterConfig {
    pub endpoint: String,
    pub user: String,
    pub password: String,
    /// How long a request may take.
    pub request_timeout: Duration,
    /// How many times a chunk is sent before its attempts are used up.
    pub max_attempts: u32,
    /// Wait before the second attempt; doubles with each further one.
    pub initial_backoff: Duration,
    pub serialization_format: SerializationFormat,
    pub http_client_mode: HttpClientMode,
}

impl Default for WriterConfig {
    fn default() -> (c: Self)
        ensures
            c.endpoint@ == "http://localhost:8123"@,
            c.user@ == "default"@,
            c.password@ == Seq::<char>::empty(),
            time::duration_nanos(c.request_timeout) == 30_000_000_000,
            c.max_attempts == 6,
            time::duration_nanos(c.initial_backoff) == 100_000_000,
            c.serialization_format == SerializationFormat::JsonEachRow,
            c.http_client_mode == HttpClientMode::PerCall,
    {
        WriterConfig {
            endpoint: owned("http://localhost:8123"),
            user: owned("default"),
            password: String::new(),
            request_timeout: Duration::from_secs(30),
            max_attempts: 6,
            initial_backoff: Duration::from_millis(100),
            serialization_format: SerializationFormat::default(),
            http_client_mode: HttpClientMode::default(),
        }
    }
}

/// How an HTTP client is built.
#[derive(Debug)]
pub struct ClientPlan {
    pub timeout: Duration,
    pub pool_max_idle_per_host: usize,
    pub pool_idle_timeout: Option<Duration>,
}

/// The class of a failed request, as far as the client tells.
#[derive(Debug, Clone, Copy, PartialEq, Eq, Structural)]
pub enum TransportFailure {
    Timeout,
    Connect,
    Status,
    Other,
}

/// The kind of a failed request from what the client says of it. A timeout or a
/// failure to connect comes first.
pub fn transport_failure(timeout: bool, connect: bool, status: bool) -> (kind: TransportFailure)
    ensures
        kind == if timeout {
            TransportFailure::Timeout
        } else if connect {
            TransportFailure::Connect
        } else if status {
            TransportFailure::Status
        } else {
            TransportFailure::Other
        },
{
    if timeout {
        TransportFailure::Timeout
    } else if connect {
        TransportFailure::Connect
    } else if status {
        TransportFailure::Status
    } else {
        TransportFailure::Other
    }
}

/// The prefix of the message about a failed request.
pub open spec fn transport_prefix(kind: TransportFailure) -> &'static str {
    match kind {
        TransportFailure::Timeout => "network/timeout: ",
        TransportFailure::Connect => "network/timeout: ",
        TransportFailure::Status => "http status: ",
        TransportFailure::Other => "request error: ",
    }
}

/// Reads a request that got no answer. Whatever went wrong may pass.
pub fn classify_transport(kind: TransportFailure, detail: &str) -> (e: WriterError)
    ensures
        e matches WriterError::Retryable { message } && message@ == transport_prefix(kind)@
            + detail@,
{
    let prefix = match kind {
        TransportFailure::Timeout => "network/timeout: ",
        TransportFailure::Connect => "network/timeout: ",
        TransportFailure::Status => "http status: ",
        TransportFailure::Other => "request error: ",
    };
    let mut message = String::from_str(prefix);
    message.append(detail);
    WriterError::Retryable { message }
}

/// Whether a status other than success may pass: too many requests, or a fault
/// of the server.
pub open spec fn status_may_pass(status: u16) -> bool {
    status == 429 || 500 <= status < 600
}

/// The message about a status.
pub open spec fn status_text(status: u16, body: Seq<char>) -> Seq<char> {
    "status "@ + text::decimal(status as nat) + ": "@ + body
}

/// Reads an answer that is not a success.
pub fn classify_status(status: u16, body: &str) -> (e: WriterError)
    ensures
        status_may_pass(status) ==> (e matches WriterError::Retryable { message } && message@
            == status_text(status, body@)),
        !status_may_pass(status) ==> (e matches WriterError::NonRetryable { message } && message@
            == status_text(status, body@)),
{
    let mut message = String::from_str("status ");
    push_decimal(&mut message, status as u64);
    message.append(": ");
    message.append(body);
    if status == 429 || (500 <= status && status < 600) {
        WriterError::Retryable { message }
    } else {
        WriterError::NonRetryable { message }
    }
}

/// The insert statement of a chunk, without settings and without a column list.
pub open spec fn insert_sql(chunk: InsertChunk, format: SerializationFormat) -> Seq<char> {
    "INSERT INTO "@ + chunk.database@ + "."@ + chunk.table@ + " FORMAT "@
        + serializer::format_keyword(format)@
}

pub fn render_insert_sql_clean(chunk: &InsertChunk, format: SerializationFormat) -> (s: String)
    ensures
        s@ == insert_sql(*chunk, format),
{
    let mut out = String::from_str("INSERT INTO ");
    out.append(chunk.database.as_str());
    out.append(".");
    out.append(chunk.table.as_str());
    out.append(" FORMAT ");
    out.append(format.format_keyword());
    out
}

/// A text without the slashes at its end.
pub open spec fn without_trailing_slashes(s: Seq<char>) -> Seq<char>
    decreases s.len(),
{
    if s.len() > 0 && s.last() == '/' {
        without_trailing_slashes(s.drop_last())
    } else {
        s
    }
}

fn trim_slashes(s: &str) -> (r: &str)
    ensures
        r@ == without_trailing_slashes(s@),
{
    let mut end: usize = s.unicode_len();
    assert(s@.take(end as int) =~= s@);
    while end > 0 && s.get_char(end - 1) == '/'
        invariant
            end <= s@.len(),
            without_trailing_slashes(s@.take(end as int)) == without_trailing_slashes(s@),
        decreases end,
    {
        assert(s@.take(end as int).drop_last() =~= s@.take(end - 1));
        end = end - 1;
    }
    let r = s.substring_char(0, end);
    assert(r@ =~= s@.take(end as int));
    r
}

/// Whether a byte stands for itself in a query parameter.
pub open spec fn unreserved(b: u8) -> bool {
    48 <= b <= 57 || 65 <= b <= 90 || 97 <= b <= 122 || b == 45 || b == 46 || b == 95 || b == 126
}

/// The upper-case hexadecimal digit for `d`.
pub open spec fn upper_hex_digit(d: nat) -> char {
    if d < 10 {
        (48 + d) as char
    } else {
        (55 + d) as char
    }
}

/// A percent-encoded byte string: letters, digits and `-._~` stand for
/// themselves, every other byte is a percent sign and two hexadecimal digits.
pub open spec fn percent_encoded(bytes: Seq<u8>) -> Seq<char>
    decreases bytes.len(),
{
    if bytes.len() == 0 {
        Seq::empty()
    } else {
        let b = bytes.last();
        percent_encoded(bytes.drop_last()) + if unreserved(b) {
            seq![b as char]
        } else {
            seq!['%', upper_hex_digit(b as nat / 16), upper_hex_digit(b as nat % 16)]
        }
    }
}

/// `urlencoding::encode` percent-encodes the UTF-8 bytes of a text, except
/// ASCII letters, digits, `-`, `_`, `.` and `~`.
#[verifier::external_body]
fn url_encode(s: &str) -> (r: String)
    ensures
        r@ == percent_encoded(encode_utf8(s@)),
{
    urlencoding::encode(s).into_owned()
}

/// The query parameter with the deduplication token, where it is applied.
pub open spec fn token_parameter(chunk: InsertChunk) -> Seq<char> {
    if chunk.settings.apply_deduplication_token {
        "&insert_deduplication_token="@ + percent_encoded(
            encode_utf8(chunk.settings.insert_deduplication_token@),
        )
    } else {
        Seq::empty()
    }
}

/// The query parameter with the insert quorum, where there is one.
pub open spec fn quorum_parameter(chunk: InsertChunk) -> Seq<char> {
    match chunk.settings.insert_quorum {
        Some(quorum) => "&insert_quorum="@ + percent_encoded(encode_utf8(quorum@)),
        None => Seq::empty(),
    }
}

/// The query parameter with the time limit in whole seconds, where there is one.
pub open spec fn timeout_parameter(timeout_nanos: nat) -> Seq<char> {
    if timeout_nanos > 0 {
        "&max_execution_time="@ + text::decimal(timeout_nanos / 1_000_000_000)
    } else {
        Seq::empty()
    }
}

/// The URL of an insert.
pub open spec fn insert_url(endpoint: Seq<char>, chunk: InsertChunk, timeout_nanos: nat) -> Seq<
    char,
> {
    without_trailing_slashes(endpoint) + "/?async_insert=0"@
        + "&date_time_input_format=best_effort"@ + token_parameter(chunk) + quorum_parameter(chunk)
        + timeout_parameter(timeout_nanos)
}

pub fn build_insert_url(endpoint: &str, chunk: &InsertChunk, timeout: Duration) -> (url: String)
    ensures
        url@ == insert_url(endpoint@, *chunk, time::duration_nanos(timeout)),
{
    let mut url = String::from_str(trim_slashes(endpoint));
    url.append("/?async_insert=0");
    url.append("&date_time_input_format=best_effort");
    let ghost fixed = url@;
    if chunk.settings.apply_deduplication_token {
        url.append("&insert_deduplication_token=");
        let token = url_encode(chunk.settings.insert_deduplication_token.as_str());
        url.append(token.as_str());
    }
    assert(url@ =~= fixed + token_parameter(*chunk));
    if let Some(quorum) = &chunk.settings.insert_quorum {
        url.append("&insert_quorum=");
        let value = url_encode(quorum.as_str());
        url.append(value.as_str());
    }
    assert(url@ =~= fixed + token_parameter(*chunk) + quorum_parameter(*chunk));
    if timeout.as_nanos() > 0 {
        url.append("&max_execution_time=");
        push_decimal(&mut url, timeout.as_secs());
    }
    assert(url@ =~= insert_url(endpoint@, *chunk, time::duration_nanos(timeout)));
    url
}

/// A request as it goes out.
#[derive(Debug)]
pub struct HttpRequest {
    pub url: String,
    pub body: Vec<u8>,
    /// Value of the `X-ClickHouse-User` header.
    pub user: Option<String>,
    /// Value of the `X-ClickHouse-Key` header.
    pub key: Option<String>,
}

/// What came back of a request.
#[derive(Debug)]
pub enum HttpOutcome {
    /// No client could be built.
    NoClient { detail: String },
    /// The request got no answer.
    Failed { kind: TransportFailure, detail: String },
    /// The server answered; a body that could not be read counts as empty.
    Answered { status: u16, body: String },
}

/// Whether a status is a success.
pub open spec fn status_is_success(status: u16) -> bool {
    200 <= status < 300
}

/// What an outcome means: the body of a success, or an error.
pub open spec fn outcome_means(outcome: HttpOutcome, r: Result<String, WriterError>) -> bool {
    match outcome {
        HttpOutcome::NoClient { detail } => r matches Err(WriterError::NonRetryable { message })
            && message@ == "reqwest client: "@ + detail@,
        HttpOutcome::Failed { kind, detail } => r matches Err(WriterError::Retryable { message })
            && message@ == transport_prefix(kind)@ + detail@,
        HttpOutcome::Answered { status, body } => if status_is_success(status) {
            r matches Ok(text) && text@ == body@
        } else if status_may_pass(status) {
            r matches Err(WriterError::Retryable { message }) && message@ == status_text(
                status,
                body@,
            )
        } else {
            r matches Err(WriterError::NonRetryable { message }) && message@ == status_text(
                status,
                body@,
            )
        },
    }
}

/// Reads what came back of a request.
pub fn read_outcome(outcome: HttpOutcome) -> (r: Result<String, WriterError>)
    ensures
        outcome_means(outcome, r),
{
    match outcome {
        HttpOutcome::NoClient { detail } => {
            let mut message = String::from_str("reqwest client: ");
            message.append(detail.as_str());
            Err(WriterError::NonRetryable { message })
        },
        HttpOutcome::Failed { kind, detail } => Err(classify_transport(kind, detail.as_str())),
        HttpOutcome::Answered { status, body } => {
            if 200 <= status && status < 300 {
                Ok(body)
            } else {
                Err(classify_status(status, body.as_str()))
            }
        },
    }
}

/// The value of a header that is sent only when it is not empty.
pub open spec fn header_value(s: Seq<char>) -> Option<Seq<char>> {
    if s.len() == 0 {
        None
    } else {
        Some(s)
    }
}

fn optional_header(s: &String) -> (r: Option<String>)
    ensures
        match r {
            Some(v) => header_value(s@) == Some(v@),
            None => header_value(s@) is None,
        },
{
    if s.as_str().is_empty() {
        None
    } else {
        Some(s.clone())
    }
}

/// Whether a request carries the configured credentials.
pub open spec fn carries_credentials(config: WriterConfig, request: HttpRequest) -> bool {
    &&& (match request.user {
        Some(v) => header_value(config.user@) == Some(v@),
        None => header_value(config.user@) is None,
    })
    &&& (match request.key {
        Some(v) => header_value(config.password@) == Some(v@),
        None => header_value(config.password@) is None,
    })
}

/// The writer: its configuration and the serializer that goes with it.
#[derive(Debug)]
pub struct ClickHouseWriter {
    config: WriterConfig,
    serializer: FormatSerializer,
}

impl View for ClickHouseWriter {
    type V = WriterConfig;

    closed spec fn view(&self) -> WriterConfig {
        self.config
    }
}

impl ClickHouseWriter {
    #[verifier::type_invariant]
    spec fn serializer_follows_config(&self) -> bool {
        self.serializer.wire_format() == self.config.serialization_format
    }

    pub fn new(config: WriterConfig) -> (w: Self)
        ensures
            w@ == config,
    {
        let serializer = build_serializer(config.serialization_format);
        ClickHouseWriter { config, serializer }
    }

    pub fn config(&self) -> (c: &WriterConfig)
        ensures
            *c == self@,
    {
        &self.config
    }

    /// Label of the client mode.
    pub fn http_mode_label(&self) -> (s: &'static str)
        ensures
            s@ == http_mode_text(self@.http_client_mode)@,
    {
        self.config.http_client_mode.as_label()
    }

    /// Label of the wire format.
    pub fn format_label(&self) -> (s: &'static str)
        ensures
            s@ == serializer::format_label(self@.serialization_format)@,
    {
        proof {
            use_type_invariant(self);
        }
        self.serializer.format().as_label()
    }

    /// How the shared client is built, when there is one.
    pub fn pooled_client_plan(&self) -> (p: Option<ClientPlan>)
        ensures
            match self@.http_client_mode {
                HttpClientMode::PerCall => p is None,
                HttpClientMode::Pooled { pool_max_idle_per_host, pool_idle_timeout_ms } => {
                    &&& p is Some
                    &&& p->0.timeout == self@.request_timeout
                    &&& p->0.pool_max_idle_per_host == pool_max_idle_per_host
                    &&& p->0.pool_idle_timeout is Some
                    &&& time::duration_nanos(p->0.pool_idle_timeout->0) == pool_idle_timeout_ms
                        * 1_000_000
                },
            },
    {
        match self.config.http_client_mode {
            HttpClientMode::PerCall => None,
            HttpClientMode::Pooled { pool_max_idle_per_host, pool_idle_timeout_ms } => Some(
                ClientPlan {
                    timeout: self.config.request_timeout,
                    pool_max_idle_per_host,
                    pool_idle_timeout: Some(Duration::from_millis(pool_idle_timeout_ms)),
                },
            ),
        }
    }

    /// How a client for a single request is built: it keeps no idle connection.
    /// It also serves when the shared client could not be built.
    pub fn per_call_client_plan(&self) -> (p: ClientPlan)
        ensures
            p.timeout == self@.request_timeout,
            p.pool_max_idle_per_host == 0,
            p.pool_idle_timeout is None,
    {
        ClientPlan {
            timeout: self.config.request_timeout,
            pool_max_idle_per_host: 0,
            pool_idle_timeout: None,
        }
    }

    /// The rows of a chunk in the configured format.
    pub fn serialize(&self, chunk: &InsertChunk) -> (r: Result<Vec<u8>, WriterError>)
        ensures
            serializer::encodes(self@.serialization_format, *chunk, r),
    {
        proof {
            use_type_invariant(self);
        }
        self.serializer.serialize(chunk)
    }

    /// The request that inserts serialized rows: the statement, a line feed and
    /// the rows in the body, the settings in the URL.
    pub fn insert_request(&self, chunk: &InsertChunk, rows: &Vec<u8>) -> (request: HttpRequest)
        ensures
            request.url@ == insert_url(
                self@.endpoint@,
                *chunk,
                time::duration_nanos(self@.request_timeout),
            ),
            request.body@ == encode_utf8(insert_sql(*chunk, self@.serialization_format)).push(10u8)
                + rows@,
            carries_credentials(self@, request),
    {
        proof {
            use_type_invariant(self);
        }
        let sql = render_insert_sql_clean(chunk, self.serializer.format());
        let mut body: Vec<u8> = Vec::new();
        push_bytes(&mut body, sql.as_str().as_bytes());
        body.push(10);
        push_bytes(&mut body, rows.as_slice());
        assert(body@ =~= encode_utf8(sql@).push(10u8) + rows@);
        HttpRequest {
            url: build_insert_url(
                self.config.endpoint.as_str(),
                chunk,
                self.config.request_timeout,
            ),
            body,
            user: optional_header(&self.config.user),
            key: optional_header(&self.config.password),
        }
    }

    /// The request that runs a statement.
    pub fn statement_request(&self, sql: &str) -> (request: HttpRequest)
        ensures
            request.url@ == without_trailing_slashes(self@.endpoint@),
            request.body@ == encode_utf8(sql@),
            carries_credentials(self@, request),
    {
        let mut body: Vec<u8> = Vec::new();
        push_bytes(&mut body, sql.as_bytes());
        assert(body@ =~= encode_utf8(sql@));
        HttpRequest {
            url: String::from_str(trim_slashes(self.config.endpoint.as_str())),
            body,
            user: optional_header(&self.config.user),
            key: optional_header(&self.config.password),
        }
    }
}

/// The label of an attempt.
pub open spec fn attempt_outcome(r: Result<(), WriterError>) -> InsertResult {
    match r {
        Ok(_) => InsertResult::Success,
        Err(e) => match class_of(e) {
            WriterErrorClass::Retryable => InsertResult::Retryable,
            WriterErrorClass::NonRetryable => InsertResult::NonRetryable,
            WriterErrorClass::RetryBudgetExhausted => InsertResult::RetryBudgetExhausted,
        },
    }
}

pub fn attempt_label(r: &Result<(), WriterError>) -> (label: InsertResult)
    ensures
        label == attempt_outcome(*r),
{
    match r {
        Ok(()) => InsertResult::Success,
        Err(e) => match e.class() {
            WriterErrorClass::Retryable => InsertResult::Retryable,
            WriterErrorClass::NonRetryable => InsertResult::NonRetryable,
            WriterErrorClass::RetryBudgetExhausted => InsertResult::RetryBudgetExhausted,
        },
    }
}

/// What to do after an attempt.
#[derive(Debug)]
pub enum RetryStep {
    /// The chunk is in.
    Done,
    /// Wait, then send the same request again.
    Retry { wait: Duration },
    /// Give up.
    Fail { error: WriterError },
}

/// The wait after a wait of `nanos`: twice as long, up to the longest duration.
pub open spec fn doubled(nanos: nat) -> nat {
    if nanos * 2 <= time::longest_duration_nanos() {
        nanos * 2
    } else {
        time::longest_duration_nanos()
    }
}

/// Where a chunk stands: how many attempts were made and how long the next wait
/// is.
pub struct RetryState {
    pub attempts: nat,
    pub backoff: nat,
    pub max_attempts: nat,
}

/// The state before the first attempt.
pub open spec fn retry_start(config: WriterConfig) -> RetryState {
    RetryState {
        attempts: 0,
        backoff: time::duration_nanos(config.initial_backoff),
        max_attempts: config.max_attempts as nat,
    }
}

/// The state after one more attempt that is followed by a wait.
pub open spec fn retry_next(s: RetryState) -> RetryState {
    RetryState { attempts: s.attempts + 1, backoff: doubled(s.backoff), ..s }
}

/// Whether an attempt that failed with `class` is repeated: the failure may
/// pass, and the attempt was not the last one.
pub open spec fn repeats(s: RetryState, class: WriterErrorClass) -> bool {
    class == WriterErrorClass::Retryable && s.attempts + 1 < s.max_attempts
}

/// The message when the attempts are used up.
pub open spec fn exhausted_text(max_attempts: nat, e: WriterError) -> Seq<char> {
    "retry budget ("@ + text::decimal(max_attempts) + ") exhausted: "@ + writer_error_text(e)
}

/// What follows an attempt with outcome `r`.
pub open spec fn step_follows(s: RetryState, r: Result<(), WriterError>, step: RetryStep) -> bool {
    match r {
        Ok(_) => step is Done,
        Err(e) => if repeats(s, class_of(e)) {
            step matches RetryStep::Retry { wait } && time::duration_nanos(wait) == s.backoff
        } else if class_of(e) == WriterErrorClass::Retryable {
            step matches RetryStep::Fail { error: WriterError::RetryBudgetExhausted { message } }
                && message@ == exhausted_text(s.max_attempts, e)
        } else {
            step matches RetryStep::Fail { error } && error == e
        },
    }
}

/// The attempts at one chunk.
#[derive(Debug)]
pub struct ChunkRun {
    attempts: u32,
    backoff: Duration,
    max_attempts: u32,
}

impl View for ChunkRun {
    type V = RetryState;

    closed spec fn view(&self) -> RetryState {
        RetryState {
            attempts: self.attempts as nat,
            backoff: time::duration_nanos(self.backoff),
            max_attempts: self.max_attempts as nat,
        }
    }
}

impl ChunkRun {
    #[verifier::type_invariant]
    spec fn attempts_left(&self) -> bool {
        self.attempts == 0 || self.attempts < self.max_attempts
    }

    /// A chunk of which nothing was sent yet.
    pub fn start(config: &WriterConfig) -> (run: Self)
        ensures
            run@ == retry_start(*config),
    {
        ChunkRun {
            attempts: 0,
            backoff: config.initial_backoff,
            max_attempts: config.max_attempts,
        }
    }

    /// Takes the outcome of an attempt and says what to do. While attempts are
    /// repeated the run is ready for the next; otherwise it is left as it was.
    pub fn after_attempt(&mut self, r: Result<(), WriterError>) -> (step: RetryStep)
        ensures
            step_follows(old(self)@, r, step),
            final(self)@ == if step is Retry {
                retry_next(old(self)@)
            } else {
                old(self)@
            },
    {
        proof {
            use_type_invariant(&*self);
        }
        let error = match r {
            Ok(()) => return RetryStep::Done,
            Err(e) => e,
        };
        match error.class() {
            WriterErrorClass::Retryable => {
                let made: u32 = self.attempts;
                if self.max_attempts > 0 && made < self.max_attempts - 1 {
                    let wait = self.backoff;
                    let next = wait.saturating_mul(2);
                    let max: u32 = self.max_attempts;
                    *self = ChunkRun { attempts: made + 1, backoff: next, max_attempts: max };
                    RetryStep::Retry { wait }
                } else {
                    let mut message = String::from_str("retry budget (");
                    push_decimal(&mut message, self.max_attempts as u64);
                    message.append(") exhausted: ");
                    let detail = error.message();
                    message.append(detail.as_str());
                    RetryStep::Fail { error: WriterError::RetryBudgetExhausted { message } }
                }
            },
            WriterErrorClass::NonRetryable => RetryStep::Fail { error },
            WriterErrorClass::RetryBudgetExhausted => RetryStep::Fail { error },
        }
    }
}

/// The state of a chunk after `k` attempts that were each followed by a wait.
pub open spec fn retry_after(config: WriterConfig, k: nat) -> RetryState
    decreases k,
{
    if k == 0 {
        retry_start(config)
    } else {
        retry_next(retry_after(config, (k - 1) as nat))
    }
}

/// The most attempts that a chunk gets: the configured number, but at least one.
pub open spec fn attempt_limit(config: WriterConfig) -> nat {
    if config.max_attempts == 0 {
        1
    } else {
        config.max_attempts as nat
    }
}

/// A chunk is sent a bounded number of times: after `k` waits, the next failure
/// that may pass is followed by another attempt exactly while fewer than the
/// limit have been made.
pub proof fn law_attempts_bounded(config: WriterConfig, k: nat)
    ensures
        retry_after(config, k).attempts == k,
        retry_after(config, k).max_attempts == config.max_attempts,
        repeats(retry_after(config, k), WriterErrorClass::Retryable) <==> k + 1 < attempt_limit(
            config,
        ),
    decreases k,
{
    if k > 0 {
        law_attempts_bounded(config, (k - 1) as nat);
    }
}

/// Each wait is twice the one before, up to the longest duration.
pub proof fn law_backoff_doubles(config: WriterConfig, k: nat)
    ensures
        retry_after(config, k + 1).backoff == doubled(retry_after(config, k).backoff),
        retry_after(config, k).backoff <= time::longest_duration_nanos() ==> retry_after(
            config,
            k,
        ).backoff <= retry_after(config, k + 1).backoff,
{
}

/// Where the write of a list of chunks stands.
pub struct WriteState {
    pub chunks: nat,
    pub position: nat,
    pub retry: RetryState,
    pub failed: bool,
}

/// The write of `chunks` chunks before anything was sent.
pub open spec fn write_start(config: WriterConfig, chunks: nat) -> WriteState {
    WriteState { chunks, position: 0, retry: retry_start(config), failed: false }
}

/// How an attempt ended: accepted, or failed with a class of error.
pub enum AttemptEnd {
    Accepted,
    Refused(WriterErrorClass),
}

/// The end of an attempt.
pub open spec fn attempt_end(r: Result<(), WriterError>) -> AttemptEnd {
    match r {
        Ok(_) => AttemptEnd::Accepted,
        Err(e) => AttemptEnd::Refused(class_of(e)),
    }
}

/// The write after one more attempt at the chunk at its position. Chunks go out
/// in order, each with attempts of its own, and one that fails ends the write:
/// nothing changes after it.
pub open spec fn write_next(config: WriterConfig, s: WriteState, end: AttemptEnd) -> WriteState {
    if s.failed {
        s
    } else {
        match end {
            AttemptEnd::Accepted => WriteState {
                position: s.position + 1,
                retry: retry_start(config),
                ..s
            },
            AttemptEnd::Refused(class) => if repeats(s.retry, class) {
                WriteState { retry: retry_next(s.retry), ..s }
            } else {
                WriteState { failed: true, ..s }
            },
        }
    }
}

/// What the write of a list of chunks does next.
#[derive(Debug)]
pub enum WriteAction {
    /// Send this chunk.
    Send { chunk: usize },
    /// Wait, then send this chunk again.
    Resend { chunk: usize, wait: Duration },
    /// Every chunk is in.
    Finished,
    /// A chunk failed.
    Failed { error: WriterError },
}

/// The write of a list of chunks.
#[derive(Debug)]
pub struct WriteRun {
    chunks: usize,
    position: usize,
    run: ChunkRun,
    failed: bool,
}

impl WriteRun {
    /// Where the write stands.
    pub closed spec fn state(&self) -> WriteState {
        WriteState {
            chunks: self.chunks as nat,
            position: self.position as nat,
            retry: self.run@,
            failed: self.failed,
        }
    }

    /// Starts the write of `chunks` chunks. Without chunks it is finished at
    /// once.
    pub fn start(config: &WriterConfig, chunks: usize) -> (r: (WriteRun, WriteAction))
        ensures
            r.0.state() == write_start(*config, chunks as nat),
            chunks == 0 ==> r.1 is Finished,
            chunks > 0 ==> r.1 == (WriteAction::Send { chunk: 0 }),
    {
        let run = WriteRun { chunks, position: 0, run: ChunkRun::start(config), failed: false };
        if chunks == 0 {
            (run, WriteAction::Finished)
        } else {
            (run, WriteAction::Send { chunk: 0 })
        }
    }

    /// Takes the outcome of the attempt at the chunk at the write's position and
    /// says what to do. A write that failed is over.
    pub fn after_attempt(&mut self, config: &WriterConfig, r: Result<(), WriterError>) -> (action:
        WriteAction)
        requires
            old(self).state().position < old(self).state().chunks,
            !old(self).state().failed,
        ensures
            final(self).state() == write_next(*config, old(self).state(), attempt_end(r)),
            ({
                let before = old(self).state();
                let after = final(self).state();
                match action {
                    WriteAction::Send { chunk } => r is Ok && chunk == after.position && after.position
                        < after.chunks,
                    WriteAction::Finished => r is Ok && after.position == after.chunks,
                    WriteAction::Resend { chunk, wait } => !after.failed && step_follows(
                        before.retry,
                        r,
                        RetryStep::Retry { wait },
                    ) && chunk == before.position,
                    WriteAction::Failed { error } => after.failed && step_follows(
                        before.retry,
                        r,
                        RetryStep::Fail { error },
                    ),
                }
            }),
    {
        match self.run.after_attempt(r) {
            RetryStep::Done => {
                self.position = self.position + 1;
                self.run = ChunkRun::start(config);
                if self.position < self.chunks {
                    WriteAction::Send { chunk: self.position }
                } else {
                    WriteAction::Finished
                }
            },
            RetryStep::Retry { wait } => WriteAction::Resend { chunk: self.position, wait },
            RetryStep::Fail { error } => {
                self.failed = true;
                WriteAction::Failed { error }
            },
        }
    }
}

/// The write after a run of attempts.
pub open spec fn write_after(
    config: WriterConfig,
    chunks: nat,
    ends: Seq<AttemptEnd>,
) -> WriteState
    decreases ends.len(),
{
    if ends.len() == 0 {
        write_start(config, chunks)
    } else {
        write_next(config, write_after(config, chunks, ends.drop_last()), ends.last())
    }
}

/// How many attempts were accepted.
pub open spec fn accepted(ends: Seq<AttemptEnd>) -> nat
    decreases ends.len(),
{
    if ends.len() == 0 {
        0
    } else {
        accepted(ends.drop_last()) + if ends.last() is Accepted {
            1nat
        } else {
            0nat
        }
    }
}

/// The position of a write that has not failed is the number of attempts that
/// were accepted: a write that is finished has had every one of its chunks
/// accepted, and one that has not is not finished.
pub proof fn law_finished_means_all_accepted(
    config: WriterConfig,
    chunks: nat,
    ends: Seq<AttemptEnd>,
)
    ensures
        write_after(config, chunks, ends).chunks == chunks,
        write_after(config, chunks, ends).position <= accepted(ends),
        !write_after(config, chunks, ends).failed ==> write_after(config, chunks, ends).position
            == accepted(ends),
    decreases ends.len(),
{
    if ends.len() > 0 {
        law_finished_means_all_accepted(config, chunks, ends.drop_last());
    }
}

/// A chunk that fails ends the write: whatever attempts follow, the write stays
/// failed at the position of that chunk.
pub proof fn law_failed_write_is_over(
    config: WriterConfig,
    chunks: nat,
    ends: Seq<AttemptEnd>,
    more: Seq<AttemptEnd>,
)
    requires
        write_after(config, chunks, ends).failed,
    ensures
        write_after(config, chunks, ends + more) == write_after(config, chunks, ends),
    decreases more.len(),
{
    if more.len() == 0 {
        assert(ends + more =~= ends);
    } else {
        assert((ends + more).drop_last() =~= ends + more.drop_last());
        law_failed_write_is_over(config, chunks, ends, more.drop_last());
    }
}

/// A write ends: while none has failed for good, the number of attempts is at
/// most the limit for each chunk that is in, and less than the limit for the one
/// that is being sent.
pub proof fn law_write_is_bounded(config: WriterConfig, chunks: nat, ends: Seq<AttemptEnd>)
    requires
        !write_after(config, chunks, ends).failed,
    ensures
        ({
            let s = write_after(config, chunks, ends);
            &&& s.retry.attempts < attempt_limit(config)
            &&& s.retry.max_attempts == config.max_attempts
            &&& ends.len() <= s.position * attempt_limit(config) + s.retry.attempts
        }),
    decreases ends.len(),
{
    if ends.len() > 0 {
        let front = ends.drop_last();
        let s = write_after(config, chunks, front);
        assert(!s.failed);
        law_write_is_bounded(config, chunks, front);
        let limit = attempt_limit(config);
        if ends.last() is Accepted {
            assert((s.position + 1) * limit == s.position * limit + limit) by (nonlinear_arith);
        }
    }
}

/// An answer is read by its status: 200 to 299 is a success with the body of the
/// answer; 429 and 500 to 599 may pass; every other status will not.
pub proof fn law_status_decides(status: u16, body: String, r: Result<String, WriterError>)
    requires
        outcome_means(HttpOutcome::Answered { status, body }, r),
    ensures
        r is Ok <==> 200 <= status <= 299,
        r matches Ok(text) ==> text@ == body@,
        (r matches Err(WriterError::Retryable { .. })) <==> status == 429 || 500 <= status <= 599,
        (r matches Err(WriterError::NonRetryable { .. })) <==> !(200 <= status <= 299) && status
            != 429 && !(500 <= status <= 599),
        r matches Err(WriterError::Retryable { message }) ==> message@ == "status "@
            + text::decimal(status as nat) + ": "@ + body@,
        r matches Err(WriterError::NonRetryable { message }) ==> message@ == "status "@
            + text::decimal(status as nat) + ": "@ + body@,
{
}

/// What is made of a status that is not a success depends on the status alone: 429
/// and 500 to 599 may pass, every other status will not.
pub proof fn law_status_is_classified(status: u16, body: &str, e: WriterError)
    requires
        call_ensures(classify_status, (status, body), e),
    ensures
        e is Retryable <==> status == 429 || 500 <= status <= 599,
        e is NonRetryable <==> status != 429 && !(500 <= status <= 599),
{
}

/// A request that got no answer may have been carried out, and is tried again; one
/// that could not be made is not.
pub proof fn law_unanswered_requests_are_tried_again(
    kind: TransportFailure,
    detail: String,
    failed: Result<String, WriterError>,
    unmade: Result<String, WriterError>,
)
    requires
        outcome_means(HttpOutcome::Failed { kind, detail }, failed),
        outcome_means(HttpOutcome::NoClient { detail }, unmade),
    ensures
        failed matches Err(WriterError::Retryable { .. }),
        unmade matches Err(WriterError::NonRetryable { .. }),
{
}

/// An attempt is repeated only after an error that may pass, and only while
/// attempts are left: after `k` waits of a configuration with `max_attempts`
/// attempts, the wait before the next one is the first wait doubled `k` times, as
/// far as a duration goes. Once they are used up the error says so; any other error
/// is passed on as it is, without another attempt.
pub proof fn law_retry_schedule(
    config: WriterConfig,
    k: nat,
    r: Result<(), WriterError>,
    step: RetryStep,
)
    requires
        time::duration_nanos(config.initial_backoff) <= time::longest_duration_nanos(),
        step_follows(retry_after(config, k), r, step),
    ensures
        r is Ok <==> step is Done,
        (r matches Err(WriterError::Retryable { .. })) && k + 1 < config.max_attempts
            <==> step is Retry,
        step matches RetryStep::Retry { wait } ==> time::duration_nanos(wait) == shorter(
            time::duration_nanos(config.initial_backoff) * pow2(k),
            u64::MAX as nat * 1_000_000_000 + 999_999_999,
        ),
        (r matches Err(WriterError::Retryable { .. })) && k + 1 >= config.max_attempts ==> (
        step matches RetryStep::Fail { error: WriterError::RetryBudgetExhausted { .. } }),
        r matches Err(e) ==> (!(e is Retryable) ==> step == (RetryStep::Fail { error: e })),
{
    lemma_retry_after(config, k);
}

/// The shorter of two lengths.
pub open spec fn shorter(a: nat, b: nat) -> nat {
    if a <= b {
        a
    } else {
        b
    }
}

proof fn lemma_retry_after(config: WriterConfig, k: nat)
    requires
        time::duration_nanos(config.initial_backoff) <= time::longest_duration_nanos(),
    ensures
        retry_after(config, k).attempts == k,
        retry_after(config, k).max_attempts == config.max_attempts,
        retry_after(config, k).backoff == shorter(
            time::duration_nanos(config.initial_backoff) * pow2(k),
            time::longest_duration_nanos(),
        ),
    decreases k,
{
    let first = time::duration_nanos(config.initial_backoff);
    let longest = time::longest_duration_nanos();
    if k == 0 {
        lemma2_to64();
    } else {
        lemma_retry_after(config, (k - 1) as nat);
        lemma_pow2_unfold(k);
        let before = first * pow2((k - 1) as nat);
        assert(first * pow2(k) == 2 * before) by (nonlinear_arith)
            requires
                pow2(k) == 2 * pow2((k - 1) as nat),
                before == first * pow2((k - 1) as nat),
        ;
    }
}

/// Each chunk has attempts and waits of its own: once a chunk is accepted, the next
/// one starts where the first one did.
pub proof fn law_each_chunk_starts_anew(config: WriterConfig, s: WriteState)
    requires
        !s.failed,
    ensures
        ({
            let next = write_next(config, s, AttemptEnd::Accepted);
            &&& next.position == s.position + 1
            &&& next.chunks == s.chunks
            &&& next.retry.attempts == 0
            &&& next.retry.backoff == time::duration_nanos(config.initial_backoff)
            &&& next.retry.max_attempts == config.max_attempts
            &&& !next.failed
        }),
{
}

/// A chunk that is refused stays the one to be sent: it is sent again while the
/// error may pass and attempts are left, and ends the write otherwise.
pub proof fn law_refused_chunk_is_not_passed_over(
    config: WriterConfig,
    s: WriteState,
    class: WriterErrorClass,
)
    requires
        !s.failed,
    ensures
        ({
            let next = write_next(config, s, AttemptEnd::Refused(class));
            &&& next.position == s.position
            &&& next.chunks == s.chunks
            &&& next.failed <==> class != WriterErrorClass::Retryable || s.retry.attempts + 1
                >= s.retry.max_attempts
            &&& !next.failed ==> next.retry.attempts == s.retry.attempts + 1
        }),
{
}

/// The parameters of a query, joined by ampersands.
pub open spec fn query_of(parameters: Seq<Seq<char>>) -> Seq<char>
    decreases parameters.len(),
{
    if parameters.len() == 0 {
        Seq::empty()
    } else if parameters.len() == 1 {
        parameters[0]
    } else {
        query_of(parameters.drop_last()) + seq!['&'] + parameters.last()
    }
}

proof fn lemma_query_push(parameters: Seq<Seq<char>>, last: Seq<char>)
    requires
        parameters.len() > 0,
    ensures
        query_of(parameters.push(last)) == query_of(parameters) + seq!['&'] + last,
{
    assert(parameters.push(last).drop_last() =~= parameters);
}

/// A run with one more, where there is one.
pub open spec fn with_optional(parameters: Seq<Seq<char>>, last: Option<Seq<char>>) -> Seq<
    Seq<char>,
> {
    match last {
        Some(s) => parameters.push(s),
        None => parameters,
    }
}

/// The URL of an insert asks for a synchronous insert and for lenient times; it
/// carries the token exactly if deduplication is on, the quorum exactly if there is
/// one, and the whole seconds of the time limit exactly if there is a limit.
pub proof fn law_insert_url_parameters(
    endpoint: Seq<char>,
    chunk: InsertChunk,
    timeout_nanos: nat,
)
    ensures
        ({
            let token = if chunk.settings.apply_deduplication_token {
                Some(
                    "insert_deduplication_token="@ + percent_encoded(
                        encode_utf8(chunk.settings.insert_deduplication_token@),
                    ),
                )
            } else {
                None
            };
            let quorum = match chunk.settings.insert_quorum {
                Some(q) => Some("insert_quorum="@ + percent_encoded(encode_utf8(q@))),
                None => None,
            };
            let limit = if timeout_nanos == 0 {
                None
            } else {
                Some("max_execution_time="@ + text::decimal(timeout_nanos / 1_000_000_000))
            };
            insert_url(endpoint, chunk, timeout_nanos) == without_trailing_slashes(endpoint)
                + "/?"@ + query_of(
                with_optional(
                    with_optional(
                        with_optional(
                            seq!["async_insert=0"@, "date_time_input_format=best_effort"@],
                            token,
                        ),
                        quorum,
                    ),
                    limit,
                ),
            )
        }),
{
    reveal_strlit("/?async_insert=0");
    reveal_strlit("&date_time_input_format=best_effort");
    reveal_strlit("&insert_deduplication_token=");
    reveal_strlit("&insert_quorum=");
    reveal_strlit("&max_execution_time=");
    reveal_strlit("/?");
    reveal_strlit("async_insert=0");
    reveal_strlit("date_time_input_format=best_effort");
    reveal_strlit("insert_deduplication_token=");
    reveal_strlit("insert_quorum=");
    reveal_strlit("max_execution_time=");
    assert("/?async_insert=0"@ =~= "/?"@ + "async_insert=0"@);
    assert("&date_time_input_format=best_effort"@ =~= seq!['&']
        + "date_time_input_format=best_effort"@);
    assert("&insert_deduplication_token="@ =~= seq!['&'] + "insert_deduplication_token="@);
    assert("&insert_quorum="@ =~= seq!['&'] + "insert_quorum="@);
    assert("&max_execution_time="@ =~= seq!['&'] + "max_execution_time="@);
    let base = without_trailing_slashes(endpoint);
    let one = seq!["async_insert=0"@];
    let fixed = seq!["async_insert=0"@, "date_time_input_format=best_effort"@];
    assert(fixed =~= one.push("date_time_input_format=best_effort"@));
    lemma_query_push(one, "date_time_input_format=best_effort"@);
    let u0 = base + "/?async_insert=0"@ + "&date_time_input_format=best_effort"@;
    assert(u0 =~= base + "/?"@ + query_of(fixed));
    let token = if chunk.settings.apply_deduplication_token {
        Some(
            "insert_deduplication_token="@ + percent_encoded(
                encode_utf8(chunk.settings.insert_deduplication_token@),
            ),
        )
    } else {
        None
    };
    let p1 = with_optional(fixed, token);
    let u1 = u0 + token_parameter(chunk);
    if token is Some {
        lemma_query_push(fixed, token->0);
    }
    assert(u1 =~= base + "/?"@ + query_of(p1));
    let quorum = match chunk.settings.insert_quorum {
        Some(q) => Some("insert_quorum="@ + percent_encoded(encode_utf8(q@))),
        None => None,
    };
    let p2 = with_optional(p1, quorum);
    let u2 = u1 + quorum_parameter(chunk);
    if quorum is Some {
        lemma_query_push(p1, quorum->0);
    }
    assert(u2 =~= base + "/?"@ + query_of(p2));
    let limit = if timeout_nanos == 0 {
        None
    } else {
        Some("max_execution_time="@ + text::decimal(timeout_nanos / 1_000_000_000))
    };
    if limit is Some {
        lemma_query_push(p2, limit->0);
    }
    assert(insert_url(endpoint, chunk, timeout_nanos) =~= base + "/?"@ + query_of(
        with_optional(p2, limit),
    ));
}

/// Only slashes are taken off the end of an endpoint, and all of them.
pub proof fn law_only_slashes_are_trimmed(s: Seq<char>)
    ensures
        ({
            let t = without_trailing_slashes(s);
            &&& t.len() <= s.len()
            &&& s.take(t.len() as int) == t
            &&& forall|i: int| t.len() <= i < s.len() ==> #[trigger] s[i] == '/'
            &&& t.len() > 0 ==> t.last() != '/'
        }),
    decreases s.len(),
{
    if s.len() > 0 && s.last() == '/' {
        let r = s.drop_last();
        law_only_slashes_are_trimmed(r);
        let t = without_trailing_slashes(s);
        assert(s.take(t.len() as int) =~= r.take(t.len() as int));
        assert forall|i: int| t.len() <= i < s.len() implies #[trigger] s[i] == '/' by {
            if i < s.len() - 1 {
                assert(r[i] == s[i]);
            }
        }
    } else {
        assert(s.take(s.len() as int) =~= s);
    }
}

/// The statement of an insert names the database and the table of the chunk and the
/// format of the rows.
pub proof fn law_statement_names_the_target(chunk: InsertChunk)
    ensures
        insert_sql(chunk, SerializationFormat::JsonEachRow) == "INSERT INTO "@ + chunk.database@
            + "."@ + chunk.table@ + " FORMAT JSONEachRow"@,
        insert_sql(chunk, SerializationFormat::RowBinary) == "INSERT INTO "@ + chunk.database@
            + "."@ + chunk.table@ + " FORMAT RowBinaryWithNamesAndTypes"@,
{
    reveal_strlit(" FORMAT ");
    reveal_strlit("JSONEachRow");
    reveal_strlit("RowBinaryWithNamesAndTypes");
    reveal_strlit(" FORMAT JSONEachRow");
    reveal_strlit(" FORMAT RowBinaryWithNamesAndTypes");
    assert(" FORMAT JSONEachRow"@ =~= " FORMAT "@ + "JSONEachRow"@);
    assert(" FORMAT RowBinaryWithNamesAndTypes"@ =~= " FORMAT "@ + "RowBinaryWithNamesAndTypes"@);
    let head = "INSERT INTO "@ + chunk.database@ + "."@ + chunk.table@;
    assert(insert_sql(chunk, SerializationFormat::JsonEachRow) =~= head + " FORMAT JSONEachRow"@);
    assert(insert_sql(chunk, SerializationFormat::RowBinary) =~= head
        + " FORMAT RowBinaryWithNamesAndTypes"@);
}

/// A request names the configured user and key, and leaves out what is empty.
pub proof fn law_credentials_are_sent(config: WriterConfig, request: HttpRequest)
    requires
        carries_credentials(config, request),
    ensures
        request.user is Some <==> config.user@.len() > 0,
        request.user matches Some(user) ==> user@ == config.user@,
        request.key is Some <==> config.password@.len() > 0,
        request.key matches Some(key) ==> key@ == config.password@,
{
}

/// An attempt is labelled by how it ended.
pub proof fn law_attempts_are_labelled_by_their_error(r: Result<(), WriterError>)
    ensures
        r is Ok <==> attempt_outcome(r) == InsertResult::Success,
        (r matches Err(WriterError::Retryable { .. })) <==> attempt_outcome(r)
            == InsertResult::Retryable,
        (r matches Err(WriterError::RetryBudgetExhausted { .. })) <==> attempt_outcome(r)
            == InsertResult::RetryBudgetExhausted,
        ((r matches Err(WriterError::NonRetryable { .. })) || (r matches Err(
            WriterError::Serialization(_),
        ))) <==> attempt_outcome(r) == InsertResult::NonRetryable,
{
}

/// The kind of a failure is told by the first sign of it: a timeout before a failure to
/// connect, and that before a status.
pub proof fn law_first_sign_tells_the_failure(
    timeout: bool,
    connect: bool,
    status: bool,
    kind: TransportFailure,
)
    requires
        call_ensures(transport_failure, (timeout, connect, status), kind),
    ensures
        kind == TransportFailure::Timeout <==> timeout,
        kind == TransportFailure::Connect <==> connect && !timeout,
        kind == TransportFailure::Status <==> status && !connect && !timeout,
        kind == TransportFailure::Other <==> !status && !connect && !timeout,
{
}

/// A failed request is always tried again, and its error ends with what the client
/// says.
pub proof fn law_failed_request_is_explained(kind: TransportFailure, detail: &str, e: WriterError)
    requires
        call_ensures(classify_transport, (kind, detail), e),
    ensures
        e is Retryable,
        kind == TransportFailure::Timeout || kind == TransportFailure::Connect ==> (
        e matches WriterError::Retryable { message } && message@ == "network/timeout: "@ + detail@),
        kind == TransportFailure::Status ==> (e matches WriterError::Retryable { message }
            && message@ == "http status: "@ + detail@),
        kind == TransportFailure::Other ==> (e matches WriterError::Retryable { message }
            && message@ == "request error: "@ + detail@),
{
}

/// Only an error that may pass is of the class that is tried again. What cannot be
/// serialized cannot be tried again either.
pub proof fn law_errors_have_their_class(e: &WriterError, c: WriterErrorClass)
    requires
        call_ensures(WriterError::class, (e,), c),
    ensures
        c == WriterErrorClass::Retryable <==> e is Retryable,
        c == WriterErrorClass::RetryBudgetExhausted <==> e is RetryBudgetExhausted,
        c == WriterErrorClass::NonRetryable <==> e is NonRetryable || e is Serialization,
{
}

/// The printed form of an error says whether it may pass, and ends with its message.
pub proof fn law_errors_are_printed_with_their_class(e: &WriterError, s: String)
    requires
        call_ensures(WriterError::message, (e,), s),
    ensures
        e matches WriterError::Retryable { message } ==> s@
            == "clickhouse insert failed (retryable): "@ + message@,
        e matches WriterError::NonRetryable { message } ==> s@
            == "clickhouse insert failed (non-retryable): "@ + message@,
        e matches WriterError::RetryBudgetExhausted { message } ==> s@
            == "clickhouse insert failed (retry budget exhausted): "@ + message@,
        e matches WriterError::Serialization(message) ==> s@ == "serialization error: "@
            + message@,
{
}

/// What comes back of a request is read as a success exactly if the server answered with
/// a status of 200 to 299, and then as the body of the answer.
pub proof fn law_only_an_answer_is_a_success(outcome: HttpOutcome, r: Result<String, WriterError>)
    requires
        call_ensures(read_outcome, (outcome,), r),
    ensures
        r is Ok <==> (outcome matches HttpOutcome::Answered { status, body } && 200 <= status
            <= 299),
        outcome matches HttpOutcome::Answered { status, body } ==> {
            &&& r matches Ok(text) ==> text@ == body@
            &&& (r matches Err(WriterError::Retryable { .. })) <==> status == 429 || 500 <= status
                <= 599
            &&& (r matches Err(WriterError::NonRetryable { .. })) <==> !(200 <= status <= 299)
                && status != 429 && !(500 <= status <= 599)
        },
        outcome is Failed ==> (r matches Err(WriterError::Retryable { .. })),
        outcome matches HttpOutcome::NoClient { detail } ==> (
        r matches Err(WriterError::NonRetryable { message }) && message@ == "reqwest client: "@
            + detail@),
{
}

/// The request of an insert holds the statement, a line feed and the rows, goes to the
/// URL of the chunk, and names the configured user and key.
pub proof fn law_insert_request_holds_the_rows(
    w: &ClickHouseWriter,
    chunk: &InsertChunk,
    rows: &Vec<u8>,
    request: HttpRequest,
    sql: String,
    endpoint: &str,
    url: String,
)
    requires
        call_ensures(ClickHouseWriter::insert_request, (w, chunk, rows), request),
        call_ensures(render_insert_sql_clean, (chunk, w@.serialization_format), sql),
        endpoint@ == w@.endpoint@,
        call_ensures(build_insert_url, (endpoint, chunk, w@.request_timeout), url),
    ensures
        request.url@ == url@,
        request.body@ == encode_utf8(sql@) + seq![10u8] + rows@,
        w@.user@.len() == 0 ==> request.user is None,
        w@.user@.len() > 0 ==> (request.user matches Some(user) && user@ == w@.user@),
        w@.password@.len() == 0 ==> request.key is None,
        w@.password@.len() > 0 ==> (request.key matches Some(key) && key@ == w@.password@),
{
    assert(encode_utf8(sql@).push(10u8) + rows@ =~= encode_utf8(sql@) + seq![10u8] + rows@);
}

/// The request of a statement holds the statement alone, and names the configured user
/// and key.
pub proof fn law_statement_request_holds_the_statement(
    w: &ClickHouseWriter,
    sql: &str,
    request: HttpRequest,
)
    requires
        call_ensures(ClickHouseWriter::statement_request, (w, sql), request),
    ensures
        request.body@ == encode_utf8(sql@),
        request.url@.len() <= w@.endpoint@.len(),
        request.url@ == w@.endpoint@.take(request.url@.len() as int),
        forall|i: int|
            request.url@.len() <= i < w@.endpoint@.len() ==> #[trigger] w@.endpoint@[i] == '/',
        request.url@.len() > 0 ==> request.url@.last() != '/',
        w@.user@.len() == 0 ==> request.user is None,
        w@.user@.len() > 0 ==> (request.user matches Some(user) && user@ == w@.user@),
        w@.password@.len() == 0 ==> request.key is None,
        w@.password@.len() > 0 ==> (request.key matches Some(key) && key@ == w@.password@),
{
    law_only_slashes_are_trimmed(w@.endpoint@);
}

/// A writer shares a client exactly if it is told to, with as many idle connections and
/// for as long as it is told. A client for a single request keeps none. Both give a
/// request the configured time.
pub proof fn law_clients_follow_the_mode(
    w: &ClickHouseWriter,
    shared: Option<ClientPlan>,
    single: ClientPlan,
    label: &'static str,
)
    requires
        call_ensures(ClickHouseWriter::pooled_client_plan, (w,), shared),
        call_ensures(ClickHouseWriter::per_call_client_plan, (w,), single),
        call_ensures(ClickHouseWriter::http_mode_label, (w,), label),
    ensures
        shared is Some <==> w@.http_client_mode is Pooled,
        w@.http_client_mode is Pooled ==> label@ == "pooled"@,
        w@.http_client_mode is PerCall ==> label@ == "per_call"@,
        shared matches Some(plan) ==> {
            &&& plan.timeout == w@.request_timeout
            &&& plan.pool_max_idle_per_host == w@.http_client_mode->pool_max_idle_per_host
            &&& plan.pool_idle_timeout matches Some(t) && time::duration_nanos(t)
                == w@.http_client_mode->pool_idle_timeout_ms * 1_000_000
        },
        single.timeout == w@.request_timeout,
        single.pool_max_idle_per_host == 0,
        single.pool_idle_timeout is None,
{
}

/// A write starts with its first chunk, at its first attempt, and is finished at once
/// where there is none.
pub proof fn law_write_starts_with_the_first_chunk(
    config: &WriterConfig,
    chunks: usize,
    r: (WriteRun, WriteAction),
)
    requires
        call_ensures(WriteRun::start, (config, chunks), r),
    ensures
        chunks == 0 <==> r.1 is Finished,
        chunks > 0 ==> r.1 == (WriteAction::Send { chunk: 0 }),
        r.0.state().chunks == chunks,
        r.0.state().position == 0,
        !r.0.state().failed,
        r.0.state().retry.attempts == 0,
        r.0.state().retry.max_attempts == config.max_attempts,
        r.0.state().retry.backoff == time::duration_nanos(config.initial_backoff),
{
}

/// What follows an attempt at a chunk. Success ends it. A failure that may pass is
/// followed by another attempt while attempts are left, after the wait that was due, and
/// the next wait is twice as long as far as a duration goes. Any other failure is handed
/// on as it is, and the last that may pass as a budget that is used up.
pub proof fn law_attempt_is_followed_up(
    run: &mut ChunkRun,
    r: Result<(), WriterError>,
    step: RetryStep,
)
    requires
        call_ensures(ChunkRun::after_attempt, (run, r), step),
    ensures
        final(run)@.max_attempts == old(run)@.max_attempts,
        r is Ok <==> step is Done,
        step is Retry <==> (r matches Err(WriterError::Retryable { .. })) && old(run)@.attempts + 1
            < old(run)@.max_attempts,
        step matches RetryStep::Retry { wait } ==> {
            &&& time::duration_nanos(wait) == old(run)@.backoff
            &&& final(run)@.attempts == old(run)@.attempts + 1
            &&& final(run)@.backoff == shorter(
                2 * old(run)@.backoff,
                u64::MAX as nat * 1_000_000_000 + 999_999_999,
            )
        },
        !(step is Retry) ==> final(run)@ == old(run)@,
        r matches Err(e) ==> (!(e is Retryable) ==> step == (RetryStep::Fail { error: e })),
        (r matches Err(WriterError::Retryable { .. })) && !(step is Retry) ==> (
        step matches RetryStep::Fail { error: WriterError::RetryBudgetExhausted { .. } }),
{
}

/// What a write of several chunks does after an attempt. A chunk that was accepted is
/// followed by the next one, or is the last. One that failed is sent again itself, or
/// ends the write: no chunk is passed over and none is sent twice after it was accepted.
pub proof fn law_write_goes_chunk_by_chunk(
    run: &mut WriteRun,
    config: &WriterConfig,
    r: Result<(), WriterError>,
    action: WriteAction,
)
    requires
        old(run).state().position < old(run).state().chunks,
        !old(run).state().failed,
        call_ensures(WriteRun::after_attempt, (run, config, r), action),
    ensures
        final(run).state().chunks == old(run).state().chunks,
        r is Ok ==> {
            &&& final(run).state().position == old(run).state().position + 1
            &&& !final(run).state().failed
            &&& final(run).state().retry.attempts == 0
            &&& final(run).state().retry.backoff == time::duration_nanos(config.initial_backoff)
        },
        r is Ok && old(run).state().position + 1 < old(run).state().chunks ==> (
        action matches WriteAction::Send { chunk } && chunk == old(run).state().position + 1),
        r is Ok && old(run).state().position + 1 == old(run).state().chunks
            ==> action is Finished,
        r is Err ==> final(run).state().position == old(run).state().position,
        action is Resend <==> (r matches Err(WriterError::Retryable { .. })) && old(run).state().retry.attempts + 1 < old(run).state().retry.max_attempts,
        action matches WriteAction::Resend { chunk, wait } ==> chunk == old(run).state().position
            && time::duration_nanos(wait) == old(run).state().retry.backoff && !final(run).state().failed,
        r is Err && !(action is Resend) ==> action is Failed && final(run).state().failed,
        action matches WriteAction::Failed { error } ==> (r matches Err(e) && (!(e is Retryable)
            ==> error == e) && (e is Retryable ==> error is RetryBudgetExhausted)),
{
}

} // verus!
