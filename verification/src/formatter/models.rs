//! The simplified structured log entry that the formatter produces.

use vstd::prelude::*;

use crate::external::LabelMap;

verus! {

/// Severity of a log entry.
#[derive(Clone, Copy, Debug, PartialEq, Eq, Structural)]
pub enum Severity {
    Default,
    Debug,
    Info,
    Notice,
    Warning,
    Error,
    Critical,
    Alert,
    Emergency,
}

impl Default for Severity {
    fn default() -> (severity: Self)
        ensures
            severity == Severity::Default,
    {
        Severity::Default
    }
}

/// The value of a field recorded on a tracing event or span, before it is
/// turned into a JSON label value.
#[derive(Debug)]
pub enum FieldValue {
    I64(i64),
    U64(u64),
    Str(String),
    Bool(bool),
    Bytes(Vec<u8>),
    /// A value that the caller has already turned into JSON (a
    /// floating-point number).
    Json(serde_json::Value),
}

/// A field value by its contents.
pub enum FieldView {
    I64(i64),
    U64(u64),
    Str(Seq<char>),
    Bool(bool),
    Bytes(Seq<u8>),
    Json(serde_json::Value),
}

impl View for FieldValue {
    type V = FieldView;

    open spec fn view(&self) -> FieldView {
        match self {
            FieldValue::I64(v) => FieldView::I64(*v),
            FieldValue::U64(v) => FieldView::U64(*v),
            FieldValue::Str(v) => FieldView::Str(v@),
            FieldValue::Bool(v) => FieldView::Bool(*v),
            FieldValue::Bytes(v) => FieldView::Bytes(v@),
            FieldValue::Json(v) => FieldView::Json(*v),
        }
    }
}

/// Named field values by their contents, in order.
pub open spec fn fields_view(fields: Seq<(String, FieldValue)>) -> Seq<(Seq<char>, FieldView)> {
    fields.map_values(|field: (String, FieldValue)| (field.0@, field.1@))
}

/// The HTTP request that a log entry is about.
#[derive(Debug)]
pub struct HttpRequest {
    pub request_method: Option<String>,
    pub request_url: Option<String>,
    pub request_size: Option<String>,
    pub status: Option<i32>,
    pub response_size: Option<String>,
    pub user_agent: Option<String>,
    pub remote_ip: Option<String>,
    pub server_ip: Option<String>,
    pub referrer: Option<String>,
    pub latency: Option<String>,
    pub cache_hit: Option<bool>,
    pub cache_validated_with_origin_server: Option<bool>,
}

/// The long-running operation that a log entry belongs to.
#[derive(Debug)]
pub struct LogEntryOperation {
    pub id: Option<String>,
    pub producer: Option<String>,
    pub first: Option<bool>,
    pub last: Option<bool>,
}

/// Where in the source code a log entry was written.
#[derive(Debug)]
pub struct SourceLocation {
    pub file: Option<String>,
    pub line: Option<u32>,
    pub function: Option<String>,
}

/// An optional text by its characters.
pub open spec fn opt_text(text: Option<String>) -> Option<Seq<char>> {
    match text {
        Some(t) => Some(t@),
        None => None,
    }
}

impl View for SourceLocation {
    /// File, line and function.
    type V = (Option<Seq<char>>, Option<u32>, Option<Seq<char>>);

    open spec fn view(&self) -> Self::V {
        (opt_text(self.file), self.line, opt_text(self.function))
    }
}

/// A point in time: whole seconds since the Unix epoch, and nanoseconds
/// past that second.
#[derive(Clone, Copy, Debug, PartialEq, Eq, Structural)]
pub struct UtcTime {
    pub seconds: i64,
    pub nanoseconds: u32,
}

/// A log entry in the simplified structured format, written as one JSON
/// object per line.
#[derive(Debug)]
pub struct SimplifiedLogEntry {
    pub severity: Severity,
    pub message: String,
    pub time: UtcTime,
    pub http_request: Option<HttpRequest>,
    pub operation: Option<LogEntryOperation>,
    pub labels: Option<LabelMap>,
    pub source_location: Option<SourceLocation>,
    pub span_id: Option<String>,
}

} // verus!
