//! The log entries that the viewer reads: the full structured log entry, as
//! Cloud Logging returns it, and the simplified entry that applications
//! write.

use vstd::prelude::*;

use crate::formatter::models::UtcTime;

verus! {

/// Severity of a log entry.
#[derive(Clone, Copy, Debug, PartialEq, Eq, Structural)]
pub enum Severity {
    Default,
    Debug,
    Info,
    Notice,
    Warning,
    Error,
    Critical,
    Alert,
    Emergency,
}

impl Default for Severity {
    fn default() -> (severity: Self)
        ensures
            severity == Severity::Default,
    {
        Severity::Default
    }
}

/// The fixed-width name that a severity is shown with.
pub open spec fn severity_label(severity: Severity) -> Seq<char> {
    match severity {
        Severity::Default => "TRACE"@,
        Severity::Debug => "DEBUG"@,
        Severity::Info => " INFO"@,
        Severity::Notice => "NOTICE"@,
        Severity::Warning => " WARN"@,
        Severity::Error => "ERROR"@,
        Severity::Critical => " CRIT"@,
        Severity::Alert => "ALERT"@,
        Severity::Emergency => "EMERG"@,
    }
}

impl Severity {
    /// The name that the severity is shown with (its `Display` form).
    pub fn label(&self) -> (label: &'static str)
        ensures
            label@ == severity_label(*self),
    {
        match self {
            Severity::Default => "TRACE",
            Severity::Debug => "DEBUG",
            Severity::Info => " INFO",
            Severity::Notice => "NOTICE",
            Severity::Warning => " WARN",
            Severity::Error => "ERROR",
            Severity::Critical => " CRIT",
            Severity::Alert => "ALERT",
            Severity::Emergency => "EMERG",
        }
    }
}

/// The HTTP request that a log entry is about.
#[derive(Debug)]
pub struct HttpRequest {
    pub request_method: Option<String>,
    pub request_url: Option<String>,
    pub request_size: Option<String>,
    pub status: Option<i32>,
    pub response_size: Option<String>,
    pub user_agent: Option<String>,
    pub remote_ip: Option<String>,
    pub server_ip: Option<String>,
    pub referrer: Option<String>,
    pub latency: Option<String>,
    pub cache_hit: Option<bool>,
    pub cache_validated_with_origin_server: Option<bool>,
}

/// Where in the source code a log entry was written.
#[derive(Debug)]
pub struct SourceLocation {
    pub file: Option<String>,
    pub line: Option<String>,
    pub function: Option<String>,
}

/// The long-running operation that a log entry belongs to.
#[derive(Debug)]
pub struct LogEntryOperation {
    pub id: Option<String>,
    pub producer: Option<String>,
    pub first: Option<bool>,
    pub last: Option<bool>,
}

/// A reference to the source code that produced a log entry.
#[derive(Debug)]
pub struct SourceReference {
    pub repository: Option<String>,
    pub commit_sha: Option<String>,
    pub branch_name: Option<String>,
}

/// The resource that produced a log entry.  The labels are the entries of
/// a map: no key occurs twice.
#[derive(Debug)]
pub struct MonitoredResource {
    pub resource_type: String,
    pub labels: Option<Vec<(String, String)>>,
}

/// The value of a label of a simplified entry.
#[derive(Debug)]
pub enum LabelValue {
    /// A JSON string, by its contents.
    Text(String),
    /// Any other JSON value, by its JSON text.
    Json(String),
}

/// A log entry in the simplified structured format that applications
/// write, one JSON object per line.  `time` is the entry's timestamp (a UTC
/// time); the labels are the entries of a map.
#[derive(Debug)]
pub struct SimplifiedLogEntry {
    pub severity: Severity,
    pub message: String,
    pub time: UtcTime,
    pub http_request: Option<HttpRequest>,
    pub operation: Option<LogEntryOperation>,
    pub labels: Option<Vec<(String, LabelValue)>>,
    pub source_location: Option<SourceLocation>,
    pub span_id: Option<String>,
}

/// A log entry in the full structured format of Cloud Logging.  The labels
/// are the entries of a map; the JSON payloads are held by their JSON text.
#[derive(Debug)]
pub struct LogEntry {
    pub log_name: String,
    pub timestamp: Option<String>,
    pub severity: Option<Severity>,
    pub insert_id: Option<String>,
    pub http_request: Option<HttpRequest>,
    pub labels: Option<Vec<(String, String)>>,
    pub source_location: Option<SourceLocation>,
    pub operation: Option<LogEntryOperation>,
    pub trace: Option<String>,
    pub span_id: Option<String>,
    pub trace_sampled: Option<bool>,
    pub source_reference: Option<Vec<SourceReference>>,
    pub text_payload: Option<String>,
    pub json_payload: Option<String>,
    pub proto_payload: Option<String>,
    pub resource: Option<MonitoredResource>,
}

} // verus!
