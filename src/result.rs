//! The outcome of one tool execution.

use crate::json::{entries_view, set_entry, set_in, JsonValue, JsonView};
use crate::text::json_text;
use std::time::{Duration, SystemTime};
use vstd::prelude::*;
use vstd::string::StringExecFns;

verus! {

/// Whether an execution succeeded, failed, or produced a partial result.
#[derive(Clone, Copy, Debug, PartialEq, Eq, Structural)]
pub enum ToolResultStatus {
    Success,
    Error,
    Partial,
}

/// The kind of a tool failure.
#[derive(Clone, Copy, Debug, PartialEq, Eq, Structural)]
pub enum ToolErrorType {
    InvalidInput,
    Authentication,
    Network,
    ExternalService,
    Internal,
    Timeout,
    RateLimit,
    NotFound,
    PermissionDenied,
    Unknown,
}

impl ToolErrorType {
    /// The label shown to people.
    pub open spec fn spec_label(self) -> Seq<char> {
        match self {
            ToolErrorType::InvalidInput => "Invalid Input"@,
            ToolErrorType::Authentication => "Authentication Error"@,
            ToolErrorType::Network => "Network Error"@,
            ToolErrorType::ExternalService => "External Service Error"@,
            ToolErrorType::Internal => "Internal Error"@,
            ToolErrorType::Timeout => "Timeout"@,
            ToolErrorType::RateLimit => "Rate Limit"@,
            ToolErrorType::NotFound => "Not Found"@,
            ToolErrorType::PermissionDenied => "Permission Denied"@,
            ToolErrorType::Unknown => "Unknown Error"@,
        }
    }

    /// The label shown to people.
    pub fn to_string(&self) -> (r: String)
        ensures
            r@ == self.spec_label(),
    {
        let s = match self {
            ToolErrorType::InvalidInput => "Invalid Input",
            ToolErrorType::Authentication => "Authentication Error",
            ToolErrorType::Network => "Network Error",
            ToolErrorType::ExternalService => "External Service Error",
            ToolErrorType::Internal => "Internal Error",
            ToolErrorType::Timeout => "Timeout",
            ToolErrorType::RateLimit => "Rate Limit",
            ToolErrorType::NotFound => "Not Found",
            ToolErrorType::PermissionDenied => "Permission Denied",
            ToolErrorType::Unknown => "Unknown Error",
        };
        String::from_str(s)
    }
}

/// Structured detail of a tool failure.
#[derive(Debug)]
pub struct ToolError {
    pub error_type: ToolErrorType,
    pub message: String,
    pub context: Option<Vec<(String, JsonValue)>>,
    pub cause: Option<String>,
    pub retryable: bool,
}

impl ToolError {
    pub fn new(error_type: ToolErrorType, message: &str) -> (r: ToolError)
        ensures
            r.error_type == error_type,
            r.message@ == message@,
            r.context is None,
            r.cause is None,
            !r.retryable,
    {
        ToolError {
            error_type,
            message: message.to_string(),
            context: None,
            cause: None,
            retryable: false,
        }
    }

    /// Adds `key` to the context, replacing an earlier value of that key.
    pub fn with_context(self, key: &str, value: JsonValue) -> (r: ToolError)
        ensures
            r.context matches Some(c) && entries_view(c@) == set_entry(
                match self.context {
                    Some(old) => entries_view(old@),
                    None => Seq::empty(),
                },
                key@,
                value@,
            ),
            r.error_type == self.error_type,
            r.message == self.message,
            r.cause == self.cause,
            r.retryable == self.retryable,
    {
        let mut r = self;
        let mut context = match r.context {
            Some(c) => c,
            None => Vec::new(),
        };
        proof {
            if self.context is None {
                assert(entries_view(context@) =~= Seq::empty());
            }
        }
        set_in(&mut context, key, value);
        r.context = Some(context);
        r
    }

    pub fn with_cause(self, cause: &str) -> (r: ToolError)
        ensures
            r.cause matches Some(c) && c@ == cause@,
            r.error_type == self.error_type,
            r.message == self.message,
            r.context == self.context,
            r.retryable == self.retryable,
    {
        let mut r = self;
        r.cause = Some(cause.to_string());
        r
    }

    /// Marks the failure as one that a new attempt may not repeat.
    pub fn retryable(self) -> (r: ToolError)
        ensures
            r.retryable,
            r.error_type == self.error_type,
            r.message == self.message,
            r.context == self.context,
            r.cause == self.cause,
    {
        let mut r = self;
        r.retryable = true;
        r
    }
}

/// The outcome of one tool execution.
#[derive(Debug)]
pub struct ToolResult {
    pub status: ToolResultStatus,
    pub data: Option<JsonValue>,
    pub error: Option<String>,
    pub error_details: Option<ToolError>,
    pub started_at: SystemTime,
    pub completed_at: Option<SystemTime>,
    pub duration: Option<Duration>,
    pub metadata: Vec<(String, JsonValue)>,
}

impl ToolResult {
    /// Success and partial results carry data and no error message; an error
    /// carries a message.
    pub open spec fn well_formed(self) -> bool {
        &&& self.status == ToolResultStatus::Success ==> self.data is Some && self.error is None
        &&& self.status == ToolResultStatus::Error ==> self.error is Some
        &&& self.status == ToolResultStatus::Partial ==> self.data is Some && self.error is None
    }

    /// The metadata as (key, document) pairs.
    pub open spec fn metadata_view(self) -> Seq<(Seq<char>, JsonView)> {
        entries_view(self.metadata@)
    }

    pub fn success(data: JsonValue) -> (r: ToolResult)
        ensures
            r.well_formed(),
            r.status == ToolResultStatus::Success,
            r.data == Some(data),
            r.error is None,
            r.error_details is None,
            r.completed_at == Some(r.started_at),
            r.duration is Some,
            r.metadata@.len() == 0,
    {
        let now = SystemTime::now();
        ToolResult {
            status: ToolResultStatus::Success,
            data: Some(data),
            error: None,
            error_details: None,
            started_at: now,
            completed_at: Some(now),
            duration: Some(Duration::from_millis(0)),
            metadata: Vec::new(),
        }
    }

    pub fn error(error: &str) -> (r: ToolResult)
        ensures
            r.well_formed(),
            r.status == ToolResultStatus::Error,
            r.data is None,
            r.error matches Some(e) && e@ == error@,
            r.error_details is None,
            r.completed_at == Some(r.started_at),
            r.duration is Some,
            r.metadata@.len() == 0,
    {
        let now = SystemTime::now();
        ToolResult {
            status: ToolResultStatus::Error,
            data: None,
            error: Some(error.to_string()),
            error_details: None,
            started_at: now,
            completed_at: Some(now),
            duration: Some(Duration::from_millis(0)),
            metadata: Vec::new(),
        }
    }

    pub fn error_with_details(error: &str, details: ToolError) -> (r: ToolResult)
        ensures
            r.well_formed(),
            r.status == ToolResultStatus::Error,
            r.data is None,
            r.error matches Some(e) && e@ == error@,
            r.error_details == Some(details),
            r.completed_at == Some(r.started_at),
            r.duration is Some,
            r.metadata@.len() == 0,
    {
        let now = SystemTime::now();
        ToolResult {
            status: ToolResultStatus::Error,
            data: None,
            error: Some(error.to_string()),
            error_details: Some(details),
            started_at: now,
            completed_at: Some(now),
            duration: Some(Duration::from_millis(0)),
            metadata: Vec::new(),
        }
    }

    /// A result still in progress: no completion time yet.
    pub fn partial(data: JsonValue) -> (r: ToolResult)
        ensures
            r.well_formed(),
            r.status == ToolResultStatus::Partial,
            r.data == Some(data),
            r.error is None,
            r.error_details is None,
            r.completed_at is None,
            r.duration is None,
            r.metadata@.len() == 0,
    {
        ToolResult {
            status: ToolResultStatus::Partial,
            data: Some(data),
            error: None,
            error_details: None,
            started_at: SystemTime::now(),
            completed_at: None,
            duration: None,
            metadata: Vec::new(),
        }
    }

    /// Stamps the completion time; a partial result becomes a success.
    pub fn complete(self) -> (r: ToolResult)
        requires
            self.well_formed(),
        ensures
            r.well_formed(),
            r.status == (if self.status == ToolResultStatus::Partial {
                ToolResultStatus::Success
            } else {
                self.status
            }),
            r.completed_at is Some,
            r.data == self.data,
            r.error == self.error,
            r.error_details == self.error_details,
            r.metadata == self.metadata,
            r.started_at == self.started_at,
    {
        let mut r = self;
        let now = SystemTime::now();
        match now.duration_since(r.started_at) {
            Ok(d) => {
                r.duration = Some(d);
            },
            Err(_) => {},
        }
        r.completed_at = Some(now);
        if r.status == ToolResultStatus::Partial {
            r.status = ToolResultStatus::Success;
        }
        r
    }

    /// Sets the metadata entry `key`, replacing an earlier value of that key.
    pub fn with_metadata(self, key: &str, value: JsonValue) -> (r: ToolResult)
        ensures
            r.metadata_view() == set_entry(self.metadata_view(), key@, value@),
            r.status == self.status,
            r.data == self.data,
            r.error == self.error,
            r.error_details == self.error_details,
            r.started_at == self.started_at,
            r.completed_at == self.completed_at,
            r.duration == self.duration,
    {
        let mut r = self;
        set_in(&mut r.metadata, key, value);
        r
    }

    pub fn is_success(&self) -> (r: bool)
        ensures
            r == (self.status == ToolResultStatus::Success),
    {
        self.status == ToolResultStatus::Success
    }

    pub fn is_error(&self) -> (r: bool)
        ensures
            r == (self.status == ToolResultStatus::Error),
    {
        self.status == ToolResultStatus::Error
    }

    pub fn is_partial(&self) -> (r: bool)
        ensures
            r == (self.status == ToolResultStatus::Partial),
    {
        self.status == ToolResultStatus::Partial
    }

    /// The one-line summary that `to_string` gives.
    pub open spec fn spec_text(self) -> Seq<char> {
        match self.status {
            ToolResultStatus::Success => match self.data {
                Some(d) => "Success: "@ + json_text(d@),
                None => "Success"@,
            },
            ToolResultStatus::Error => match self.error {
                Some(e) => "Error: "@ + e@,
                None => "Error: Unknown error"@,
            },
            ToolResultStatus::Partial => match self.data {
                Some(d) => "Partial: "@ + json_text(d@),
                None => "Partial result"@,
            },
        }
    }

    /// A one-line summary: the status, then the data as compact JSON or
    /// the error message.
    pub fn to_string(&self) -> (r: String)
        ensures
            r@ == self.spec_text(),
    {
        match self.status {
            ToolResultStatus::Success => match &self.data {
                Some(d) => String::from_str("Success: ").concat(d.to_json_text().as_str()),
                None => String::from_str("Success"),
            },
            ToolResultStatus::Error => match &self.error {
                Some(e) => String::from_str("Error: ").concat(e.as_str()),
                None => String::from_str("Error: Unknown error"),
            },
            ToolResultStatus::Partial => match &self.data {
                Some(d) => String::from_str("Partial: ").concat(d.to_json_text().as_str()),
                None => String::from_str("Partial result"),
            },
        }
    }

    /// The recorded duration in whole milliseconds (saturating at `u64::MAX`).
    pub fn duration_ms(&self) -> (r: Option<u64>)
        ensures
            r is Some <==> self.duration is Some,
    {
        match &self.duration {
            Some(d) => {
                let ms = d.as_millis();
                if ms > u64::MAX as u128 {
                    Some(u64::MAX)
                } else {
                    Some(ms as u64)
                }
            },
            None => None,
        }
    }
}

} // verus!
