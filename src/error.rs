//! Errors reported to the immediate caller.

use vstd::prelude::*;
use vstd::string::StringExecFns;

verus! {

/// A failure surfaced to the caller, as opposed to a tool's own outcome.
#[derive(Debug)]
pub enum OrchestraError {
    ApiKey { message: String },
    Provider { provider: String, message: String },
    Config { message: String },
    Model { message: String },
    RateLimit { message: String },
    Authentication { message: String },
    InvalidResponse { message: String },
    Timeout { message: String },
    Generic { message: String },
}

impl OrchestraError {
    /// Whether this is a configuration error carrying `message`.
    pub open spec fn is_config_with(self, message: Seq<char>) -> bool {
        self matches OrchestraError::Config { message: m } && m@ == message
    }

    /// The human-readable description of the error.
    pub open spec fn spec_text(self) -> Seq<char> {
        match self {
            OrchestraError::ApiKey { message } => "API key error: "@ + message@,
            OrchestraError::Provider { provider, message } => "Provider error: "@ + provider@
                + " - "@ + message@,
            OrchestraError::Config { message } => "Configuration error: "@ + message@,
            OrchestraError::Model { message } => "Model error: "@ + message@,
            OrchestraError::RateLimit { message } => "Rate limit exceeded: "@ + message@,
            OrchestraError::Authentication { message } => "Authentication failed: "@ + message@,
            OrchestraError::InvalidResponse { message } => "Invalid response format: "@
                + message@,
            OrchestraError::Timeout { message } => "Request timeout: "@ + message@,
            OrchestraError::Generic { message } => "Orchestra error: "@ + message@,
        }
    }

    pub fn api_key(message: &str) -> (r: OrchestraError)
        ensures
            r matches OrchestraError::ApiKey { message: m } && m@ == message@,
    {
        OrchestraError::ApiKey { message: message.to_string() }
    }

    pub fn provider(provider: &str, message: &str) -> (r: OrchestraError)
        ensures
            r matches OrchestraError::Provider { provider: p, message: m } && p@ == provider@
                && m@ == message@,
    {
        OrchestraError::Provider { provider: provider.to_string(), message: message.to_string() }
    }

    pub fn config(message: &str) -> (r: OrchestraError)
        ensures
            r.is_config_with(message@),
    {
        OrchestraError::Config { message: message.to_string() }
    }

    pub fn model(message: &str) -> (r: OrchestraError)
        ensures
            r matches OrchestraError::Model { message: m } && m@ == message@,
    {
        OrchestraError::Model { message: message.to_string() }
    }

    pub fn rate_limit(message: &str) -> (r: OrchestraError)
        ensures
            r matches OrchestraError::RateLimit { message: m } && m@ == message@,
    {
        OrchestraError::RateLimit { message: message.to_string() }
    }

    pub fn authentication(message: &str) -> (r: OrchestraError)
        ensures
            r matches OrchestraError::Authentication { message: m } && m@ == message@,
    {
        OrchestraError::Authentication { message: message.to_string() }
    }

    pub fn invalid_response(message: &str) -> (r: OrchestraError)
        ensures
            r matches OrchestraError::InvalidResponse { message: m } && m@ == message@,
    {
        OrchestraError::InvalidResponse { message: message.to_string() }
    }

    pub fn timeout(message: &str) -> (r: OrchestraError)
        ensures
            r matches OrchestraError::Timeout { message: m } && m@ == message@,
    {
        OrchestraError::Timeout { message: message.to_string() }
    }

    pub fn generic(message: &str) -> (r: OrchestraError)
        ensures
            r matches OrchestraError::Generic { message: m } && m@ == message@,
    {
        OrchestraError::Generic { message: message.to_string() }
    }

    /// The human-readable description of the error.
    pub fn to_string(&self) -> (r: String)
        ensures
            r@ == self.spec_text(),
    {
        match self {
            OrchestraError::ApiKey { message } => String::from_str("API key error: ").concat(
                message.as_str(),
            ),
            OrchestraError::Provider { provider, message } => String::from_str(
                "Provider error: ",
            ).concat(provider.as_str()).concat(" - ").concat(message.as_str()),
            OrchestraError::Config { message } => String::from_str(
                "Configuration error: ",
            ).concat(message.as_str()),
            OrchestraError::Model { message } => String::from_str("Model error: ").concat(
                message.as_str(),
            ),
            OrchestraError::RateLimit { message } => String::from_str(
                "Rate limit exceeded: ",
            ).concat(message.as_str()),
            OrchestraError::Authentication { message } => String::from_str(
                "Authentication failed: ",
            ).concat(message.as_str()),
            OrchestraError::InvalidResponse { message } => String::from_str(
                "Invalid response format: ",
            ).concat(message.as_str()),
            OrchestraError::Timeout { message } => String::from_str("Request timeout: ").concat(
                message.as_str(),
            ),
            OrchestraError::Generic { message } => String::from_str("Orchestra error: ").concat(
                message.as_str(),
            ),
        }
    }
}

} // verus!
