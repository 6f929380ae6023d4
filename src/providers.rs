//! Identifiers and usage records of model providers.

use vstd::prelude::*;

verus! {

/// The characters of `s` in lower case, as `str::to_lowercase` gives them.
pub uninterp spec fn lowercase_of(s: Seq<char>) -> Seq<char>;

/// Relies on `str::to_lowercase`: the result depends on the characters alone.
#[verifier::external_body]
fn lowercase(s: &str) -> (r: String)
    ensures
        r@ == lowercase_of(s@),
{
    s.to_lowercase()
}

/// A supported model provider.
#[derive(Clone, Copy, Debug, PartialEq, Eq, Structural)]
pub enum ProviderSource {
    Gemini,
    OpenAI,
}

/// The provider whose identifier is exactly `s`.
pub open spec fn source_named(s: Seq<char>) -> Option<ProviderSource> {
    if s == "gemini"@ {
        Some(ProviderSource::Gemini)
    } else if s == "openai"@ {
        Some(ProviderSource::OpenAI)
    } else {
        None
    }
}

impl ProviderSource {
    /// The provider's identifier.
    pub open spec fn spec_name(self) -> Seq<char> {
        match self {
            ProviderSource::Gemini => "gemini"@,
            ProviderSource::OpenAI => "openai"@,
        }
    }

    pub fn as_str(&self) -> (r: &'static str)
        ensures
            r@ == self.spec_name(),
    {
        match self {
            ProviderSource::Gemini => "gemini",
            ProviderSource::OpenAI => "openai",
        }
    }

    /// The provider whose identifier is `s`, compared as given.
    pub fn from_lowercase(s: &str) -> (r: Option<ProviderSource>)
        ensures
            r == source_named(s@),
    {
        if crate::json::str_eq(s, "gemini") {
            Some(ProviderSource::Gemini)
        } else if crate::json::str_eq(s, "openai") {
            Some(ProviderSource::OpenAI)
        } else {
            None
        }
    }

    /// The provider whose identifier is `s`, ignoring case.
    pub fn from_str(s: &str) -> (r: Option<ProviderSource>)
        ensures
            r == source_named(lowercase_of(s@)),
    {
        let lower = lowercase(s);
        ProviderSource::from_lowercase(lower.as_str())
    }
}

/// Tokens used by one request.
#[derive(Clone, Copy, Debug, PartialEq, Eq, Structural)]
pub struct TokenUsage {
    pub prompt_tokens: u32,
    pub completion_tokens: u32,
    pub total_tokens: u32,
}

/// Details of one model response.
#[derive(Debug)]
pub struct ChatResponseMetadata {
    pub usage: Option<TokenUsage>,
    pub model: Option<String>,
    pub response_id: Option<String>,
    pub processing_time_ms: Option<u64>,
    pub finish_reason: Option<String>,
}

} // verus!
