//! Conversation message content that the tool layer hands on.

use vstd::prelude::*;

verus! {

/// A system instruction.
#[derive(Debug)]
pub struct SystemMessage {
    pub content: String,
}

impl SystemMessage {
    pub fn new(content: &str) -> (r: SystemMessage)
        ensures
            r.content@ == content@,
    {
        SystemMessage { content: content.to_string() }
    }
}

/// Plain text content.
#[derive(Debug)]
pub struct Text {
    pub text: String,
}

} // verus!
