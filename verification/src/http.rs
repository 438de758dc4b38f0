//! Answers that are a status and a fixed text, and what a status means.

use vstd::prelude::*;

verus! {

/// An answer with a plain text.
#[derive(Debug, Clone, Copy)]
pub struct TextReply {
    pub status: u16,
    pub body: &'static str,
    /// The header `Retry-After`, in seconds.
    pub retry_after: Option<u64>,
}

/// The contents of an answer with a plain text.
#[verifier::ext_equal]
pub struct TextReplyView {
    pub status: u16,
    pub body: Seq<char>,
    pub retry_after: Option<u64>,
}

impl View for TextReply {
    type V = TextReplyView;

    open spec fn view(&self) -> TextReplyView {
        TextReplyView { status: self.status, body: self.body@, retry_after: self.retry_after }
    }
}

/// Whether a status says that a request has succeeded.
pub fn is_success(status: u16) -> (r: bool)
    ensures
        r == (200 <= status < 300),
{
    200 <= status && status < 300
}

} // verus!
