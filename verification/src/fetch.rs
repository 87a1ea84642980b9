//! What the feed fetcher computes: the user agent that it sends and the
//! report of a document that could not be parsed. Fetching itself is the
//! caller's work.

use vstd::prelude::*;
use vstd::string::*;

verus! {

/// The user agent that is sent where none is configured.
pub open spec fn default_agent() -> Seq<char> {
    "NekoRSS/1.0 (+https://github.com/imnyang/memos-rss)"@
}

/// The number of characters of a document that a report shows.
pub const PREVIEW_CHARS: usize = 200;

/// The user agent to send: the configured one, else the default.
pub fn user_agent(configured: Option<String>) -> (r: String)
    ensures
        r@ == (match configured {
            Some(agent) => agent@,
            None => default_agent(),
        }),
{
    match configured {
        Some(agent) => agent,
        None => String::from_str("NekoRSS/1.0 (+https://github.com/imnyang/memos-rss)"),
    }
}

/// The beginning of a document: its first 200 characters, or all of it
/// where it is shorter.
pub open spec fn preview(body: Seq<char>) -> Seq<char> {
    if body.len() <= PREVIEW_CHARS {
        body
    } else {
        body.subrange(0, PREVIEW_CHARS as int)
    }
}

/// Cuts a document down to its beginning.
pub fn body_preview(body: &str) -> (r: String)
    ensures
        r@ == preview(body@),
{
    let n = body.unicode_len();
    if n <= PREVIEW_CHARS {
        String::from_str(body)
    } else {
        String::from_str(body.substring_char(0, PREVIEW_CHARS))
    }
}

/// A feed document that could not be parsed.
#[derive(Debug, Clone)]
pub struct FetchError {
    /// The status of the response, as the server gave it.
    pub status: String,
    /// What the parser objected to.
    pub reason: String,
    /// The beginning of the document.
    pub body_preview: String,
}

/// The text of a report.
pub open spec fn failure_text(status: Seq<char>, reason: Seq<char>, shown: Seq<char>) -> Seq<char> {
    "Failed to parse feed (Status: "@ + status + "): "@ + reason + " | Body preview: "@ + shown
}

impl FetchError {
    /// Reports a document that could not be parsed: `status` is the status
    /// of the response, `reason` the parser's objection, `body` the document
    /// as text.
    pub fn parse_failure(status: &str, reason: &str, body: &str) -> (e: FetchError)
        ensures
            e.status@ == status@,
            e.reason@ == reason@,
            e.body_preview@ == preview(body@),
    {
        FetchError {
            status: String::from_str(status),
            reason: String::from_str(reason),
            body_preview: body_preview(body),
        }
    }

    /// The report as one line of text.
    pub fn message(&self) -> (r: String)
        ensures
            r@ == failure_text(self.status@, self.reason@, self.body_preview@),
    {
        let mut out = String::from_str("Failed to parse feed (Status: ");
        out.append(self.status.as_str());
        out.append("): ");
        out.append(self.reason.as_str());
        out.append(" | Body preview: ");
        out.append(self.body_preview.as_str());
        out
    }
}

} // verus!
