use vstd::prelude::*;

use super::types::{StreamEvent, StreamEventView};
use crate::text::{seq_starts_with, strip_prefix_or_whole};

verus! {

/// Framing of stream events as Server-Sent Events: one `data:` line per
/// event, followed by a blank line. The event itself travels as JSON text.
pub struct SSEProtocol;

/// The SSE record that carries the JSON text `json`.
pub open spec fn sse_frame(json: Seq<char>) -> Seq<char> {
    "data: "@ + json + "\n\n"@
}

/// The text of an SSE record after its `data: ` field name, or the whole
/// text where it carries none.
pub open spec fn sse_payload(data: Seq<char>) -> Seq<char> {
    if seq_starts_with(data, "data: "@) {
        data.skip("data: "@.len() as int)
    } else {
        data
    }
}

impl SSEProtocol {
    /// The SSE record for an event serialized as `json`.
    pub fn frame(json: &str) -> (r: String)
        ensures
            r@ == sse_frame(json@),
    {
        let mut r = String::from_str("data: ");
        r.append(json);
        r.append("\n\n");
        r
    }

    /// The JSON text that an SSE record carries: the record without its
    /// leading `data: `, or the record unchanged when it does not begin so.
    pub fn payload(data: &str) -> (r: &str)
        ensures
            r@ == sse_payload(data@),
    {
        strip_prefix_or_whole(data, "data: ")
    }
}

/// What a framed event reads back as: its JSON text followed by the blank
/// line's two line breaks, which a JSON reader skips as whitespace.
pub proof fn lemma_frame_payload(json: Seq<char>)
    ensures
        sse_payload(sse_frame(json)) == json + "\n\n"@,
{
    let f = sse_frame(json);
    let p = "data: "@;
    assert(f.subrange(0, p.len() as int) =~= p);
    assert(f.skip(p.len() as int) =~= json + "\n\n"@);
}

impl StreamEvent {
    /// The agent `agent` starts thinking.
    pub fn thinking_start(agent: &str) -> (e: Self)
        ensures
            e@ == (StreamEventView::ThinkingStart { agent: agent@ }),
    {
        StreamEvent::ThinkingStart { agent: String::from_str(agent) }
    }

    /// A piece `delta` of the agent's thinking.
    pub fn thinking_delta(agent: &str, delta: &str) -> (e: Self)
        ensures
            e@ == (StreamEventView::ThinkingDelta { agent: agent@, delta: delta@ }),
    {
        StreamEvent::ThinkingDelta { agent: String::from_str(agent), delta: String::from_str(delta) }
    }

    /// The agent `agent` stops thinking.
    pub fn thinking_end(agent: &str) -> (e: Self)
        ensures
            e@ == (StreamEventView::ThinkingEnd { agent: agent@ }),
    {
        StreamEvent::ThinkingEnd { agent: String::from_str(agent) }
    }

    /// The agent `agent` starts its answer.
    pub fn content_start(agent: &str) -> (e: Self)
        ensures
            e@ == (StreamEventView::ContentStart { agent: agent@ }),
    {
        StreamEvent::ContentStart { agent: String::from_str(agent) }
    }

    /// A piece `delta` of the agent's answer.
    pub fn content_delta(agent: &str, delta: &str) -> (e: Self)
        ensures
            e@ == (StreamEventView::ContentDelta { agent: agent@, delta: delta@ }),
    {
        StreamEvent::ContentDelta { agent: String::from_str(agent), delta: String::from_str(delta) }
    }

    /// The agent `agent` ends its answer.
    pub fn content_end(agent: &str) -> (e: Self)
        ensures
            e@ == (StreamEventView::ContentEnd { agent: agent@ }),
    {
        StreamEvent::ContentEnd { agent: String::from_str(agent) }
    }

    /// The whole answer is complete.
    pub fn complete() -> (e: Self)
        ensures
            e@ == StreamEventView::Complete,
    {
        StreamEvent::Complete
    }

    /// The agent `agent` failed with `message`.
    pub fn error(agent: &str, message: &str) -> (e: Self)
        ensures
            e@ == (StreamEventView::Error { agent: agent@, message: message@ }),
    {
        StreamEvent::Error { agent: String::from_str(agent), message: String::from_str(message) }
    }
}

} // verus!
