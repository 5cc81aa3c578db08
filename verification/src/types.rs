//! Data types of the collector: the parsed per-event fields, the in-progress
//! aggregate, and the final response record, each with its spec-level view.

use vstd::prelude::*;

verus! {

/// Token accounting reported by the upstream, normally on the final event.
#[derive(Debug, Clone, Copy, PartialEq, Eq)]
pub struct Usage {
    pub prompt_tokens: u64,
    pub completion_tokens: u64,
    pub total_tokens: u64,
}

/// The fields one `data:` event may carry, already reduced to plain values.
/// A field is `None` when the event's JSON does not carry it in the expected
/// shape (or when the payload is not valid JSON at all).
#[derive(Debug, Clone, PartialEq, Eq)]
pub struct ChunkEvent {
    pub id: Option<String>,
    pub model: Option<String>,
    pub created: Option<u64>,
    pub usage: Option<Usage>,
    pub role: Option<String>,
    pub content: Option<String>,
    pub reasoning_content: Option<String>,
    pub finish_reason: Option<String>,
}

/// Spec-level image of a `ChunkEvent`.
#[verifier::ext_equal]
pub ghost struct EventView {
    pub id: Option<Seq<char>>,
    pub model: Option<Seq<char>>,
    pub created: Option<u64>,
    pub usage: Option<Usage>,
    pub role: Option<Seq<char>>,
    pub content: Option<Seq<char>>,
    pub reasoning_content: Option<Seq<char>>,
    pub finish_reason: Option<Seq<char>>,
}

pub open spec fn opt_str_view(o: Option<String>) -> Option<Seq<char>> {
    match o {
        Some(s) => Some(s@),
        None => None,
    }
}

impl View for ChunkEvent {
    type V = EventView;

    open spec fn view(&self) -> EventView {
        EventView {
            id: opt_str_view(self.id),
            model: opt_str_view(self.model),
            created: self.created,
            usage: self.usage,
            role: opt_str_view(self.role),
            content: opt_str_view(self.content),
            reasoning_content: opt_str_view(self.reasoning_content),
            finish_reason: opt_str_view(self.finish_reason),
        }
    }
}

/// The assembled message of the single choice.
#[derive(Debug, Clone, PartialEq, Eq)]
pub struct Message {
    pub role: String,
    pub content: String,
    /// Absent (never an empty string) when no event carried reasoning text.
    pub reasoning_content: Option<String>,
}

#[verifier::ext_equal]
pub ghost struct MessageView {
    pub role: Seq<char>,
    pub content: Seq<char>,
    pub reasoning_content: Option<Seq<char>>,
}

impl View for Message {
    type V = MessageView;

    open spec fn view(&self) -> MessageView {
        MessageView {
            role: self.role@,
            content: self.content@,
            reasoning_content: opt_str_view(self.reasoning_content),
        }
    }
}

/// One choice of the final response; the collector only ever emits index 0.
#[derive(Debug, Clone, PartialEq, Eq)]
pub struct Choice {
    pub index: u64,
    pub message: Message,
    pub finish_reason: Option<String>,
}

#[verifier::ext_equal]
pub ghost struct ChoiceView {
    pub index: u64,
    pub message: MessageView,
    pub finish_reason: Option<Seq<char>>,
}

impl View for Choice {
    type V = ChoiceView;

    open spec fn view(&self) -> ChoiceView {
        ChoiceView {
            index: self.index,
            message: self.message@,
            finish_reason: opt_str_view(self.finish_reason),
        }
    }
}

/// The complete chat-completion response assembled from the stream.
/// Tool calls are not aggregated; the message never carries any.
#[derive(Debug, Clone, PartialEq, Eq)]
pub struct Response {
    pub id: String,
    pub object: String,
    pub created: u64,
    pub model: String,
    pub choices: Vec<Choice>,
    pub usage: Option<Usage>,
}

#[verifier::ext_equal]
pub ghost struct ResponseView {
    pub id: Seq<char>,
    pub object: Seq<char>,
    pub created: u64,
    pub model: Seq<char>,
    pub choices: Seq<ChoiceView>,
    pub usage: Option<Usage>,
}

impl View for Response {
    type V = ResponseView;

    open spec fn view(&self) -> ResponseView {
        ResponseView {
            id: self.id@,
            object: self.object@,
            created: self.created,
            model: self.model@,
            choices: self.choices@.map_values(|c: Choice| c@),
            usage: self.usage,
        }
    }
}

/// The in-progress aggregate of one collection call, fed line fragments
/// chunk by chunk and consumed once by `finish`.
#[derive(Debug, Clone, PartialEq, Eq)]
pub struct Aggregate {
    pub id: String,
    pub created: u64,
    pub model: String,
    pub role: Option<String>,
    pub content_parts: Vec<String>,
    pub reasoning_parts: Vec<String>,
    pub finish_reason: Option<String>,
    pub usage: Option<Usage>,
    /// Placeholder accumulator: streamed tool-call fragments are not merged,
    /// and the final message never carries tool calls.
    pub tool_calls: Vec<String>,
    /// Trailing partial line of the previous chunk, carried over so that a
    /// line split across two chunk boundaries is reassembled.
    pub residual: Vec<char>,
}

#[verifier::ext_equal]
pub ghost struct AggView {
    pub id: Seq<char>,
    pub created: u64,
    pub model: Seq<char>,
    pub role: Option<Seq<char>>,
    pub content_parts: Seq<Seq<char>>,
    pub reasoning_parts: Seq<Seq<char>>,
    pub finish_reason: Option<Seq<char>>,
    pub usage: Option<Usage>,
    pub tool_calls: Seq<Seq<char>>,
    pub residual: Seq<char>,
}

impl View for Aggregate {
    type V = AggView;

    open spec fn view(&self) -> AggView {
        AggView {
            id: self.id@,
            created: self.created,
            model: self.model@,
            role: opt_str_view(self.role),
            content_parts: self.content_parts@.map_values(|s: String| s@),
            reasoning_parts: self.reasoning_parts@.map_values(|s: String| s@),
            finish_reason: opt_str_view(self.finish_reason),
            usage: self.usage,
            tool_calls: self.tool_calls@.map_values(|s: String| s@),
            residual: self.residual@,
        }
    }
}

} // verus!
