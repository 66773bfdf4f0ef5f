//! Messages, requests and results of a language model backend.

use vstd::prelude::*;

use crate::json::Json;

verus! {

/// Who wrote a message.
#[derive(Debug, Clone, Copy, PartialEq, Eq, Structural)]
pub enum Role {
    System,
    User,
    Assistant,
}

/// One piece of a message or of a reply.
#[derive(Debug, PartialEq, Eq)]
pub enum ContentBlock {
    Text { text: String, provider_metadata: Option<String> },
    Image { media_type: String, data: String },
    ToolUse { id: String, name: String, input: Json },
    ToolResult { tool_use_id: String, tool_name: String, content: String, is_error: bool },
    Thinking { thinking: String },
    RedactedThinking { data: String },
    Unknown,
}

/// What a message says.
#[derive(Debug, PartialEq, Eq)]
pub enum MessageContent {
    Text(String),
    Blocks(Vec<ContentBlock>),
}

/// One message of a conversation.
#[derive(Debug, PartialEq, Eq)]
pub struct Message {
    pub role: Role,
    pub content: MessageContent,
    pub msg_id: String,
}

/// A tool that a caller offers to the model.
#[derive(Debug, Clone, PartialEq, Eq)]
pub struct ToolDefinition {
    pub name: String,
    pub description: String,
    pub input_schema: String,
}

/// A call of a tool by the model.
#[derive(Debug, Clone, PartialEq, Eq)]
pub struct ToolCall {
    pub id: String,
    pub name: String,
    pub input: String,
}

/// What a caller wants the model to complete.
#[derive(Debug, PartialEq, Eq)]
pub struct CompletionRequest {
    pub model: String,
    pub messages: Vec<Message>,
    pub tools: Vec<ToolDefinition>,
    pub system: Option<String>,
}

/// Why the model stopped.
#[derive(Debug, Clone, Copy, PartialEq, Eq, Structural)]
pub enum StopReason {
    EndTurn,
    ToolUse,
    MaxTokens,
    StopSequence,
}

/// How many tokens a turn took.
#[derive(Debug, Clone, Copy, PartialEq, Eq, Structural)]
pub struct TokenUsage {
    pub input_tokens: u64,
    pub output_tokens: u64,
}

/// What the model completed.
#[derive(Debug, PartialEq, Eq)]
pub struct CompletionResponse {
    pub content: Vec<ContentBlock>,
    pub stop_reason: StopReason,
    pub tool_calls: Vec<ToolCall>,
    pub usage: TokenUsage,
}

/// What a caller sees of a turn while it runs.
#[derive(Debug, Clone, PartialEq, Eq)]
pub enum StreamEvent {
    TextDelta { text: String },
    ContentComplete { stop_reason: StopReason, usage: TokenUsage },
}

/// Why a completion failed.
#[derive(Debug, Clone, PartialEq, Eq)]
pub enum LlmError {
    Http(String),
    Parse(String),
    AuthenticationFailed(String),
    RateLimited { retry_after_ms: u64 },
    Api { status: u16, message: String },
}

/// The value of a failure.
pub enum LlmErrorView {
    Http(Seq<char>),
    Parse(Seq<char>),
    AuthenticationFailed(Seq<char>),
    RateLimited { retry_after_ms: u64 },
    Api { status: u16, message: Seq<char> },
}

impl View for LlmError {
    type V = LlmErrorView;

    open spec fn view(&self) -> LlmErrorView {
        match self {
            LlmError::Http(e) => LlmErrorView::Http(e@),
            LlmError::Parse(e) => LlmErrorView::Parse(e@),
            LlmError::AuthenticationFailed(e) => LlmErrorView::AuthenticationFailed(e@),
            LlmError::RateLimited { retry_after_ms } => LlmErrorView::RateLimited {
                retry_after_ms: *retry_after_ms,
            },
            LlmError::Api { status, message } => LlmErrorView::Api {
                status: *status,
                message: message@,
            },
        }
    }
}

/// The value of what a caller sees of a turn.
pub enum StreamView {
    TextDelta(Seq<char>),
    ContentComplete { stop_reason: StopReason, usage: TokenUsage },
}

impl View for StreamEvent {
    type V = StreamView;

    open spec fn view(&self) -> StreamView {
        match self {
            StreamEvent::TextDelta { text } => StreamView::TextDelta(text@),
            StreamEvent::ContentComplete { stop_reason, usage } => StreamView::ContentComplete {
                stop_reason: *stop_reason,
                usage: *usage,
            },
        }
    }
}

/// The text of a block that is plain text.
pub open spec fn block_text(b: ContentBlock) -> Option<Seq<char>> {
    match b {
        ContentBlock::Text { text, provider_metadata: None } => Some(text@),
        _ => None,
    }
}

/// The value of a reply: the text of each block, and how many tools it calls.
pub struct ReplyView {
    pub content: Seq<Option<Seq<char>>>,
    pub stop_reason: StopReason,
    pub tool_calls: nat,
    pub usage: TokenUsage,
}

impl View for CompletionResponse {
    type V = ReplyView;

    open spec fn view(&self) -> ReplyView {
        ReplyView {
            content: self.content@.map_values(|b: ContentBlock| block_text(b)),
            stop_reason: self.stop_reason,
            tool_calls: self.tool_calls@.len(),
            usage: self.usage,
        }
    }
}

/// The reply that is one text and calls no tools.
pub open spec fn text_reply(text: Seq<char>, usage: TokenUsage) -> ReplyView {
    ReplyView {
        content: seq![Some(text)],
        stop_reason: StopReason::EndTurn,
        tool_calls: 0,
        usage,
    }
}

} // verus!
