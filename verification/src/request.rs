//! Shared request data, conversion options and conversion errors of the
//! protocol adapters.

use vstd::prelude::*;

use crate::conversation::Conversation;
use crate::state_machine::ParsingOptions;

verus! {

/// How an adapter handles supported `web_search` declarations and tool
/// choices. Messages also applies this setting to assistant server-tool
/// content blocks.
#[derive(Debug, Clone, Copy, PartialEq, Eq, Structural)]
pub enum WebSearchBehavior {
    /// Drop matching declarations and choices, plus Messages server-tool blocks.
    Ignore,
    /// Reject matching declarations and choices, plus Messages server-tool blocks.
    Reject,
}

impl Default for WebSearchBehavior {
    fn default() -> (r: WebSearchBehavior)
        ensures
            r == WebSearchBehavior::Ignore,
    {
        WebSearchBehavior::Ignore
    }
}

/// Defaults for conversion from protocol requests.
#[derive(Debug, Clone, Copy, PartialEq, Eq, Structural)]
pub struct ConversionOptions {
    /// Default thinking mode for requests with an unspecified thinking mode.
    pub default_thinking_mode: bool,
    /// Behavior for Responses `web_search` tool declarations and tool choices.
    pub responses_web_search: WebSearchBehavior,
    /// Behavior for the Messages `web_search` server tool, its named tool
    /// choice, and its `server_tool_use` / `web_search_tool_result` blocks.
    pub messages_web_search: WebSearchBehavior,
}

impl ConversionOptions {
    /// Construct options that enable thinking for requests that do not
    /// specify a thinking mode, ignore Responses `web_search` and reject the
    /// Messages one.
    pub fn new() -> (r: ConversionOptions)
        ensures
            r == (ConversionOptions {
                default_thinking_mode: true,
                responses_web_search: WebSearchBehavior::Ignore,
                messages_web_search: WebSearchBehavior::Reject,
            }),
    {
        ConversionOptions {
            default_thinking_mode: true,
            responses_web_search: WebSearchBehavior::Ignore,
            messages_web_search: WebSearchBehavior::Reject,
        }
    }

    /// Set the default thinking mode.
    pub fn with_default_thinking_mode(self, default_thinking_mode: bool) -> (r: ConversionOptions)
        ensures
            r == (ConversionOptions { default_thinking_mode, ..self }),
    {
        ConversionOptions { default_thinking_mode, ..self }
    }

    /// Set the Responses `web_search` behavior.
    pub fn with_responses_web_search(self, responses_web_search: WebSearchBehavior) -> (r: ConversionOptions)
        ensures
            r == (ConversionOptions { responses_web_search, ..self }),
    {
        ConversionOptions { responses_web_search, ..self }
    }

    /// Set the Messages `web_search` behavior.
    pub fn with_messages_web_search(self, messages_web_search: WebSearchBehavior) -> (r: ConversionOptions)
        ensures
            r == (ConversionOptions { messages_web_search, ..self }),
    {
        ConversionOptions { messages_web_search, ..self }
    }
}

impl Default for ConversionOptions {
    fn default() -> (r: ConversionOptions)
        ensures
            r == (ConversionOptions {
                default_thinking_mode: true,
                responses_web_search: WebSearchBehavior::Ignore,
                messages_web_search: WebSearchBehavior::Reject,
            }),
    {
        ConversionOptions::new()
    }
}

/// A failure while converting protocol input into a conversation request.
#[derive(Debug, Clone, PartialEq, Eq)]
pub enum ConversionError {
    /// The input is invalid or uses an unsupported feature.
    BadRequest { detail: String },
    /// An internal conversion operation failed.
    Internal { detail: String },
}

/// The detail text of an error.
pub open spec fn error_detail(e: ConversionError) -> Seq<char> {
    match e {
        ConversionError::BadRequest { detail } => detail@,
        ConversionError::Internal { detail } => detail@,
    }
}

/// Two errors of the same kind with the same detail.
pub open spec fn same_error(a: ConversionError, b: ConversionError) -> bool {
    (a is BadRequest <==> b is BadRequest) && error_detail(a) == error_detail(b)
}

impl ConversionError {
    /// Returns an error of the same kind with the same detail.
    pub fn duplicate(&self) -> (r: ConversionError)
        ensures
            same_error(r, *self),
    {
        match self {
            ConversionError::BadRequest { detail } => ConversionError::BadRequest { detail: detail.clone() },
            ConversionError::Internal { detail } => ConversionError::Internal { detail: detail.clone() },
        }
    }

    /// An error for invalid or unsupported input.
    pub fn bad_request(detail: String) -> (r: ConversionError)
        ensures
            r == (ConversionError::BadRequest { detail }),
    {
        ConversionError::BadRequest { detail }
    }

    /// An error of an internal conversion step.
    pub fn internal(detail: String) -> (r: ConversionError)
        ensures
            r == (ConversionError::Internal { detail }),
    {
        ConversionError::Internal { detail }
    }

    /// The HTTP status code for this error.
    pub fn status_code(&self) -> (r: u16)
        ensures
            r == (if self is BadRequest { 400u16 } else { 500u16 }),
    {
        match self {
            ConversionError::BadRequest { .. } => 400,
            ConversionError::Internal { .. } => 500,
        }
    }

    /// Build the error response body for this error.
    pub fn into_response(self) -> (r: ErrorResponse)
        ensures
            match self {
                ConversionError::BadRequest { detail } => {
                    &&& r.error.message == detail
                    &&& r.error.error_type@ == "invalid_request_error"@
                    &&& r.error.code@ == "invalid_request_error"@
                    &&& r.error.param is None
                },
                ConversionError::Internal { detail } => {
                    &&& r.error.message == detail
                    &&& r.error.error_type@ == "internal_error"@
                    &&& r.error.code@ == "internal_error"@
                    &&& r.error.param is None
                },
            },
    {
        let status_code = self.status_code();
        let (kind_text, detail) = match self {
            ConversionError::BadRequest { detail } => ("invalid_request_error", detail),
            ConversionError::Internal { detail } => ("internal_error", detail),
        };
        let code = if status_code >= 500 {
            kind_text.to_string()
        } else {
            "invalid_request_error".to_string()
        };
        ErrorResponse {
            error: ErrorDetail { message: detail, error_type: kind_text.to_string(), param: None, code },
        }
    }
}

/// The detail of an error response.
#[derive(Debug, Clone, PartialEq, Eq)]
pub struct ErrorDetail {
    pub message: String,
    /// The error type (`type` on the wire).
    pub error_type: String,
    pub param: Option<String>,
    pub code: String,
}

/// An error response body.
#[derive(Debug, Clone, PartialEq, Eq)]
pub struct ErrorResponse {
    pub error: ErrorDetail,
}

/// A conversation with the inference limits and output parsing options a
/// protocol request asks for.
///
/// Sampling parameters that are floating-point numbers are taken from the
/// protocol request by the caller.
pub struct ConversationRequest {
    pub conversation: Conversation,
    pub parsing_options: ParsingOptions,
    /// Maximum number of generated tokens.
    pub max_tokens: Option<u32>,
    /// Passed through for applications that support a thinking budget.
    pub thinking_budget_tokens: Option<u64>,
    /// Passed through for the caller to control parallel tool execution.
    pub disable_parallel_tool_use: Option<bool>,
    /// Original model name, when exposed by the adapter.
    pub model: Option<String>,
    pub stream: bool,
}

/// Accumulate an incremental update into an existing value.
pub trait AppendDelta<D> {
    /// Apply one update in arrival order.
    fn append(&mut self, delta: D);
}

impl AppendDelta<String> for String {
    fn append(&mut self, delta: String)
        ensures
            final(self)@ == old(self)@ + delta@,
    {
        let joined = crate::text::concat(self.as_str(), delta.as_str());
        *self = joined;
    }
}

} // verus!
