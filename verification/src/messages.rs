//! The Anthropic Messages protocol: request conversion.
//!
//! Supports text, images, client tools, and thinking blocks. Document
//! content and hosted tool execution are outside the supported scope.
//! Server tools are rejected by default; web-search handling is configurable
//! through [`ConversionOptions::messages_web_search`].
//!
//! Input text must not spell out the image placeholder. Every placeholder in
//! a prompt corresponds to one image source, and the adapter inserts them for
//! image blocks only.

use vstd::prelude::*;

use crate::conversation::{
    Conversation, InputMessage, MessageView, ReasoningEffort, ResponseFormat, ToolCall, ToolCallView, ToolChoice,
    ToolDefinition, ToolDefinitionView, messages_view, opt_view, sources_view, tools_view,
};
use crate::encoding::join;
use crate::image::utf8_len;
use crate::image_input::{
    base64_data_url, base64_decodes, base64_image_source, debug_text, external_image_source, file_id_unsupported,
    image_not_allowed, normalized_padding, url_too_long_detail,
};
use crate::json::{JsonValue, json_view, stringify_python_style};
use crate::multimodal::{IMAGE_SPECIAL_TOKEN, ImageDetail, ImageSource, ImageSourceView, is_http_url_spec, media_type_of};
use crate::request::{ConversationRequest, ConversionError, ConversionOptions, WebSearchBehavior};
use crate::state_machine::{ParsingOptions, ReasoningStage};
use crate::text::{append_chars, append_str, concat, decimal, decimal_chars, string_of, strings_view};
use crate::validation::{
    Failure, UNSUPPORTED_DOCUMENT_PLACEHOLDER, UNSUPPORTED_IMAGE_ERR, bad_request_with, contains_image_token, fails_as,
    fails_with, has_image_token, image_special_token_not_allowed, is_object_schema, outcome_is, result_is,
    schema_compiles, validate_max_tokens, validate_tool_name, validate_tool_parameters, validate_tool_text,
};

verus! {

// ---------------------------------------------------------------------------
// Request

/// An Anthropic Messages request. Unknown top-level fields are ignored.
///
/// Model selection, execution and usage accounting are the caller's
/// responsibility. Images are supported. Document blocks become the text
/// `[Unsupported Document]`; their contents are discarded. The
/// floating-point sampling fields are checked by the caller, which passes
/// the outcome in `sampling_error`.
#[derive(Debug)]
pub struct MessagesRequest {
    pub model: String,
    pub messages: Vec<MessagesMessage>,
    pub system: Option<MessagesTextOrTextBlocks>,
    pub max_tokens: Option<u32>,
    /// The error of the `temperature` and `top_p` range check.
    pub sampling_error: Option<ConversionError>,
    pub stop_sequences: Option<Vec<String>>,
    pub stream: Option<bool>,
    pub tools: Option<Vec<MessagesTool>>,
    pub tool_choice: Option<MessagesToolChoice>,
    pub thinking: Option<MessagesThinking>,
    pub output_config: Option<MessagesOutputConfig>,
}

/// One message, by role.
#[derive(Debug)]
pub enum MessagesMessage {
    User(MessagesContent),
    Assistant(MessagesContent),
    /// Compatibility extension, rendered as a user system-reminder.
    System(MessagesTextOrTextBlocks),
}

/// Message content: one string or a list of blocks.
#[derive(Debug)]
pub enum MessagesContent {
    Raw(String),
    Blocks(Vec<MessagesContentBlock>),
}

/// Text content: one string or a list of text blocks.
#[derive(Debug)]
pub enum MessagesTextOrTextBlocks {
    Raw(String),
    Blocks(Vec<MessagesTextBlock>),
}

/// One block of text content.
#[derive(Debug)]
pub enum MessagesTextBlock {
    Text { text: String },
    ToolReference { tool_name: String },
    Image { source: MessagesImageSource },
    /// Documents are rendered as an unsupported-document placeholder.
    Document,
    /// Recognized during deserialization, rejected during conversion.
    Unsupported,
}

/// One image referenced by inline data, URL, or file identifier. A file
/// identifier requires a file service and is rejected during conversion.
#[derive(Debug)]
pub enum MessagesImageSource {
    Base64 {
        /// Declared media type, validated against the supported image types.
        media_type: String,
        data: String,
    },
    Url { url: String },
    File { file_id: String },
}

/// One block of message content.
#[derive(Debug)]
pub enum MessagesContentBlock {
    Text { text: String },
    ToolReference { tool_name: String },
    ToolUse { id: String, name: String, input: JsonValue },
    ToolResult {
        tool_use_id: String,
        content: Option<MessagesTextOrTextBlocks>,
        /// Accepted for compatibility; the result text is preserved either way.
        is_error: Option<bool>,
    },
    Thinking {
        /// Signature data available to the caller before conversion.
        signature: Option<String>,
        thinking: String,
    },
    Image { source: MessagesImageSource },
    /// A server tool invocation. Assistant messages only; dropped or rejected
    /// per [`ConversionOptions::messages_web_search`].
    ServerToolUse { id: String, name: String, input: JsonValue },
    /// A server tool result. Assistant messages only; dropped or rejected per
    /// [`ConversionOptions::messages_web_search`].
    WebSearchToolResult { tool_use_id: String, content: JsonValue },
    /// Documents are rendered as an unsupported-document placeholder.
    Document,
    Unsupported,
}

/// A client tool declaration. A `type` starting with `web_search` is dropped
/// or rejected per [`ConversionOptions::messages_web_search`]; other `type`
/// discriminators are rejected as unsupported.
#[derive(Debug)]
pub struct MessagesTool {
    pub name: String,
    pub description: Option<String>,
    pub input_schema: Option<JsonValue>,
    /// The tool type (`type` on the wire).
    pub kind: Option<String>,
}

/// The tool choice.
#[derive(Debug)]
pub enum MessagesToolChoice {
    Auto { disable_parallel_tool_use: Option<bool> },
    /// For compatibility, `any` permits both text replies and tool calls.
    Any { disable_parallel_tool_use: Option<bool> },
    Tool { name: String, disable_parallel_tool_use: Option<bool> },
    /// No tool may be called (`none` on the wire).
    Disabled,
}

/// The thinking setting.
#[derive(Debug, Clone, Copy, PartialEq, Eq, Structural)]
pub struct MessagesThinking {
    /// Enabled or disabled (`type` on the wire).
    pub kind: MessagesThinkingType,
    /// Thinking budget passed through for the caller to enforce.
    pub budget_tokens: Option<u64>,
}

/// Whether thinking is enabled; `adaptive` on the wire means enabled.
#[derive(Debug, Clone, Copy, PartialEq, Eq, Structural)]
pub enum MessagesThinkingType {
    Enabled,
    Disabled,
}

/// Output settings.
#[derive(Debug, Clone, Copy, PartialEq, Eq, Structural)]
pub struct MessagesOutputConfig {
    pub effort: Option<MessagesReasoningEffort>,
}

/// The requested reasoning effort.
#[derive(Debug, Clone, Copy, PartialEq, Eq, Structural)]
pub enum MessagesReasoningEffort {
    Low,
    Medium,
    High,
    Xhigh,
    Ultra,
    Max,
}

// ---------------------------------------------------------------------------
// Content

/// The image source an image reference becomes, or the detail of its error.
pub open spec fn image_source_spec(source: MessagesImageSource, path: Seq<char>) -> Result<ImageSourceView, Seq<char>> {
    match source {
        MessagesImageSource::Base64 { media_type, data } => match media_type_of(media_type@) {
            None => Err(path + ": "@ + UNSUPPORTED_IMAGE_ERR@),
            Some(t) => if base64_decodes(normalized_padding(data@)) {
                Ok(ImageSourceView::DataUrl { data_url: base64_data_url(t, normalized_padding(data@)), detail: ImageDetail::High })
            } else {
                Err(path + ": base64 decode error"@)
            },
        },
        MessagesImageSource::Url { url } => if !is_http_url_spec(url@) {
            Err(path + ": invalid url: "@ + debug_text(url@))
        } else if utf8_len(url@) > 8192 {
            Err(url_too_long_detail(path, utf8_len(url@) as nat))
        } else {
            Ok(ImageSourceView::Url { url: url@, detail: ImageDetail::High })
        },
        MessagesImageSource::File { .. } => Err(
            path + ": file_id is not supported. Pass the image as a base64 data url instead."@,
        ),
    }
}

/// Convert one Messages image reference.
pub fn image_source(source: &MessagesImageSource, path: &str) -> (r: Result<ImageSource, ConversionError>)
    ensures
        result_is(r, image_source_spec(*source, path@), |s: ImageSource| s@),
{
    match source {
        MessagesImageSource::Base64 { media_type, data } => base64_image_source(media_type.as_str(), data.clone(), path),
        MessagesImageSource::Url { url } => external_image_source(url.clone(), None, path),
        MessagesImageSource::File { .. } => Err(file_id_unsupported(path)),
    }
}

/// The text and images of one text block, or the detail of its error.
pub open spec fn text_block_spec(b: MessagesTextBlock, path: Seq<char>) -> Result<(Seq<char>, Seq<ImageSourceView>), Seq<char>> {
    match b {
        MessagesTextBlock::Text { text } => Ok((text@, Seq::empty())),
        MessagesTextBlock::ToolReference { tool_name } => Ok((tool_name@, Seq::empty())),
        MessagesTextBlock::Image { source } => match image_source_spec(source, path) {
            Ok(s) => Ok((IMAGE_SPECIAL_TOKEN@, seq![s])),
            Err(e) => Err(e),
        },
        MessagesTextBlock::Document => Ok((UNSUPPORTED_DOCUMENT_PLACEHOLDER@, Seq::empty())),
        MessagesTextBlock::Unsupported => Err("Unsupported content block"@),
    }
}

/// The value of converted content.
pub open spec fn pair_view(p: (String, Vec<ImageSource>)) -> (Seq<char>, Seq<ImageSourceView>) {
    (p.0@, sources_view(p.1@))
}

/// Returns text and no images.
fn text_only(text: String) -> (r: (String, Vec<ImageSource>))
    ensures
        pair_view(r) == (text@, Seq::<ImageSourceView>::empty()),
{
    let images: Vec<ImageSource> = Vec::new();
    assert(sources_view(images@) =~= Seq::<ImageSourceView>::empty());
    (text, images)
}

/// Returns the image placeholder and one image.
fn image_only(src: ImageSource) -> (r: (String, Vec<ImageSource>))
    ensures
        pair_view(r) == (IMAGE_SPECIAL_TOKEN@, seq![src@]),
{
    let mut images: Vec<ImageSource> = Vec::new();
    let ghost v = src@;
    images.push(src);
    assert(sources_view(images@) =~= seq![v]);
    (IMAGE_SPECIAL_TOKEN.to_string(), images)
}

/// Returns the unsupported-block error.
fn unsupported_block() -> (r: ConversionError)
    ensures
        bad_request_with(r, "Unsupported content block"@),
{
    ConversionError::bad_request("Unsupported content block".to_string())
}

impl MessagesTextBlock {
    /// Convert text and tool references, substitute document placeholders,
    /// and collect images with one [`IMAGE_SPECIAL_TOKEN`] placeholder per
    /// image.
    pub fn into_content(&self, path: &str) -> (r: Result<(String, Vec<ImageSource>), ConversionError>)
        ensures
            result_is(r, text_block_spec(*self, path@), |p: (String, Vec<ImageSource>)| pair_view(p)),
    {
        match self {
            MessagesTextBlock::Text { text } => Ok(text_only(text.clone())),
            MessagesTextBlock::ToolReference { tool_name } => Ok(text_only(tool_name.clone())),
            MessagesTextBlock::Image { source } => match image_source(source, path) {
                Ok(s) => Ok(image_only(s)),
                Err(e) => Err(e),
            },
            MessagesTextBlock::Document => Ok(text_only(UNSUPPORTED_DOCUMENT_PLACEHOLDER.to_string())),
            MessagesTextBlock::Unsupported => Err(unsupported_block()),
        }
    }
}

/// The path of block `i` of the text content at `path`.
pub open spec fn indexed_path(path: Seq<char>, i: int) -> Seq<char> {
    path + "["@ + decimal(i as nat) + "]"@
}

/// The texts and images of the first `n` text blocks, or the first error.
pub open spec fn text_blocks_spec(blocks: Seq<MessagesTextBlock>, path: Seq<char>, n: int) -> Result<(Seq<Seq<char>>, Seq<ImageSourceView>), Seq<char>>
    decreases n,
{
    if n <= 0 {
        Ok((Seq::empty(), Seq::empty()))
    } else {
        match text_blocks_spec(blocks, path, n - 1) {
            Err(e) => Err(e),
            Ok((texts, images)) => match text_block_spec(blocks[n - 1], indexed_path(path, n - 1)) {
                Err(e) => Err(e),
                Ok((t, imgs)) => Ok((texts.push(t), images + imgs)),
            },
        }
    }
}

/// Once a text block fails, the blocks that follow keep its error.
proof fn lemma_text_blocks_err(blocks: Seq<MessagesTextBlock>, path: Seq<char>, n: int, m: int)
    requires
        0 <= n <= m,
        text_blocks_spec(blocks, path, n) is Err,
    ensures
        text_blocks_spec(blocks, path, m) == text_blocks_spec(blocks, path, n),
    decreases m - n,
{
    if n < m {
        lemma_text_blocks_err(blocks, path, n, m - 1);
    }
}

/// The text and images of text content, or the detail of its error.
pub open spec fn text_content_spec(c: MessagesTextOrTextBlocks, path: Seq<char>) -> Result<(Seq<char>, Seq<ImageSourceView>), Seq<char>> {
    match c {
        MessagesTextOrTextBlocks::Raw(s) => Ok((s@, Seq::empty())),
        MessagesTextOrTextBlocks::Blocks(blocks) => match text_blocks_spec(blocks@, path, blocks@.len() as int) {
            Ok((texts, images)) => Ok((join(texts, "\n\n"@), images)),
            Err(e) => Err(e),
        },
    }
}

/// The text of text content that may not carry images, or the detail of
/// its error.
pub open spec fn text_only_spec(c: MessagesTextOrTextBlocks, path: Seq<char>, role: Seq<char>) -> Result<Seq<char>, Seq<char>> {
    match text_content_spec(c, path) {
        Err(e) => Err(e),
        Ok((t, images)) => if images.len() > 0 {
            Err("Image in "@ + role + " message is unsupported"@)
        } else {
            Ok(t)
        },
    }
}

/// Returns the path of block `i` of the text content at `path`.
fn indexed_path_exec(path: &str, i: usize) -> (r: String)
    ensures
        r@ == indexed_path(path@, i as int),
{
    let mut out: Vec<char> = Vec::new();
    append_str(&mut out, path);
    append_str(&mut out, "[");
    let d = decimal_chars(i);
    append_chars(&mut out, d.as_slice());
    append_str(&mut out, "]");
    assert(out@ =~= indexed_path(path@, i as int));
    string_of(out.as_slice())
}

impl MessagesTextOrTextBlocks {
    /// Join textual content and document placeholders, collecting image
    /// sources.
    pub fn into_content(&self, path: &str) -> (r: Result<(String, Vec<ImageSource>), ConversionError>)
        ensures
            result_is(r, text_content_spec(*self, path@), |p: (String, Vec<ImageSource>)| pair_view(p)),
    {
        match self {
            MessagesTextOrTextBlocks::Raw(content) => Ok(text_only(content.clone())),
            MessagesTextOrTextBlocks::Blocks(blocks) => {
                let mut texts: Vec<String> = Vec::new();
                let mut images: Vec<ImageSource> = Vec::new();
                let mut i: usize = 0;
                assert(strings_view(texts@) =~= Seq::<Seq<char>>::empty());
                assert(sources_view(images@) =~= Seq::<ImageSourceView>::empty());
                while i < blocks.len()
                    invariant
                        i <= blocks@.len(),
                        *self == MessagesTextOrTextBlocks::Blocks(*blocks),
                        text_blocks_spec(blocks@, path@, i as int) == Ok::<(Seq<Seq<char>>, Seq<ImageSourceView>), Seq<char>>(
                            (strings_view(texts@), sources_view(images@)),
                        ),
                    decreases blocks@.len() - i,
                {
                    let p = indexed_path_exec(path, i);
                    match blocks[i].into_content(p.as_str()) {
                        Err(e) => {
                            proof {
                                lemma_text_blocks_err(blocks@, path@, i + 1, blocks@.len() as int);
                            }
                            return Err(e);
                        },
                        Ok((t, imgs)) => {
                            let ghost tv = strings_view(texts@);
                            let ghost iv = sources_view(images@);
                            let ghost nv = sources_view(imgs@);
                            texts.push(t);
                            let mut imgs = imgs;
                            images.append(&mut imgs);
                            assert(strings_view(texts@) =~= tv.push(texts@[texts@.len() - 1]@));
                            assert(sources_view(images@) =~= iv + nv);
                        },
                    }
                    i += 1;
                }
                let text = crate::text::join_strings(&texts, "\n\n");
                Ok((text, images))
            },
        }
    }

    /// Join textual content and document placeholders, rejecting images.
    pub fn into_text(&self, path: &str, role: &str) -> (r: Result<String, ConversionError>)
        ensures
            result_is(r, text_only_spec(*self, path@, role@), |s: String| s@),
    {
        match self.into_content(path) {
            Err(e) => Err(e),
            Ok((content, images)) => {
                if images.len() > 0 {
                    return Err(image_not_allowed(role));
                }
                Ok(content)
            },
        }
    }
}

/// The text of a textual content block: text, a tool reference, an image's
/// error, or a document placeholder; an image that converts is refused for
/// the role.
pub open spec fn block_text_spec(b: MessagesContentBlock, path: Seq<char>, role: Seq<char>) -> Result<Seq<char>, Seq<char>> {
    match b {
        MessagesContentBlock::Text { text } => Ok(text@),
        MessagesContentBlock::ToolReference { tool_name } => Ok(tool_name@),
        MessagesContentBlock::Image { source } => match image_source_spec(source, path) {
            Ok(_) => Err("Image in "@ + role + " message is unsupported"@),
            Err(e) => Err(e),
        },
        MessagesContentBlock::Document => Ok(UNSUPPORTED_DOCUMENT_PLACEHOLDER@),
        _ => Err("unexpected content block type"@),
    }
}

impl MessagesContentBlock {
    /// Convert textual content and document placeholders, rejecting images.
    pub fn into_text(&self, path: &str, role: &str) -> (r: Result<String, ConversionError>)
        ensures
            match block_text_spec(*self, path@, role@) {
                Ok(t) => r matches Ok(s) && s@ == t,
                Err(d) => r matches Err(e) && crate::request::error_detail(e) == d && (e is BadRequest
                    <==> self is Image),
            },
    {
        match self {
            MessagesContentBlock::Text { text } => Ok(text.clone()),
            MessagesContentBlock::ToolReference { tool_name } => Ok(tool_name.clone()),
            MessagesContentBlock::Image { source } => match image_source(source, path) {
                Ok(_) => Err(image_not_allowed(role)),
                Err(e) => Err(e),
            },
            MessagesContentBlock::Document => Ok(UNSUPPORTED_DOCUMENT_PLACEHOLDER.to_string()),
            _ => Err(ConversionError::internal("unexpected content block type".to_string())),
        }
    }
}

// ---------------------------------------------------------------------------
// The image placeholder in input text

/// Whether a text block carries the image placeholder.
pub open spec fn text_block_has_token(b: MessagesTextBlock) -> bool {
    match b {
        MessagesTextBlock::Text { text } => has_image_token(text@),
        MessagesTextBlock::ToolReference { tool_name } => has_image_token(tool_name@),
        _ => false,
    }
}

/// Whether one of a list of text blocks carries the image placeholder.
pub open spec fn text_blocks_have_token(blocks: Seq<MessagesTextBlock>) -> bool {
    exists|i: int| 0 <= i < blocks.len() && #[trigger] text_block_has_token(blocks[i])
}

/// Whether text content carries the image placeholder.
pub open spec fn text_content_has_token(c: MessagesTextOrTextBlocks) -> bool {
    match c {
        MessagesTextOrTextBlocks::Raw(s) => has_image_token(s@),
        MessagesTextOrTextBlocks::Blocks(blocks) => text_blocks_have_token(blocks@),
    }
}

/// Whether a content block carries the image placeholder in text that
/// reaches the prompt.
pub open spec fn block_has_token(b: MessagesContentBlock) -> bool {
    match b {
        MessagesContentBlock::Text { text } => has_image_token(text@),
        MessagesContentBlock::ToolReference { tool_name } => has_image_token(tool_name@),
        MessagesContentBlock::Thinking { thinking, .. } => has_image_token(thinking@),
        MessagesContentBlock::ToolResult { content, .. } => content matches Some(c) && text_content_has_token(c),
        _ => false,
    }
}

/// Whether one of a list of content blocks carries the image placeholder.
pub open spec fn blocks_have_token(blocks: Seq<MessagesContentBlock>) -> bool {
    exists|i: int| 0 <= i < blocks.len() && #[trigger] block_has_token(blocks[i])
}

/// Whether message content carries the image placeholder.
pub open spec fn content_has_token(c: MessagesContent) -> bool {
    match c {
        MessagesContent::Raw(s) => has_image_token(s@),
        MessagesContent::Blocks(blocks) => blocks_have_token(blocks@),
    }
}

/// Whether a message carries the image placeholder.
pub open spec fn message_has_token(m: MessagesMessage) -> bool {
    match m {
        MessagesMessage::User(c) => content_has_token(c),
        MessagesMessage::Assistant(c) => content_has_token(c),
        MessagesMessage::System(c) => text_content_has_token(c),
    }
}

/// Whether any message or the top-level system text carries the image
/// placeholder.
pub open spec fn input_has_token(msgs: Seq<MessagesMessage>, system: Option<MessagesTextOrTextBlocks>) -> bool {
    (exists|i: int| 0 <= i < msgs.len() && #[trigger] message_has_token(msgs[i])) || (system matches Some(s)
        && text_content_has_token(s))
}

/// Return whether one text or text-block value carries
/// [`IMAGE_SPECIAL_TOKEN`].
pub fn text_or_text_blocks_contain_image_special_token(content: &MessagesTextOrTextBlocks) -> (r: bool)
    ensures
        r == text_content_has_token(*content),
{
    match content {
        MessagesTextOrTextBlocks::Raw(s) => contains_image_token(s.as_str()),
        MessagesTextOrTextBlocks::Blocks(blocks) => {
            let mut i: usize = 0;
            while i < blocks.len()
                invariant
                    i <= blocks@.len(),
                    *content == MessagesTextOrTextBlocks::Blocks(*blocks),
                    forall|k: int| 0 <= k < i ==> !text_block_has_token(#[trigger] blocks@[k]),
                decreases blocks@.len() - i,
            {
                let found = match &blocks[i] {
                    MessagesTextBlock::Text { text } => contains_image_token(text.as_str()),
                    MessagesTextBlock::ToolReference { tool_name } => contains_image_token(tool_name.as_str()),
                    _ => false,
                };
                if found {
                    assert(text_block_has_token(blocks@[i as int]));
                    assert(text_blocks_have_token(blocks@));
                    return true;
                }
                i += 1;
            }
            false
        },
    }
}

/// Return whether one message content block carries
/// [`IMAGE_SPECIAL_TOKEN`].
pub fn block_contains_image_special_token(block: &MessagesContentBlock) -> (r: bool)
    ensures
        r == block_has_token(*block),
{
    match block {
        MessagesContentBlock::Text { text } => contains_image_token(text.as_str()),
        MessagesContentBlock::ToolReference { tool_name } => contains_image_token(tool_name.as_str()),
        MessagesContentBlock::Thinking { thinking, .. } => contains_image_token(thinking.as_str()),
        MessagesContentBlock::ToolResult { content, .. } => match content {
            Some(c) => text_or_text_blocks_contain_image_special_token(c),
            None => false,
        },
        _ => false,
    }
}

/// Return whether one message content carries [`IMAGE_SPECIAL_TOKEN`].
pub fn content_contains_image_special_token(content: &MessagesContent) -> (r: bool)
    ensures
        r == content_has_token(*content),
{
    match content {
        MessagesContent::Raw(s) => contains_image_token(s.as_str()),
        MessagesContent::Blocks(blocks) => {
            let mut i: usize = 0;
            while i < blocks.len()
                invariant
                    i <= blocks@.len(),
                    *content == MessagesContent::Blocks(*blocks),
                    forall|k: int| 0 <= k < i ==> !block_has_token(#[trigger] blocks@[k]),
                decreases blocks@.len() - i,
            {
                if block_contains_image_special_token(&blocks[i]) {
                    assert(blocks_have_token(blocks@));
                    return true;
                }
                i += 1;
            }
            false
        },
    }
}

/// Return whether any message text or top-level system text carries
/// [`IMAGE_SPECIAL_TOKEN`].
///
/// Message text, tool references, thinking blocks, and tool result text are
/// checked. Tool call names and arguments are checked after conversion by
/// [`validate_tool_text`].
pub fn messages_contain_image_special_token(messages: &Vec<MessagesMessage>, system: Option<&MessagesTextOrTextBlocks>) -> (r: bool)
    ensures
        r == input_has_token(messages@, match system { Some(s) => Some(*s), None => None }),
{
    let mut i: usize = 0;
    while i < messages.len()
        invariant
            i <= messages@.len(),
            forall|k: int| 0 <= k < i ==> !message_has_token(#[trigger] messages@[k]),
        decreases messages@.len() - i,
    {
        let found = match &messages[i] {
            MessagesMessage::User(c) => content_contains_image_special_token(c),
            MessagesMessage::Assistant(c) => content_contains_image_special_token(c),
            MessagesMessage::System(c) => text_or_text_blocks_contain_image_special_token(c),
        };
        if found {
            assert(message_has_token(messages@[i as int]));
            return true;
        }
        i += 1;
    }
    match system {
        Some(s) => text_or_text_blocks_contain_image_special_token(s),
        None => false,
    }
}

// ---------------------------------------------------------------------------
// Messages

/// The path of message `i`.
pub open spec fn message_path(i: int) -> Seq<char> {
    "messages."@ + decimal(i as nat)
}

/// The path of block `b` of message `i`.
pub open spec fn block_path(i: int, b: int) -> Seq<char> {
    message_path(i) + ".content["@ + decimal(b as nat) + "]"@
}

/// The error of tool uses left without results, after `prefix`: the ids in
/// sorted order.
pub open spec fn unresolved_detail(prefix: Seq<char>, pending: Seq<Seq<char>>) -> Seq<char> {
    prefix + "`tool_use` ids were found without `tool_result` blocks immediately after: "@ + join(
        crate::text::sort_strs(pending),
        ", "@,
    ) + ". Each `tool_use` block must have a corresponding `tool_result` block in the next message."@
}

/// The prefix of the error of a message that comes while tool uses wait for
/// their results.
pub open spec fn waiting_prefix(i: int) -> Seq<char> {
    message_path(i) + ": "@
}

/// The prefix of the error of tool uses that the next message left without
/// results.
pub open spec fn left_prefix(i: int) -> Seq<char> {
    message_path(i) + ":"@
}

/// The state of an assistant message being converted.
pub struct AssistantState {
    pub content: Seq<char>,
    pub reasoning: Option<Seq<char>>,
    pub calls: Option<Seq<ToolCallView>>,
    pub pending: Seq<Seq<char>>,
}

/// The assistant state after block `b` of message `i`, or the block's error.
pub open spec fn assistant_block_step(
    i: int,
    b: int,
    block: MessagesContentBlock,
    st: AssistantState,
    web: WebSearchBehavior,
) -> Result<AssistantState, Seq<char>> {
    match block {
        MessagesContentBlock::Unsupported => Err("Unsupported content block"@),
        MessagesContentBlock::Text { .. }
        | MessagesContentBlock::ToolReference { .. }
        | MessagesContentBlock::Image { .. }
        | MessagesContentBlock::Document => if st.calls is Some {
            Err(unresolved_detail(message_path(i) + "."@ + decimal(b as nat) + ": "@, st.pending))
        } else {
            match block_text_spec(block, block_path(i, b), "assistant"@) {
                Err(e) => Err(e),
                Ok(t) => Ok(
                    AssistantState {
                        content: if st.content.len() == 0 { t } else { st.content + "\n\n"@ + t },
                        ..st
                    },
                ),
            }
        },
        MessagesContentBlock::ToolUse { id, name, input } => if st.pending.contains(id@) {
            Err(message_path(i) + ".content."@ + decimal(b as nat) + ": `tool_use` ids must be unique"@)
        } else {
            Ok(
                AssistantState {
                    calls: Some(
                        match st.calls {
                            Some(c) => c,
                            None => Seq::empty(),
                        }.push(ToolCallView { id: id@, name: name@, arguments: crate::json::json_text(json_view(input), true) }),
                    ),
                    pending: st.pending.push(id@),
                    ..st
                },
            )
        },
        MessagesContentBlock::ToolResult { .. } => Err(message_path(i) + ": `tool_result` blocks can only be in `user` messages"@),
        MessagesContentBlock::Thinking { thinking, .. } => Ok(
            AssistantState {
                reasoning: Some(
                    match st.reasoning {
                        Some(r) => r + "\n\n"@ + thinking@,
                        None => thinking@,
                    },
                ),
                ..st
            },
        ),
        MessagesContentBlock::ServerToolUse { .. } | MessagesContentBlock::WebSearchToolResult { .. } => if web
            == WebSearchBehavior::Reject {
            Err("Unsupported content block: server tools are not supported"@)
        } else {
            Ok(st)
        },
    }
}

/// The assistant state after the first `n` blocks of message `i`, or the
/// first error.
pub open spec fn assistant_blocks_spec(
    i: int,
    blocks: Seq<MessagesContentBlock>,
    n: int,
    st: AssistantState,
    web: WebSearchBehavior,
) -> Result<AssistantState, Seq<char>>
    decreases n,
{
    if n <= 0 {
        Ok(st)
    } else {
        match assistant_blocks_spec(i, blocks, n - 1, st, web) {
            Err(e) => Err(e),
            Ok(s) => assistant_block_step(i, n - 1, blocks[n - 1], s, web),
        }
    }
}

/// The state of a user message being converted: the converted messages,
/// the tool uses waiting for results, and the ids answered in the message.
pub struct UserState {
    pub out: Seq<MessageView>,
    pub pending: Seq<Seq<char>>,
    pub matched: Seq<Seq<char>>,
}

/// Whether a string differs from `id`.
pub open spec fn other_than(id: Seq<char>) -> spec_fn(Seq<char>) -> bool {
    |x: Seq<char>| x != id
}

/// The user state after block `b` of message `i`, or the block's error.
pub open spec fn user_block_step(i: int, b: int, block: MessagesContentBlock, st: UserState) -> Result<UserState, Seq<char>> {
    let waiting = st.pending.len() > 0;
    let waiting_err = unresolved_detail(waiting_prefix(i), st.pending);
    match block {
        MessagesContentBlock::Unsupported => Err("Unsupported content block"@),
        MessagesContentBlock::Text { .. } | MessagesContentBlock::ToolReference { .. } => if waiting {
            Err(waiting_err)
        } else {
            match block_text_spec(block, block_path(i, b), "user"@) {
                Err(e) => Err(e),
                Ok(t) => Ok(UserState { out: st.out.push(MessageView::User { content: t, image_sources: Seq::empty() }), ..st }),
            }
        },
        MessagesContentBlock::Image { source } => if waiting {
            Err(waiting_err)
        } else {
            match image_source_spec(source, block_path(i, b)) {
                Err(e) => Err(e),
                Ok(s) => Ok(
                    UserState {
                        out: st.out.push(MessageView::User { content: IMAGE_SPECIAL_TOKEN@, image_sources: seq![s] }),
                        ..st
                    },
                ),
            }
        },
        MessagesContentBlock::Document => if waiting {
            Err(waiting_err)
        } else {
            Ok(
                UserState {
                    out: st.out.push(
                        MessageView::User { content: UNSUPPORTED_DOCUMENT_PLACEHOLDER@, image_sources: Seq::empty() },
                    ),
                    ..st
                },
            )
        },
        MessagesContentBlock::ToolUse { .. } => Err(message_path(i) + ": `tool_use` blocks can only be in `assistant` messages"@),
        MessagesContentBlock::ToolResult { tool_use_id, content, .. } => {
            let id = tool_use_id@;
            if st.matched.contains(id) {
                Err(
                    message_path(i) + ".content."@ + decimal(b as nat)
                        + ": each tool_use must have a single result. Found multiple `tool_result` blocks with id: "@ + id,
                )
            } else if !st.pending.contains(id) {
                Err(
                    "unexpected `"@ + message_path(i) + ".content."@ + decimal(b as nat)
                        + ": tool_use_id` found in `tool_result` blocks: "@ + id
                        + ". Each `tool_result` block must have a corresponding `tool_use` block in the previous message."@,
                )
            } else {
                let res = match content {
                    Some(c) => text_content_spec(c, block_path(i, b)),
                    None => Ok((Seq::empty(), Seq::empty())),
                };
                match res {
                    Err(e) => Err(e),
                    Ok((t, imgs)) => Ok(
                        UserState {
                            out: st.out.push(MessageView::Tool { content: t, image_sources: imgs, tool_call_id: id }),
                            pending: st.pending.filter(other_than(id)),
                            matched: st.matched.push(id),
                        },
                    ),
                }
            }
        },
        MessagesContentBlock::Thinking { .. } => Err(
            message_path(i) + ".content: thinking blocks may only be in `assistant` messages"@,
        ),
        MessagesContentBlock::ServerToolUse { .. } => Err(
            message_path(i) + ": `server_tool_use` blocks can only be in `assistant` messages"@,
        ),
        MessagesContentBlock::WebSearchToolResult { .. } => Err(
            message_path(i) + ": `web_search_tool_result` blocks can only be in `assistant` messages"@,
        ),
    }
}

/// The user state after the first `n` blocks of message `i`, or the first
/// error.
pub open spec fn user_blocks_spec(i: int, blocks: Seq<MessagesContentBlock>, n: int, st: UserState) -> Result<UserState, Seq<char>>
    decreases n,
{
    if n <= 0 {
        Ok(st)
    } else {
        match user_blocks_spec(i, blocks, n - 1, st) {
            Err(e) => Err(e),
            Ok(s) => user_block_step(i, n - 1, blocks[n - 1], s),
        }
    }
}

/// The converted messages and waiting tool uses after message `i`, or its
/// error.
#[verifier::opaque]
pub open spec fn message_step(
    i: int,
    m: MessagesMessage,
    out: Seq<MessageView>,
    pending: Seq<Seq<char>>,
    web: WebSearchBehavior,
) -> Result<(Seq<MessageView>, Seq<Seq<char>>), Seq<char>> {
    let waiting = pending.len() > 0;
    let waiting_err = unresolved_detail(waiting_prefix(i), pending);
    match m {
        MessagesMessage::User(MessagesContent::Raw(c)) => if waiting {
            Err(waiting_err)
        } else {
            Ok((out.push(MessageView::User { content: c@, image_sources: Seq::empty() }), pending))
        },
        MessagesMessage::Assistant(MessagesContent::Raw(c)) => if waiting {
            Err(waiting_err)
        } else {
            Ok((out.push(MessageView::Assistant { content: c@, reasoning_content: None, tool_calls: None }), pending))
        },
        MessagesMessage::System(content) => if waiting {
            Err(waiting_err)
        } else {
            match text_content_spec(content, message_path(i)) {
                Err(e) => Err(e),
                Ok((c, imgs)) => Ok(
                    (
                        out.push(
                            MessageView::User {
                                content: "<system-reminder>\n"@ + c + "\n</system-reminder>"@,
                                image_sources: imgs,
                            },
                        ),
                        pending,
                    ),
                ),
            }
        },
        MessagesMessage::User(MessagesContent::Blocks(blocks)) => if blocks@.len() == 0 {
            Err(message_path(i) + ": all messages must have non-empty content"@)
        } else {
            match user_blocks_spec(i, blocks@, blocks@.len() as int, UserState { out, pending, matched: Seq::empty() }) {
                Err(e) => Err(e),
                Ok(s) => if s.pending.len() > 0 {
                    Err(unresolved_detail(left_prefix(i - 1), s.pending))
                } else {
                    Ok((s.out, s.pending))
                },
            }
        },
        MessagesMessage::Assistant(MessagesContent::Blocks(blocks)) => if waiting {
            Err(waiting_err)
        } else if blocks@.len() == 0 {
            Err(message_path(i) + ": all messages must have non-empty content"@)
        } else {
            match assistant_blocks_spec(
                i,
                blocks@,
                blocks@.len() as int,
                AssistantState { content: Seq::empty(), reasoning: None, calls: None, pending },
                web,
            ) {
                Err(e) => Err(e),
                Ok(s) => Ok(
                    (
                        out.push(MessageView::Assistant { content: s.content, reasoning_content: s.reasoning, tool_calls: s.calls }),
                        s.pending,
                    ),
                ),
            }
        },
    }
}

/// The converted messages and waiting tool uses after the first `n`
/// messages, or the first error.
pub open spec fn messages_spec(
    msgs: Seq<MessagesMessage>,
    n: int,
    out: Seq<MessageView>,
    web: WebSearchBehavior,
) -> Result<(Seq<MessageView>, Seq<Seq<char>>), Seq<char>>
    decreases n,
{
    if n <= 0 {
        Ok((out, Seq::empty()))
    } else {
        match messages_spec(msgs, n - 1, out, web) {
            Err(e) => Err(e),
            Ok((o, p)) => message_step(n - 1, msgs[n - 1], o, p, web),
        }
    }
}

/// The messages after all `n` messages, or the error of tool uses left
/// without results.
pub open spec fn finish_messages(r: Result<(Seq<MessageView>, Seq<Seq<char>>), Seq<char>>, n: int) -> Result<Seq<MessageView>, Seq<char>> {
    match r {
        Err(e) => Err(e),
        Ok((out, pending)) => if pending.len() > 0 {
            Err(unresolved_detail(left_prefix(n - 1), pending))
        } else {
            Ok(out)
        },
    }
}

/// The conversation messages of a request, or its first error.
pub open spec fn transform_spec(
    msgs: Seq<MessagesMessage>,
    system: Option<MessagesTextOrTextBlocks>,
    web: WebSearchBehavior,
) -> Result<Seq<MessageView>, Seq<char>> {
    if msgs.len() == 0 {
        Err("messages: at least one message is required"@)
    } else if input_has_token(msgs, system) {
        Err(crate::validation::image_token_detail())
    } else {
        let start = match system {
            Some(s) => match text_only_spec(s, "system"@, "system"@) {
                Err(e) => Err(e),
                Ok(t) => Ok(seq![MessageView::System { content: t }]),
            },
            None => Ok(Seq::empty()),
        };
        match start {
            Err(e) => Err(e),
            Ok(out0) => finish_messages(messages_spec(msgs, msgs.len() as int, out0, web), msgs.len() as int),
        }
    }
}

/// Once a user block fails, the blocks that follow keep its error.
proof fn lemma_user_blocks_err(i: int, blocks: Seq<MessagesContentBlock>, n: int, m: int, st: UserState)
    requires
        0 <= n <= m,
        user_blocks_spec(i, blocks, n, st) is Err,
    ensures
        user_blocks_spec(i, blocks, m, st) == user_blocks_spec(i, blocks, n, st),
    decreases m - n,
{
    if n < m {
        lemma_user_blocks_err(i, blocks, n, m - 1, st);
    }
}

/// User blocks only resolve waiting tool uses.
proof fn lemma_user_pending_shrinks(i: int, blocks: Seq<MessagesContentBlock>, n: int, st: UserState)
    ensures
        user_blocks_spec(i, blocks, n, st) matches Ok(s) ==> s.pending.len() <= st.pending.len(),
    decreases n,
{
    if n > 0 {
        lemma_user_pending_shrinks(i, blocks, n - 1, st);
        if let Ok(s) = user_blocks_spec(i, blocks, n - 1, st) {
            if let MessagesContentBlock::ToolResult { tool_use_id, .. } = blocks[n - 1] {
                s.pending.lemma_filter_len(other_than(tool_use_id@));
            }
        }
    }
}

/// Once an assistant block fails, the blocks that follow keep its error.
proof fn lemma_assistant_blocks_err(
    i: int,
    blocks: Seq<MessagesContentBlock>,
    n: int,
    m: int,
    st: AssistantState,
    web: WebSearchBehavior,
)
    requires
        0 <= n <= m,
        assistant_blocks_spec(i, blocks, n, st, web) is Err,
    ensures
        assistant_blocks_spec(i, blocks, m, st, web) == assistant_blocks_spec(i, blocks, n, st, web),
    decreases m - n,
{
    if n < m {
        lemma_assistant_blocks_err(i, blocks, n, m - 1, st, web);
    }
}

/// Once a message fails, the messages that follow keep its error.
proof fn lemma_messages_err(msgs: Seq<MessagesMessage>, n: int, m: int, out: Seq<MessageView>, web: WebSearchBehavior)
    requires
        0 <= n <= m,
        messages_spec(msgs, n, out, web) is Err,
    ensures
        messages_spec(msgs, m, out, web) == messages_spec(msgs, n, out, web),
    decreases m - n,
{
    if n < m {
        lemma_messages_err(msgs, n, m - 1, out, web);
    }
}

/// Returns the path of message `i`.
fn message_path_exec(i: usize) -> (r: String)
    ensures
        r@ == message_path(i as int),
{
    let d = decimal_chars(i);
    let mut out: Vec<char> = Vec::new();
    append_str(&mut out, "messages.");
    append_chars(&mut out, d.as_slice());
    assert(out@ =~= message_path(i as int));
    string_of(out.as_slice())
}

/// Returns the path of block `b` of message `i`.
fn block_path_exec(i: usize, b: usize) -> (r: String)
    ensures
        r@ == block_path(i as int, b as int),
{
    let mp = message_path_exec(i);
    let d = decimal_chars(b);
    let mut out: Vec<char> = Vec::new();
    append_str(&mut out, mp.as_str());
    append_str(&mut out, ".content[");
    append_chars(&mut out, d.as_slice());
    append_str(&mut out, "]");
    assert(out@ =~= block_path(i as int, b as int));
    string_of(out.as_slice())
}

/// Returns the path of message `i` followed by `middle`, the decimal text
/// of `b` and `suffix`.
fn numbered_text(i: usize, middle: &str, b: usize, suffix: &str) -> (r: String)
    ensures
        r@ == message_path(i as int) + middle@ + decimal(b as nat) + suffix@,
{
    let mp = message_path_exec(i);
    let d = decimal_chars(b);
    let mut out: Vec<char> = Vec::new();
    append_str(&mut out, mp.as_str());
    append_str(&mut out, middle);
    append_chars(&mut out, d.as_slice());
    append_str(&mut out, suffix);
    assert(out@ =~= message_path(i as int) + middle@ + decimal(b as nat) + suffix@);
    string_of(out.as_slice())
}

/// Returns the error of tool uses left without results, after `prefix`.
fn unresolved_error(prefix: &str, pending: &Vec<String>) -> (r: ConversionError)
    ensures
        bad_request_with(r, unresolved_detail(prefix@, strings_view(pending@))),
{
    let sorted = crate::text::sorted_strings(pending);
    let ids = crate::text::join_strings(&sorted, ", ");
    let mut out: Vec<char> = Vec::new();
    append_str(&mut out, prefix);
    append_str(&mut out, "`tool_use` ids were found without `tool_result` blocks immediately after: ");
    append_str(&mut out, ids.as_str());
    append_str(&mut out, ". Each `tool_use` block must have a corresponding `tool_result` block in the next message.");
    assert(out@ =~= unresolved_detail(prefix@, strings_view(pending@)));
    ConversionError::bad_request(string_of(out.as_slice()))
}

/// Returns the error of a message that comes while tool uses wait for their
/// results.
fn waiting_error(i: usize, pending: &Vec<String>) -> (r: ConversionError)
    ensures
        bad_request_with(r, unresolved_detail(waiting_prefix(i as int), strings_view(pending@))),
{
    let mp = message_path_exec(i);
    let prefix = concat(mp.as_str(), ": ");
    unresolved_error(prefix.as_str(), pending)
}

/// Returns the error of tool uses that the message after message `i` left
/// without results.
fn left_error(i: usize, pending: &Vec<String>) -> (r: ConversionError)
    ensures
        bad_request_with(r, unresolved_detail(left_prefix(i as int), strings_view(pending@))),
{
    let mp = message_path_exec(i);
    let prefix = concat(mp.as_str(), ":");
    unresolved_error(prefix.as_str(), pending)
}

/// Returns the strings of `v` other than `id`.
fn without(v: &Vec<String>, id: &str) -> (r: Vec<String>)
    ensures
        strings_view(r@) == strings_view(v@).filter(other_than(id@)),
{
    let ghost sv = strings_view(v@);
    let mut out: Vec<String> = Vec::new();
    let mut k: usize = 0;
    assert(strings_view(out@) =~= sv.take(0).filter(other_than(id@))) by {
        reveal(Seq::filter);
    }
    while k < v.len()
        invariant
            k <= v@.len(),
            sv == strings_view(v@),
            strings_view(out@) == sv.take(k as int).filter(other_than(id@)),
        decreases v@.len() - k,
    {
        let ghost before = strings_view(out@);
        proof {
            reveal(Seq::filter);
            assert(sv.take(k + 1).drop_last() =~= sv.take(k as int));
        }
        if !crate::text::str_eq(v[k].as_str(), id) {
            out.push(v[k].clone());
            assert(strings_view(out@) =~= before.push(sv[k as int]));
        }
        k += 1;
    }
    assert(sv.take(v@.len() as int) =~= sv);
    out
}

/// The value of a user state.
pub open spec fn user_state(out: Seq<InputMessage>, pending: Seq<String>, matched: Seq<String>) -> UserState {
    UserState { out: messages_view(out), pending: strings_view(pending), matched: strings_view(matched) }
}

#[verifier::rlimit(50)]
/// Convert block `b` of the user message `i`, appending to `out`,
/// resolving a waiting tool use in `pending` and recording answered ids in
/// `matched`.
fn convert_user_block(
    i: usize,
    b: usize,
    block: &MessagesContentBlock,
    out: &mut Vec<InputMessage>,
    pending: &mut Vec<String>,
    matched: &mut Vec<String>,
) -> (r: Result<(), ConversionError>)
    ensures
        match user_block_step(i as int, b as int, *block, user_state(old(out)@, old(pending)@, old(matched)@)) {
            Err(d) => fails_with(r, d),
            Ok(s) => r is Ok && user_state(final(out)@, final(pending)@, final(matched)@) == s,
        },
{
    let ghost st = user_state(out@, pending@, matched@);
    let path = block_path_exec(i, b);
    match block {
        MessagesContentBlock::Unsupported => {
            return Err(unsupported_block());
        },
        MessagesContentBlock::Text { .. } | MessagesContentBlock::ToolReference { .. } => {
            if pending.len() > 0 {
                return Err(waiting_error(i, pending));
            }
            match block.into_text(path.as_str(), "user") {
                Err(e) => {
                    return Err(e);
                },
                Ok(content) => {
                    let images: Vec<ImageSource> = Vec::new();
                    assert(sources_view(images@) =~= Seq::<ImageSourceView>::empty());
                    out.push(InputMessage::User { content, image_sources: images });
                    assert(messages_view(out@) =~= st.out.push(out@[out@.len() - 1]@));
                },
            }
        },
        MessagesContentBlock::Image { source } => {
            if pending.len() > 0 {
                return Err(waiting_error(i, pending));
            }
            match image_source(source, path.as_str()) {
                Err(e) => {
                    return Err(e);
                },
                Ok(src) => {
                    let (content, images) = image_only(src);
                    out.push(InputMessage::User { content, image_sources: images });
                    assert(messages_view(out@) =~= st.out.push(out@[out@.len() - 1]@));
                },
            }
        },
        MessagesContentBlock::Document => {
            if pending.len() > 0 {
                return Err(waiting_error(i, pending));
            }
            let (content, images) = text_only(UNSUPPORTED_DOCUMENT_PLACEHOLDER.to_string());
            out.push(InputMessage::User { content, image_sources: images });
            assert(messages_view(out@) =~= st.out.push(out@[out@.len() - 1]@));
        },
        MessagesContentBlock::ToolUse { .. } => {
            let mp = message_path_exec(i);
            return Err(ConversionError::bad_request(concat(mp.as_str(), ": `tool_use` blocks can only be in `assistant` messages")));
        },
        MessagesContentBlock::ToolResult { tool_use_id, content, .. } => {
            if crate::text::strings_contain(&matched, tool_use_id.as_str()) {
                let head = numbered_text(i, ".content.", b, ": each tool_use must have a single result. Found multiple `tool_result` blocks with id: ");
                return Err(ConversionError::bad_request(concat(head.as_str(), tool_use_id.as_str())));
            }
            if !crate::text::strings_contain(pending, tool_use_id.as_str()) {
                let head = numbered_text(i, ".content.", b, ": tool_use_id` found in `tool_result` blocks: ");
                let mut text: Vec<char> = Vec::new();
                append_str(&mut text, "unexpected `");
                append_str(&mut text, head.as_str());
                append_str(&mut text, tool_use_id.as_str());
                append_str(&mut text, ". Each `tool_result` block must have a corresponding `tool_use` block in the previous message.");
                assert(text@ =~= "unexpected `"@ + message_path(i as int) + ".content."@ + decimal(b as nat)
                    + ": tool_use_id` found in `tool_result` blocks: "@ + tool_use_id@
                    + ". Each `tool_result` block must have a corresponding `tool_use` block in the previous message."@);
                return Err(ConversionError::bad_request(string_of(text.as_slice())));
            }
            let converted = match content {
                Some(c) => c.into_content(path.as_str()),
                None => Ok(text_only(String::new())),
            };
            match converted {
                Err(e) => {
                    return Err(e);
                },
                Ok((text, images)) => {
                    let rest = without(pending, tool_use_id.as_str());
                    *pending = rest;
                    let ghost mv = strings_view(matched@);
                    matched.push(tool_use_id.clone());
                    assert(strings_view(matched@) =~= mv.push(tool_use_id@));
                    out.push(InputMessage::Tool { content: text, image_sources: images, tool_call_id: tool_use_id.clone() });
                    assert(messages_view(out@) =~= st.out.push(out@[out@.len() - 1]@));
                },
            }
        },
        MessagesContentBlock::Thinking { .. } => {
            let mp = message_path_exec(i);
            return Err(ConversionError::bad_request(concat(mp.as_str(), ".content: thinking blocks may only be in `assistant` messages")));
        },
        MessagesContentBlock::ServerToolUse { .. } => {
            let mp = message_path_exec(i);
            return Err(ConversionError::bad_request(concat(mp.as_str(), ": `server_tool_use` blocks can only be in `assistant` messages")));
        },
        MessagesContentBlock::WebSearchToolResult { .. } => {
            let mp = message_path_exec(i);
            return Err(ConversionError::bad_request(concat(mp.as_str(), ": `web_search_tool_result` blocks can only be in `assistant` messages")));
        },
    }
    Ok(())
}

/// Convert the blocks of the user message `i`, appending to `out` and
/// resolving waiting tool uses in `pending`.
fn convert_user_blocks(
    i: usize,
    blocks: &Vec<MessagesContentBlock>,
    out: &mut Vec<InputMessage>,
    pending: &mut Vec<String>,
) -> (r: Result<(), ConversionError>)
    ensures
        match user_blocks_spec(
            i as int,
            blocks@,
            blocks@.len() as int,
            UserState { out: messages_view(old(out)@), pending: strings_view(old(pending)@), matched: Seq::empty() },
        ) {
            Err(d) => fails_with(r, d),
            Ok(s) => r is Ok && messages_view(final(out)@) == s.out && strings_view(final(pending)@) == s.pending,
        },
{
    let ghost st0 = UserState { out: messages_view(out@), pending: strings_view(pending@), matched: Seq::empty() };
    let mut matched: Vec<String> = Vec::new();
    assert(strings_view(matched@) =~= Seq::<Seq<char>>::empty());
    let mut b: usize = 0;
    while b < blocks.len()
        invariant
            b <= blocks@.len(),
            st0 == (UserState { out: messages_view(old(out)@), pending: strings_view(old(pending)@), matched: Seq::empty() }),
            user_blocks_spec(i as int, blocks@, b as int, st0) == Ok::<UserState, Seq<char>>(user_state(out@, pending@, matched@)),
        decreases blocks@.len() - b,
    {
        if let Err(e) = convert_user_block(i, b, &blocks[b], out, pending, &mut matched) {
            proof {
                lemma_user_blocks_err(i as int, blocks@, b + 1, blocks@.len() as int, st0);
            }
            return Err(e);
        }
        b += 1;
    }
    Ok(())
}

/// The value of an assistant state.
pub open spec fn assistant_state(
    content: String,
    reasoning: Option<String>,
    calls: Option<Vec<ToolCall>>,
    pending: Seq<String>,
) -> AssistantState {
    AssistantState {
        content: content@,
        reasoning: opt_view(reasoning),
        calls: match calls {
            Some(c) => Some(crate::conversation::calls_view(c@)),
            None => None,
        },
        pending: strings_view(pending),
    }
}

/// The calls of an optional list of tool calls; none for no list.
pub open spec fn calls_or_empty(calls: Option<Vec<ToolCall>>) -> Seq<ToolCallView> {
    match calls {
        Some(c) => crate::conversation::calls_view(c@),
        None => Seq::empty(),
    }
}

/// Convert block `b` of the assistant message `i` into its state.
fn convert_assistant_block(
    i: usize,
    b: usize,
    block: &MessagesContentBlock,
    content: &mut String,
    reasoning: &mut Option<String>,
    calls: &mut Option<Vec<ToolCall>>,
    pending: &mut Vec<String>,
    web: WebSearchBehavior,
) -> (r: Result<(), ConversionError>)
    ensures
        match assistant_block_step(
            i as int,
            b as int,
            *block,
            assistant_state(*old(content), *old(reasoning), *old(calls), old(pending)@),
            web,
        ) {
            Err(d) => fails_with(r, d),
            Ok(s) => r is Ok && assistant_state(*final(content), *final(reasoning), *final(calls), final(pending)@) == s,
        },
{
    match block {
        MessagesContentBlock::Unsupported => Err(unsupported_block()),
        MessagesContentBlock::Text { .. }
        | MessagesContentBlock::ToolReference { .. }
        | MessagesContentBlock::Image { .. }
        | MessagesContentBlock::Document => {
            if calls.is_some() {
                let head = numbered_text(i, ".", b, ": ");
                return Err(unresolved_error(head.as_str(), pending));
            }
            let path = block_path_exec(i, b);
            match block.into_text(path.as_str(), "assistant") {
                Err(e) => Err(e),
                Ok(t) => {
                    if content.as_str().is_empty() {
                        *content = t;
                    } else {
                        let joined = crate::validation::concat3(content.as_str(), "\n\n", t.as_str());
                        *content = joined;
                    }
                    Ok(())
                },
            }
        },
        MessagesContentBlock::ToolUse { id, name, input } => {
            let ghost before = calls_or_empty(*calls);
            let mut list = match calls.take() {
                Some(c) => c,
                None => Vec::new(),
            };
            assert(crate::conversation::calls_view(list@) =~= before);
            list.push(ToolCall { id: id.clone(), name: name.clone(), arguments: stringify_python_style(input) });
            assert(crate::conversation::calls_view(list@) =~= before.push(list@[list@.len() - 1]@));
            *calls = Some(list);
            if crate::text::strings_contain(pending, id.as_str()) {
                let text = numbered_text(i, ".content.", b, ": `tool_use` ids must be unique");
                return Err(ConversionError::bad_request(text));
            }
            let ghost pv = strings_view(pending@);
            pending.push(id.clone());
            assert(strings_view(pending@) =~= pv.push(id@));
            Ok(())
        },
        MessagesContentBlock::ToolResult { .. } => {
            let mp = message_path_exec(i);
            Err(ConversionError::bad_request(concat(mp.as_str(), ": `tool_result` blocks can only be in `user` messages")))
        },
        MessagesContentBlock::Thinking { thinking, .. } => {
            let next = match reasoning {
                Some(r) => crate::validation::concat3(r.as_str(), "\n\n", thinking.as_str()),
                None => thinking.clone(),
            };
            *reasoning = Some(next);
            Ok(())
        },
        MessagesContentBlock::ServerToolUse { .. } | MessagesContentBlock::WebSearchToolResult { .. } => {
            if web == WebSearchBehavior::Reject {
                return Err(ConversionError::bad_request("Unsupported content block: server tools are not supported".to_string()));
            }
            Ok(())
        },
    }
}

/// Convert the blocks of the assistant message `i` into one message.
fn convert_assistant_blocks(
    i: usize,
    blocks: &Vec<MessagesContentBlock>,
    pending: &mut Vec<String>,
    web: WebSearchBehavior,
) -> (r: Result<InputMessage, ConversionError>)
    ensures
        match assistant_blocks_spec(
            i as int,
            blocks@,
            blocks@.len() as int,
            AssistantState { content: Seq::empty(), reasoning: None, calls: None, pending: strings_view(old(pending)@) },
            web,
        ) {
            Err(d) => fails_with(r, d),
            Ok(s) => r matches Ok(m) && m@ == (MessageView::Assistant {
                content: s.content,
                reasoning_content: s.reasoning,
                tool_calls: s.calls,
            }) && strings_view(final(pending)@) == s.pending,
        },
{
    let ghost st0 = AssistantState { content: Seq::empty(), reasoning: None, calls: None, pending: strings_view(pending@) };
    let mut content = String::new();
    let mut reasoning: Option<String> = None;
    let mut calls: Option<Vec<ToolCall>> = None;
    let mut b: usize = 0;
    while b < blocks.len()
        invariant
            b <= blocks@.len(),
            st0 == (AssistantState { content: Seq::empty(), reasoning: None, calls: None, pending: strings_view(old(pending)@) }),
            assistant_blocks_spec(i as int, blocks@, b as int, st0, web) == Ok::<AssistantState, Seq<char>>(
                assistant_state(content, reasoning, calls, pending@),
            ),
        decreases blocks@.len() - b,
    {
        if let Err(e) = convert_assistant_block(i, b, &blocks[b], &mut content, &mut reasoning, &mut calls, pending, web) {
            proof {
                lemma_assistant_blocks_err(i as int, blocks@, b + 1, blocks@.len() as int, st0, web);
            }
            return Err(e);
        }
        b += 1;
    }
    Ok(InputMessage::Assistant { content, reasoning_content: reasoning, tool_calls: calls })
}

/// Convert message `i`, appending to `out` and tracking waiting tool uses
/// in `pending`.
fn convert_message(
    i: usize,
    message: &MessagesMessage,
    out: &mut Vec<InputMessage>,
    pending: &mut Vec<String>,
    web: WebSearchBehavior,
) -> (r: Result<(), ConversionError>)
    requires
        i == 0 ==> old(pending)@.len() == 0,
    ensures
        match message_step(i as int, *message, messages_view(old(out)@), strings_view(old(pending)@), web) {
            Err(d) => fails_with(r, d),
            Ok((o, p)) => r is Ok && messages_view(final(out)@) == o && strings_view(final(pending)@) == p,
        },
{
    reveal(message_step);
    let ghost before = messages_view(out@);
    match message {
        MessagesMessage::User(MessagesContent::Raw(c)) => {
            if pending.len() > 0 {
                return Err(waiting_error(i, pending));
            }
            let (content, images) = text_only(c.clone());
            out.push(InputMessage::User { content, image_sources: images });
            assert(messages_view(out@) =~= before.push(out@[out@.len() - 1]@));
            Ok(())
        },
        MessagesMessage::Assistant(MessagesContent::Raw(c)) => {
            if pending.len() > 0 {
                return Err(waiting_error(i, pending));
            }
            out.push(InputMessage::Assistant { content: c.clone(), reasoning_content: None, tool_calls: None });
            assert(messages_view(out@) =~= before.push(out@[out@.len() - 1]@));
            Ok(())
        },
        MessagesMessage::System(content) => {
            if pending.len() > 0 {
                return Err(waiting_error(i, pending));
            }
            let mp = message_path_exec(i);
            match content.into_content(mp.as_str()) {
                Err(e) => Err(e),
                Ok((text, images)) => {
                    let wrapped = crate::validation::concat3("<system-reminder>\n", text.as_str(), "\n</system-reminder>");
                    out.push(InputMessage::User { content: wrapped, image_sources: images });
                    assert(messages_view(out@) =~= before.push(out@[out@.len() - 1]@));
                    Ok(())
                },
            }
        },
        MessagesMessage::User(MessagesContent::Blocks(blocks)) => {
            if blocks.len() == 0 {
                let mp = message_path_exec(i);
                return Err(ConversionError::bad_request(concat(mp.as_str(), ": all messages must have non-empty content")));
            }
            let ghost st0 = UserState { out: messages_view(out@), pending: strings_view(pending@), matched: Seq::empty() };
            match convert_user_blocks(i, blocks, out, pending) {
                Err(e) => Err(e),
                Ok(()) => {
                    proof {
                        lemma_user_pending_shrinks(i as int, blocks@, blocks@.len() as int, st0);
                    }
                    if pending.len() > 0 {
                        return Err(left_error((i - 1) as usize, pending));
                    }
                    Ok(())
                },
            }
        },
        MessagesMessage::Assistant(MessagesContent::Blocks(blocks)) => {
            if pending.len() > 0 {
                return Err(waiting_error(i, pending));
            }
            if blocks.len() == 0 {
                let mp = message_path_exec(i);
                return Err(ConversionError::bad_request(concat(mp.as_str(), ": all messages must have non-empty content")));
            }
            match convert_assistant_blocks(i, blocks, pending, web) {
                Err(e) => Err(e),
                Ok(m) => {
                    out.push(m);
                    assert(messages_view(out@) =~= before.push(out@[out@.len() - 1]@));
                    Ok(())
                },
            }
        },
    }
}

/// Convert request messages and the top-level system text into
/// conversation messages.
#[verifier::rlimit(30)]
///
/// Every tool use of an assistant message must be answered by a tool result
/// in the next message.
pub fn transform_messages(
    messages: &Vec<MessagesMessage>,
    system: Option<&MessagesTextOrTextBlocks>,
    options: &ConversionOptions,
) -> (r: Result<Vec<InputMessage>, ConversionError>)
    ensures
        result_is(
            r,
            transform_spec(messages@, match system { Some(s) => Some(*s), None => None }, options.messages_web_search),
            |v: Vec<InputMessage>| messages_view(v@),
        ),
{
    let ghost sys = match system { Some(s) => Some(*s), None => None::<MessagesTextOrTextBlocks> };
    let web = options.messages_web_search;
    if messages.len() == 0 {
        return Err(ConversionError::bad_request("messages: at least one message is required".to_string()));
    }
    if messages_contain_image_special_token(messages, system) {
        return Err(image_special_token_not_allowed());
    }
    let mut out: Vec<InputMessage> = Vec::new();
    match system {
        Some(s) => match s.into_text("system", "system") {
            Err(e) => {
                return Err(e);
            },
            Ok(t) => {
                out.push(InputMessage::System { content: t });
                assert(messages_view(out@) =~= seq![out@[0]@]);
            },
        },
        None => {
            assert(messages_view(out@) =~= Seq::<MessageView>::empty());
        },
    }
    let ghost out0 = messages_view(out@);
    let mut pending: Vec<String> = Vec::new();
    assert(strings_view(pending@) =~= Seq::<Seq<char>>::empty());
    let n = messages.len();
    let mut i: usize = 0;
    while i < n
        invariant
            n == messages@.len(),
            n > 0,
            i <= n,
            !input_has_token(messages@, sys),
            transform_spec(messages@, sys, web) == finish_messages(messages_spec(messages@, n as int, out0, web), n as int),
            i == 0 ==> pending@.len() == 0,
            sys == match system { Some(s) => Some(*s), None => None::<MessagesTextOrTextBlocks> },
            web == options.messages_web_search,
            messages_spec(messages@, i as int, out0, web) == Ok::<(Seq<MessageView>, Seq<Seq<char>>), Seq<char>>(
                (messages_view(out@), strings_view(pending@)),
            ),
        decreases n - i,
    {
        if let Err(e) = convert_message(i, &messages[i], &mut out, &mut pending, web) {
            proof {
                lemma_messages_err(messages@, i + 1, n as int, out0, web);
            }
            return Err(e);
        }
        i += 1;
    }
    if pending.len() > 0 {
        return Err(left_error(n - 1, &pending));
    }
    Ok(out)
}

// ---------------------------------------------------------------------------
// Tools

/// The state of tool conversion: definitions, declared names, and the names
/// of dropped server tools.
pub struct ToolsState {
    pub defs: Seq<ToolDefinitionView>,
    pub names: Seq<Seq<char>>,
    pub ignored: Seq<Seq<char>>,
}

/// Whether a tool type names a web search server tool.
pub open spec fn is_web_search(kind: Seq<char>) -> bool {
    crate::text::occurs_at(kind, "web_search"@, 0)
}

/// The path of a field of tool `i`.
pub open spec fn tool_path(i: int, field: Seq<char>) -> Seq<char> {
    "tools."@ + decimal(i as nat) + field
}

/// The tool state after tool `i`, or its error: `Some` detail, or `None`
/// for a schema that does not compile.
pub open spec fn tool_step(i: int, tool: MessagesTool, st: ToolsState, web: WebSearchBehavior) -> Result<ToolsState, Option<Seq<char>>> {
    match tool.kind {
        Some(kind) => if is_web_search(kind@) && web == WebSearchBehavior::Ignore {
            Ok(ToolsState { ignored: st.ignored.push(tool.name@), ..st })
        } else {
            Err(Some(tool_path(i, ": server tools are not supported"@)))
        },
        None => if !crate::validation::valid_tool_name(tool.name@) {
            Err(Some(tool_path(i, ".name"@) + ": expected 1-128 ASCII letters, digits, underscores or hyphens"@))
        } else if st.names.contains(tool.name@) {
            Err(Some("Tool names must be unique"@))
        } else {
            match tool.input_schema {
                None => Err(Some(tool_path(i, ": missing input_schema"@))),
                Some(p) => if !is_object_schema(json_view(p)) {
                    Err(Some(tool_path(i, ".input_schema"@) + " must be a JSON Schema of type object"@))
                } else if !schema_compiles(json_view(p)) {
                    Err(None)
                } else {
                    Ok(
                        ToolsState {
                            defs: st.defs.push(
                                ToolDefinitionView {
                                    name: tool.name@,
                                    description: opt_view(tool.description),
                                    parameters: json_view(p),
                                    strict: None,
                                },
                            ),
                            names: st.names.push(tool.name@),
                            ..st
                        },
                    )
                },
            }
        },
    }
}

/// The tool state after the first `n` tools, or the first error.
pub open spec fn tools_state_spec(tools: Seq<MessagesTool>, n: int, web: WebSearchBehavior) -> Result<ToolsState, Option<Seq<char>>>
    decreases n,
{
    if n <= 0 {
        Ok(ToolsState { defs: Seq::empty(), names: Seq::empty(), ignored: Seq::empty() })
    } else {
        match tools_state_spec(tools, n - 1, web) {
            Err(e) => Err(e),
            Ok(s) => tool_step(n - 1, tools[n - 1], s, web),
        }
    }
}

/// Once a tool fails, the tools that follow keep its error.
proof fn lemma_tools_err(tools: Seq<MessagesTool>, n: int, m: int, web: WebSearchBehavior)
    requires
        0 <= n <= m,
        tools_state_spec(tools, n, web) is Err,
    ensures
        tools_state_spec(tools, m, web) == tools_state_spec(tools, n, web),
    decreases m - n,
{
    if n < m {
        lemma_tools_err(tools, n, m - 1, web);
    }
}

/// The definitions named `name`.
pub open spec fn named(defs: Seq<ToolDefinitionView>, name: Seq<char>) -> Seq<ToolDefinitionView> {
    defs.filter(|t: ToolDefinitionView| t.name == name)
}

/// The tool definitions and tool choice of a request, or its first error.
pub open spec fn tools_spec(
    tools: Seq<MessagesTool>,
    choice: Option<MessagesToolChoice>,
    thinking: bool,
    web: WebSearchBehavior,
) -> Result<(Seq<ToolDefinitionView>, ToolChoice), Option<Seq<char>>> {
    match tools_state_spec(tools, tools.len() as int, web) {
        Err(e) => Err(e),
        Ok(s) => match choice {
            Some(MessagesToolChoice::Disabled) => Ok((Seq::empty(), ToolChoice::Disabled)),
            Some(MessagesToolChoice::Tool { name, .. }) => if s.ignored.contains(name@) {
                Ok((s.defs, ToolChoice::Auto))
            } else if !s.names.contains(name@) {
                Err(Some("tool_choice: no tool named '"@ + name@ + "' was specified"@))
            } else if thinking {
                Err(Some("Thinking mode does not support this tool_choice"@))
            } else {
                Ok((named(s.defs, name@), ToolChoice::Required))
            },
            _ => Ok((s.defs, ToolChoice::Auto)),
        },
    }
}

/// Returns the path of a field of tool `i`.
fn tool_path_exec(i: usize, field: &str) -> (r: String)
    ensures
        r@ == tool_path(i as int, field@),
{
    let d = decimal_chars(i);
    let mut out: Vec<char> = Vec::new();
    append_str(&mut out, "tools.");
    append_chars(&mut out, d.as_slice());
    append_str(&mut out, field);
    assert(out@ =~= tool_path(i as int, field@));
    string_of(out.as_slice())
}

/// Returns whether a tool type names a web search server tool.
fn is_web_search_exec(kind: &str) -> (r: bool)
    ensures
        r == is_web_search(kind@),
{
    let k = crate::text::chars_of(kind);
    let w = crate::text::chars_of("web_search");
    crate::text::chars_occur_at(k.as_slice(), w.as_slice(), 0)
}

/// The value of a tool state.
pub open spec fn tools_state(defs: Seq<ToolDefinition>, names: Seq<String>, ignored: Seq<String>) -> ToolsState {
    ToolsState { defs: tools_view(defs), names: strings_view(names), ignored: strings_view(ignored) }
}

/// Convert tool `i` into the tool state.
fn convert_tool(
    i: usize,
    tool: &MessagesTool,
    defs: &mut Vec<ToolDefinition>,
    names: &mut Vec<String>,
    ignored: &mut Vec<String>,
    web: WebSearchBehavior,
) -> (r: Result<(), ConversionError>)
    ensures
        match tool_step(i as int, *tool, tools_state(old(defs)@, old(names)@, old(ignored)@), web) {
            Err(e) => outcome_is(r, Err::<(), Option<Seq<char>>>(e), |u: ()| u),
            Ok(s) => r is Ok && tools_state(final(defs)@, final(names)@, final(ignored)@) == s,
        },
{
    if let Some(kind) = &tool.kind {
        if is_web_search_exec(kind.as_str()) && web == WebSearchBehavior::Ignore {
            let ghost iv = strings_view(ignored@);
            ignored.push(tool.name.clone());
            assert(strings_view(ignored@) =~= iv.push(tool.name@));
            return Ok(());
        }
        let text = tool_path_exec(i, ": server tools are not supported");
        return Err(ConversionError::bad_request(text));
    }
    let name_path = tool_path_exec(i, ".name");
    if let Err(e) = validate_tool_name(tool.name.as_str(), name_path.as_str()) {
        return Err(e);
    }
    if crate::text::strings_contain(names, tool.name.as_str()) {
        return Err(ConversionError::bad_request("Tool names must be unique".to_string()));
    }
    let parameters = match &tool.input_schema {
        Some(p) => p,
        None => {
            let text = tool_path_exec(i, ": missing input_schema");
            return Err(ConversionError::bad_request(text));
        },
    };
    let schema_path = tool_path_exec(i, ".input_schema");
    if let Err(e) = validate_tool_parameters(parameters, schema_path.as_str()) {
        return Err(e);
    }
    let ghost dv = tools_view(defs@);
    let ghost nv = strings_view(names@);
    defs.push(ToolDefinition {
        name: tool.name.clone(),
        description: crate::conversation::duplicate_opt(&tool.description),
        parameters: crate::json::duplicate_json(parameters),
        strict: None,
    });
    names.push(tool.name.clone());
    assert(tools_view(defs@) =~= dv.push(defs@[defs@.len() - 1]@));
    assert(strings_view(names@) =~= nv.push(tool.name@));
    Ok(())
}

/// The value of converted tools.
pub open spec fn tools_pair_view(p: (Vec<ToolDefinition>, ToolChoice)) -> (Seq<ToolDefinitionView>, ToolChoice) {
    (tools_view(p.0@), p.1)
}

/// Convert tool declarations and the tool choice.
pub fn convert_tools(
    tools: &Option<Vec<MessagesTool>>,
    choice: &Option<MessagesToolChoice>,
    thinking: bool,
    options: &ConversionOptions,
) -> (r: Result<(Vec<ToolDefinition>, ToolChoice), ConversionError>)
    ensures
        outcome_is(
            r,
            tools_spec(
                match *tools { Some(v) => v@, None => Seq::empty() },
                *choice,
                thinking,
                options.messages_web_search,
            ),
            |p: (Vec<ToolDefinition>, ToolChoice)| tools_pair_view(p),
        ),
{
    let web = options.messages_web_search;
    let empty_tools: Vec<MessagesTool> = Vec::new();
    let list = match tools {
        Some(v) => v,
        None => &empty_tools,
    };
    let ghost ts = list@;
    let mut defs: Vec<ToolDefinition> = Vec::new();
    let mut names: Vec<String> = Vec::new();
    let mut ignored: Vec<String> = Vec::new();
    assert(tools_view(defs@) =~= Seq::<ToolDefinitionView>::empty());
    assert(strings_view(names@) =~= Seq::<Seq<char>>::empty());
    assert(strings_view(ignored@) =~= Seq::<Seq<char>>::empty());
    let n = list.len();
    let mut i: usize = 0;
    while i < n
        invariant
            n == ts.len(),
            ts == list@,
            ts == match *tools { Some(v) => v@, None => Seq::<MessagesTool>::empty() },
            web == options.messages_web_search,
            i <= n,
            tools_state_spec(ts, i as int, web) == Ok::<ToolsState, Option<Seq<char>>>(tools_state(defs@, names@, ignored@)),
        decreases n - i,
    {
        if let Err(e) = convert_tool(i, &list[i], &mut defs, &mut names, &mut ignored, web) {
            proof {
                lemma_tools_err(ts, i + 1, n as int, web);
            }
            return Err(e);
        }
        i += 1;
    }
    assert(ts == match *tools { Some(v) => v@, None => Seq::<MessagesTool>::empty() });
    match choice {
        Some(MessagesToolChoice::Disabled) => {
            let empty: Vec<ToolDefinition> = Vec::new();
            assert(tools_view(empty@) =~= Seq::<ToolDefinitionView>::empty());
            Ok((empty, ToolChoice::Disabled))
        },
        Some(MessagesToolChoice::Tool { name, .. }) => {
            if crate::text::strings_contain(&ignored, name.as_str()) {
                return Ok((defs, ToolChoice::Auto));
            }
            if !crate::text::strings_contain(&names, name.as_str()) {
                return Err(ConversionError::bad_request(crate::validation::concat3("tool_choice: no tool named '", name.as_str(), "' was specified")));
            }
            if thinking {
                return Err(ConversionError::bad_request("Thinking mode does not support this tool_choice".to_string()));
            }
            let ghost dv = tools_view(defs@);
            let mut kept: Vec<ToolDefinition> = Vec::new();
            let mut k: usize = 0;
            assert(tools_view(kept@) =~= named(dv.take(0), name@)) by {
                reveal(Seq::filter);
            }
            while k < defs.len()
                invariant
                    k <= defs@.len(),
                    dv == tools_view(defs@),
                    tools_view(kept@) == named(dv.take(k as int), name@),
                decreases defs@.len() - k,
            {
                let ghost before = kept@;
                proof {
                    reveal(Seq::filter);
                    assert(dv.take(k + 1).drop_last() =~= dv.take(k as int));
                }
                if crate::text::str_eq(defs[k].name.as_str(), name.as_str()) {
                    kept.push(defs[k].duplicate());
                    assert(tools_view(kept@) =~= tools_view(before).push(dv[k as int]));
                }
                k += 1;
            }
            assert(dv.take(defs@.len() as int) =~= dv);
            Ok((kept, ToolChoice::Required))
        },
        _ => Ok((defs, ToolChoice::Auto)),
    }
}

// ---------------------------------------------------------------------------
// Conversion

/// The protocol-independent effort of a requested effort.
pub open spec fn effort_of(e: MessagesReasoningEffort) -> ReasoningEffort {
    match e {
        MessagesReasoningEffort::Low => ReasoningEffort::Low,
        MessagesReasoningEffort::Medium | MessagesReasoningEffort::High => ReasoningEffort::High,
        MessagesReasoningEffort::Xhigh => ReasoningEffort::Xhigh,
        MessagesReasoningEffort::Ultra | MessagesReasoningEffort::Max => ReasoningEffort::Max,
    }
}

/// The requested effort of a request, if any.
pub open spec fn requested_effort(req: MessagesRequest) -> Option<ReasoningEffort> {
    match req.output_config {
        Some(c) => match c.effort {
            Some(e) => Some(effort_of(e)),
            None => None,
        },
        None => None,
    }
}

/// Whether a request enables thinking: the explicit setting, else a
/// requested effort or the adapter default.
pub open spec fn thinking_of(req: MessagesRequest, default_thinking: bool) -> bool {
    match req.thinking {
        Some(t) => t.kind == MessagesThinkingType::Enabled,
        None => requested_effort(req) is Some || default_thinking,
    }
}

/// Whether stop sequences are more than 16 or hold an empty string.
pub open spec fn bad_stops(stops: Seq<String>) -> bool {
    stops.len() > 16 || exists|i: int| 0 <= i < stops.len() && (#[trigger] stops[i])@.len() == 0
}

/// The parallel-tool-use setting of a tool choice.
pub open spec fn parallel_setting(choice: Option<MessagesToolChoice>) -> Option<bool> {
    match choice {
        Some(MessagesToolChoice::Auto { disable_parallel_tool_use }) => disable_parallel_tool_use,
        Some(MessagesToolChoice::Any { disable_parallel_tool_use }) => disable_parallel_tool_use,
        Some(MessagesToolChoice::Tool { disable_parallel_tool_use, .. }) => disable_parallel_tool_use,
        _ => None,
    }
}

/// The thinking budget of a request.
pub open spec fn budget_of(req: MessagesRequest) -> Option<u64> {
    match req.thinking {
        Some(t) => t.budget_tokens,
        None => None,
    }
}

/// The first failure of the inference settings of a request.
pub open spec fn inference_failure(req: MessagesRequest) -> Option<Failure> {
    if req.max_tokens == Some(0u32) {
        Some(Failure::Detail("max_tokens"@ + " must be greater than zero"@))
    } else if req.sampling_error is Some {
        Some(Failure::Error(req.sampling_error->0))
    } else if req.stop_sequences is Some && bad_stops(req.stop_sequences->0@) {
        Some(Failure::Detail("stop_sequences must contain at most 16 non-empty strings"@))
    } else {
        None
    }
}

/// The tool declarations of a request.
pub open spec fn request_tools(req: MessagesRequest) -> Seq<MessagesTool> {
    match req.tools {
        Some(v) => v@,
        None => Seq::empty(),
    }
}

/// The top-level system text of a request.
pub open spec fn request_system(req: MessagesRequest) -> Option<MessagesTextOrTextBlocks> {
    req.system
}

/// The first failure of the conversion of a request, if any: inference
/// settings, tools, messages, and the image placeholder in tools and tool
/// calls.
pub open spec fn convert_failure(req: MessagesRequest, options: ConversionOptions) -> Option<Failure> {
    let thinking = thinking_of(req, options.default_thinking_mode);
    if inference_failure(req) is Some {
        inference_failure(req)
    } else {
        match tools_spec(request_tools(req), req.tool_choice, thinking, options.messages_web_search) {
            Err(e) => Some(crate::validation::failure_of(e)),
            Ok((defs, _)) => match transform_spec(req.messages@, req.system, options.messages_web_search) {
                Err(d) => Some(Failure::Detail(d)),
                Ok(mv) => if crate::validation::tool_text_bad(defs, mv) {
                    Some(Failure::Detail(crate::validation::image_token_detail()))
                } else {
                    None
                },
            },
        }
    }
}

/// The conversation request of a request that converts.
pub open spec fn converted(req: MessagesRequest, options: ConversionOptions, out: ConversationRequest) -> bool {
    let thinking = thinking_of(req, options.default_thinking_mode);
    let tools = tools_spec(request_tools(req), req.tool_choice, thinking, options.messages_web_search)->Ok_0;
    let mv = transform_spec(req.messages@, req.system, options.messages_web_search)->Ok_0;
    &&& messages_view(out.conversation.messages@) == mv
    &&& out.conversation.thinking_mode == thinking
    &&& tools_view(out.conversation.tools@) == tools.0
    &&& out.conversation.tool_choice == tools.1
    &&& out.conversation.reasoning_effort == (if thinking {
        Some(
            match requested_effort(req) {
                Some(e) => e,
                None => ReasoningEffort::High,
            },
        )
    } else {
        None::<ReasoningEffort>
    })
    &&& out.conversation.response_format == ResponseFormat::Text
    &&& out.parsing_options.parse_tool_calls == (tools.0.len() > 0)
    &&& out.parsing_options.tool_call_initial_stage == (tools.1 == ToolChoice::Required)
    &&& !out.parsing_options.parse_json_output
    &&& out.parsing_options.reasoning_initial_stage == (if thinking { Some(ReasoningStage::Start) } else { None::<ReasoningStage> })
    &&& strings_view(out.parsing_options.stop_sequences@) == (match req.stop_sequences {
        Some(v) => strings_view(v@),
        None => Seq::empty(),
    })
    &&& out.max_tokens == req.max_tokens
    &&& out.thinking_budget_tokens == budget_of(req)
    &&& out.disable_parallel_tool_use == parallel_setting(req.tool_choice)
    &&& out.model matches Some(m) && m@ == req.model@
    &&& out.stream == (req.stream == Some(true))
}

impl MessagesRequest {
    /// The thinking mode and the reasoning effort of the request. Explicit
    /// thinking overrides effort, which overrides the supplied default.
    pub fn resolve_thinking(&self, options: ConversionOptions) -> (r: (bool, Option<ReasoningEffort>))
        ensures
            r.0 == thinking_of(*self, options.default_thinking_mode),
            r.1 == (if r.0 {
                Some(
                    match requested_effort(*self) {
                        Some(e) => e,
                        None => ReasoningEffort::High,
                    },
                )
            } else {
                None::<ReasoningEffort>
            }),
    {
        let effort = match self.output_config {
            Some(c) => match c.effort {
                Some(e) => Some(
                    match e {
                        MessagesReasoningEffort::Low => ReasoningEffort::Low,
                        MessagesReasoningEffort::Medium | MessagesReasoningEffort::High => ReasoningEffort::High,
                        MessagesReasoningEffort::Xhigh => ReasoningEffort::Xhigh,
                        MessagesReasoningEffort::Ultra | MessagesReasoningEffort::Max => ReasoningEffort::Max,
                    },
                ),
                None => None,
            },
            None => None,
        };
        let thinking = match self.thinking {
            Some(t) => t.kind == MessagesThinkingType::Enabled,
            None => effort.is_some() || options.default_thinking_mode,
        };
        let chosen = match effort {
            Some(e) => e,
            None => ReasoningEffort::High,
        };
        (thinking, if thinking { Some(chosen) } else { None })
    }

    /// Check `max_tokens`, the sampling range and the stop sequences.
    pub fn inference_options(&self) -> (r: Result<(), ConversionError>)
        ensures
            match inference_failure(*self) {
                Some(f) => fails_as(r, f),
                None => r is Ok,
            },
    {
        if let Err(e) = validate_max_tokens(self.max_tokens, "max_tokens") {
            return Err(e);
        }
        if let Some(e) = &self.sampling_error {
            return Err(e.duplicate());
        }
        if let Some(stops) = &self.stop_sequences {
            let mut bad = stops.len() > 16;
            let mut i: usize = 0;
            while i < stops.len()
                invariant
                    i <= stops@.len(),
                    bad == (stops@.len() > 16 || exists|k: int| 0 <= k < i && (#[trigger] stops@[k])@.len() == 0),
                decreases stops@.len() - i,
            {
                if stops[i].as_str().is_empty() {
                    bad = true;
                }
                i += 1;
            }
            if bad {
                return Err(ConversionError::bad_request("stop_sequences must contain at most 16 non-empty strings".to_string()));
            }
        }
        Ok(())
    }

    /// Validate and convert Messages input into a conversation request.
    ///
    /// Missing historical thinking is accepted, and supplied thinking is
    /// preserved.
    pub fn convert(self, options: ConversionOptions) -> (r: Result<ConversationRequest, ConversionError>)
        ensures
            match convert_failure(self, options) {
                Some(f) => fails_as(r, f),
                None => r matches Ok(out) && converted(self, options, out),
            },
    {
        let ghost req = self;
        let (thinking_mode, reasoning_effort) = self.resolve_thinking(options);
        if let Err(e) = self.inference_options() {
            return Err(e);
        }
        let (tools, tool_choice) = match convert_tools(&self.tools, &self.tool_choice, thinking_mode, &options) {
            Ok(p) => p,
            Err(e) => {
                return Err(e);
            },
        };
        let messages = match transform_messages(&self.messages, self.system.as_ref(), &options) {
            Ok(m) => m,
            Err(e) => {
                return Err(e);
            },
        };
        if let Err(e) = validate_tool_text(&tools, &messages) {
            return Err(e);
        }
        let budget = match self.thinking {
            Some(t) => t.budget_tokens,
            None => None,
        };
        let parallel = match &self.tool_choice {
            Some(MessagesToolChoice::Auto { disable_parallel_tool_use }) => *disable_parallel_tool_use,
            Some(MessagesToolChoice::Any { disable_parallel_tool_use }) => *disable_parallel_tool_use,
            Some(MessagesToolChoice::Tool { disable_parallel_tool_use, .. }) => *disable_parallel_tool_use,
            _ => None,
        };
        let MessagesRequest { model, stop_sequences, stream, max_tokens, .. } = self;
        let stop_sequences = match stop_sequences {
            Some(v) => v,
            None => Vec::new(),
        };
        assert(messages_view(messages@) == transform_spec(req.messages@, req.system, options.messages_web_search)->Ok_0);
        assert(tools_view(tools@) == tools_spec(request_tools(req), req.tool_choice, thinking_mode, options.messages_web_search)->Ok_0.0);
        let parsing_options = ParsingOptions {
            parse_tool_calls: tools.len() > 0,
            tool_call_initial_stage: tool_choice == ToolChoice::Required,
            parse_json_output: false,
            reasoning_initial_stage: if thinking_mode { Some(ReasoningStage::Start) } else { None },
            stop_sequences,
        };
        let out = ConversationRequest {
            conversation: Conversation {
                messages,
                thinking_mode,
                tools,
                tool_choice,
                reasoning_effort,
                response_format: ResponseFormat::Text,
            },
            parsing_options,
            max_tokens,
            thinking_budget_tokens: budget,
            disable_parallel_tool_use: parallel,
            model: Some(model),
            stream: stream == Some(true),
        };
        assert(out.conversation.tool_choice == tools_spec(request_tools(req), req.tool_choice, thinking_mode, options.messages_web_search)->Ok_0.1);
        assert(out.thinking_budget_tokens == budget_of(req));
        assert(out.disable_parallel_tool_use == parallel_setting(req.tool_choice));
        assert(strings_view(out.parsing_options.stop_sequences@) == (match req.stop_sequences {
            Some(v) => strings_view(v@),
            None => Seq::empty(),
        }));
        assert(out.conversation.reasoning_effort == (if thinking_mode {
            Some(
                match requested_effort(req) {
                    Some(e) => e,
                    None => ReasoningEffort::High,
                },
            )
        } else {
            None::<ReasoningEffort>
        }));
        Ok(out)
    }
}

} // verus!
