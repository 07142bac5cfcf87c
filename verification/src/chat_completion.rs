//! The OpenAI Chat Completions protocol: request conversion and response
//! events.

use vstd::prelude::*;

use crate::conversation::{
    Conversation, InputMessage, MessageView, ReasoningEffort, ResponseFormat, ToolCall, ToolChoice,
    ToolDefinition, ToolDefinitionView, messages_view, tools_view,
};
use crate::image_input::{data_url_image_source, file_id_unsupported, image_not_allowed, image_url_source};
use crate::json::{JsonValue, JsonView, json_view};
use crate::multimodal::{IMAGE_SPECIAL_TOKEN, ImageDetail, ImageSource, ImageSourceView, is_http_url_spec};
use crate::image::utf8_len;
use crate::image_input::{detail_or_default, url_too_long_detail};
use crate::encoding::join;
use crate::conversation::sources_view;
use crate::text::{contains_seq, decimal};
use crate::request::{ConversationRequest, ConversionError, ConversionOptions, error_detail, same_error};
use crate::state_machine::{ParsingOptions, ReasoningStage};
use crate::stream::{ChunkGenerator, CompletionUsage, FinishReason, OutputChunk, PromptUsage};
use crate::text::{append_chars, append_str, chars_of, concat, decimal_chars, string_of};
use crate::validation::{bad_request_with, result_is, outcome_is, Failure, fails_as, is_object_schema, schema_compiles, 
    concat3, contains_image_token, has_image_token, contains_json_instruction, decimal_string, fails_with,
    image_special_token_not_allowed, validate_max_tokens, validate_tool_name, validate_tool_parameters,
    validate_tool_text,
};

verus! {

// ---------------------------------------------------------------------------
// Request

/// A Chat Completions request.
///
/// The floating-point sampling fields are checked by the caller, which
/// passes the outcome of each check in `penalty_error` and `sampling_error`.
#[derive(Debug)]
pub struct ChatCompletionRequest {
    pub messages: Vec<ChatCompletionRequestMessage>,
    pub model: String,
    /// The error of the `frequency_penalty` and `presence_penalty` range check.
    pub penalty_error: Option<ConversionError>,
    /// The error of the `temperature` and `top_p` range check.
    pub sampling_error: Option<ConversionError>,
    pub max_tokens: Option<u32>,
    pub n: Option<u8>,
    pub seed: Option<u64>,
    pub stop: Option<ChatCompletionStopSequences>,
    pub stream: Option<bool>,
    pub stream_options: Option<ChatCompletionStreamOptions>,
    pub response_format: Option<ChatCompletionResponseFormat>,
    pub tools: Option<Vec<ChatCompletionTool>>,
    pub tool_choice: Option<ChatCompletionToolChoiceOption>,
    pub reasoning_effort: Option<ChatCompletionReasoningEffort>,
    pub thinking: Option<ChatCompletionThinking>,
    pub parallel_tool_calls: Option<bool>,
}

/// One message of a Chat Completions request.
#[derive(Debug)]
pub enum ChatCompletionRequestMessage {
    System { content: ChatCompletionRequestContent },
    User { content: ChatCompletionRequestContent },
    Assistant {
        content: Option<ChatCompletionRequestContent>,
        reasoning_content: Option<String>,
        tool_calls: Option<Vec<ChatCompletionRequestToolCall>>,
    },
    Tool { content: ChatCompletionRequestContent, tool_call_id: String },
    LatestReminder { content: String },
}

/// A historical tool call of an assistant message.
#[derive(Debug)]
pub struct ChatCompletionRequestToolCall {
    pub id: String,
    pub function: ChatCompletionRequestFunctionCall,
}

/// The function of a historical tool call.
#[derive(Debug)]
pub struct ChatCompletionRequestFunctionCall {
    pub name: String,
    pub arguments: String,
}

/// Message content: one string or a list of blocks.
#[derive(Debug)]
pub enum ChatCompletionRequestContent {
    String(String),
    List(Vec<ChatCompletionRequestContentBlock>),
}

/// An image reference of a content block.
#[derive(Debug)]
pub struct ChatCompletionImageUrl {
    /// HTTP URL or base64 data URL.
    pub url: String,
    pub detail: Option<ImageDetail>,
}

/// One block of message content.
#[derive(Debug)]
pub enum ChatCompletionRequestContentBlock {
    Text { text: String },
    ImageUrl { image_url: ChatCompletionImageUrl },
    File { file_id: Option<String>, file_data: Option<String>, filename: Option<String> },
}

/// Stop sequences: a list or one string.
#[derive(Debug, Clone)]
pub enum ChatCompletionStopSequences {
    Array(Vec<String>),
    String(String),
}

/// Streaming options.
#[derive(Debug, Clone, Copy, PartialEq, Eq, Structural)]
pub struct ChatCompletionStreamOptions {
    pub include_usage: Option<bool>,
}

/// The requested answer format.
#[derive(Debug)]
pub enum ChatCompletionResponseFormat {
    JsonObject,
    JsonSchema,
    Regex { regex: String },
    Text,
}

/// A tool declaration.
#[derive(Debug)]
pub struct ChatCompletionTool {
    /// The tool type (`type` on the wire).
    pub tool_type: ChatCompletionToolType,
    pub function: ChatCompletionFunctionDefinition,
}

/// The type of a tool.
#[derive(Debug, Clone, Copy, PartialEq, Eq, Structural)]
pub enum ChatCompletionToolType {
    Function,
}

/// A function declaration.
#[derive(Debug)]
pub struct ChatCompletionFunctionDefinition {
    pub name: String,
    pub description: Option<String>,
    pub parameters: Option<JsonValue>,
    pub strict: Option<bool>,
}

/// A tool choice: a mode or a named function.
#[derive(Debug)]
pub enum ChatCompletionToolChoiceOption {
    Mode(ChatCompletionToolChoiceMode),
    Named(ChatCompletionNamedToolChoice),
}

/// A tool choice mode.
#[derive(Debug, Clone, Copy, PartialEq, Eq, Structural)]
pub enum ChatCompletionToolChoiceMode {
    /// No tool may be called (`none` on the wire).
    Disabled,
    Auto,
    Required,
}

/// A named tool choice.
#[derive(Debug)]
pub struct ChatCompletionNamedToolChoice {
    /// The tool type (`type` on the wire).
    pub tool_type: ChatCompletionToolType,
    pub function: ChatCompletionToolChoiceFunction,
}

/// The function of a named tool choice.
#[derive(Debug)]
pub struct ChatCompletionToolChoiceFunction {
    pub name: String,
}

/// The thinking setting.
#[derive(Debug, Clone, Copy, PartialEq, Eq, Structural)]
pub struct ChatCompletionThinking {
    /// Enabled or disabled (`type` on the wire).
    pub kind: ChatCompletionThinkingType,
    pub budget_tokens: Option<u64>,
}

/// Whether thinking is enabled.
#[derive(Debug, Clone, Copy, PartialEq, Eq, Structural)]
pub enum ChatCompletionThinkingType {
    Enabled,
    Disabled,
}

/// The requested reasoning effort.
#[derive(Debug, Clone, Copy, PartialEq, Eq, Structural)]
pub enum ChatCompletionReasoningEffort {
    /// No reasoning (`none` on the wire).
    Off,
    Minimal,
    Low,
    Medium,
    High,
    Xhigh,
    Max,
}

// ---------------------------------------------------------------------------
// Content

/// The mathematical value of a content block.
pub enum BlockView {
    Text(Seq<char>),
    ImageUrl(Seq<char>, Option<ImageDetail>),
    File(Option<Seq<char>>, Option<Seq<char>>),
}

/// The value of a content block.
pub open spec fn block_view(b: ChatCompletionRequestContentBlock) -> BlockView {
    match b {
        ChatCompletionRequestContentBlock::Text { text } => BlockView::Text(text@),
        ChatCompletionRequestContentBlock::ImageUrl { image_url } => BlockView::ImageUrl(image_url.url@, image_url.detail),
        ChatCompletionRequestContentBlock::File { file_id, file_data, .. } => BlockView::File(
            crate::conversation::opt_view(file_id),
            crate::conversation::opt_view(file_data),
        ),
    }
}

/// What `image_url_source` makes of an image URL: the source, or the detail
/// of its error.
pub open spec fn image_url_spec(url: Seq<char>, detail: Option<ImageDetail>, path: Seq<char>) -> Result<ImageSourceView, Seq<char>> {
    if is_http_url_spec(url) {
        if utf8_len(url) <= 8192 {
            Ok(ImageSourceView::Url { url, detail: detail_or_default(detail) })
        } else {
            Err(url_too_long_detail(path, utf8_len(url) as nat))
        }
    } else if contains_seq(url, "base64,"@) {
        Ok(ImageSourceView::DataUrl { data_url: url, detail: detail_or_default(detail) })
    } else {
        Err(path + ": Unsupported image_url format"@)
    }
}

/// The path of block `i` of the content at `path`.
pub open spec fn block_path(path: Seq<char>, i: int) -> Seq<char> {
    path + ".content["@ + decimal(i as nat) + "]"@
}

/// The texts and images of the first `n` blocks, one placeholder text per
/// image, or the detail of the first block's error.
pub open spec fn blocks_spec(blocks: Seq<BlockView>, path: Seq<char>, n: int) -> Result<(Seq<Seq<char>>, Seq<ImageSourceView>), Seq<char>>
    decreases n,
{
    if n <= 0 {
        Ok((Seq::empty(), Seq::empty()))
    } else {
        match blocks_spec(blocks, path, n - 1) {
            Err(e) => Err(e),
            Ok((texts, images)) => match blocks[n - 1] {
                BlockView::Text(t) => Ok((texts.push(t), images)),
                BlockView::ImageUrl(url, detail) => match image_url_spec(
                    url,
                    detail,
                    block_path(path, n - 1) + ".image_url.url"@,
                ) {
                    Ok(src) => Ok((texts.push(IMAGE_SPECIAL_TOKEN@), images.push(src))),
                    Err(e) => Err(e),
                },
                BlockView::File(file_id, file_data) => match file_id {
                    Some(_) => Err(
                        block_path(path, n - 1)
                            + ": file_id is not supported. Pass the image as a base64 data url instead."@,
                    ),
                    None => match file_data {
                        None => Err(block_path(path, n - 1) + ": file must have file_data"@),
                        Some(d) => Ok(
                            (
                                texts.push(IMAGE_SPECIAL_TOKEN@),
                                images.push(ImageSourceView::DataUrl { data_url: d, detail: ImageDetail::High }),
                            ),
                        ),
                    },
                },
            },
        }
    }
}

/// Once a block fails, the blocks that follow keep its error.
pub proof fn lemma_blocks_err(blocks: Seq<BlockView>, path: Seq<char>, n: int, m: int)
    requires
        0 <= n <= m,
        blocks_spec(blocks, path, n) is Err,
    ensures
        blocks_spec(blocks, path, m) == blocks_spec(blocks, path, n),
    decreases m - n,
{
    if n < m {
        lemma_blocks_err(blocks, path, n, m - 1);
    }
}

/// The values of a list of blocks.
pub open spec fn blocks_view(blocks: Seq<ChatCompletionRequestContentBlock>) -> Seq<BlockView> {
    Seq::new(blocks.len(), |i: int| block_view(blocks[i]))
}

/// The text and images of message content, or the detail of its error.
pub open spec fn content_spec(c: ChatCompletionRequestContent, path: Seq<char>) -> Result<(Seq<char>, Seq<ImageSourceView>), Seq<char>> {
    match c {
        ChatCompletionRequestContent::String(s) => Ok((s@, Seq::empty())),
        ChatCompletionRequestContent::List(blocks) => match blocks_spec(blocks_view(blocks@), path, blocks@.len() as int) {
            Ok((texts, images)) => Ok((join(texts, "\n\n"@), images)),
            Err(e) => Err(e),
        },
    }
}

/// The text of message content that may not carry images, or the detail of
/// its error.
pub open spec fn text_spec(c: ChatCompletionRequestContent, path: Seq<char>, role: Seq<char>) -> Result<Seq<char>, Seq<char>> {
    match content_spec(c, path) {
        Err(e) => Err(e),
        Ok((text, images)) => if images.len() > 0 {
            Err("Image in "@ + role + " message is unsupported"@)
        } else {
            Ok(text)
        },
    }
}

/// Joins texts with blank lines.
fn join_texts(texts: &Vec<String>) -> (r: String)
    ensures
        r@ == join(Seq::new(texts@.len(), |i: int| texts@[i]@), "\n\n"@),
{
    let ghost items = Seq::new(texts@.len(), |i: int| texts@[i]@);
    let mut out: Vec<char> = Vec::new();
    let mut i: usize = 0;
    assert(out@ =~= join(items.take(0), "\n\n"@));
    while i < texts.len()
        invariant
            i <= texts@.len(),
            items == Seq::new(texts@.len(), |i: int| texts@[i]@),
            out@ == join(items.take(i as int), "\n\n"@),
        decreases texts@.len() - i,
    {
        proof {
            crate::encoding::lemma_join_push(items, "\n\n"@, i as int);
        }
        if i > 0 {
            append_str(&mut out, "\n\n");
        }
        append_str(&mut out, texts[i].as_str());
        i += 1;
    }
    assert(items.take(texts@.len() as int) =~= items);
    string_of(out.as_slice())
}

/// Returns the path of block `i` of the content at `path`.
fn block_path_exec(path: &str, i: usize) -> (r: String)
    ensures
        r@ == block_path(path@, i as int),
{
    let mut out: Vec<char> = Vec::new();
    append_str(&mut out, path);
    append_str(&mut out, ".content[");
    let d = decimal_chars(i);
    append_chars(&mut out, d.as_slice());
    append_str(&mut out, "]");
    assert(out@ =~= block_path(path@, i as int));
    string_of(out.as_slice())
}

/// The value of converted content.
pub open spec fn content_pair_view(p: (String, Vec<ImageSource>)) -> (Seq<char>, Seq<ImageSourceView>) {
    (p.0@, sources_view(p.1@))
}

impl ChatCompletionRequestContent {
    /// Convert text and image blocks. Each image block contributes one
    /// [`IMAGE_SPECIAL_TOKEN`] placeholder in the returned text.
    pub fn into_content(&self, path: &str) -> (r: Result<(String, Vec<ImageSource>), ConversionError>)
        ensures
            result_is(r, content_spec(*self, path@), |p: (String, Vec<ImageSource>)| content_pair_view(p)),
    {
        match self {
            ChatCompletionRequestContent::String(content) => {
                let images: Vec<ImageSource> = Vec::new();
                assert(sources_view(images@) =~= Seq::<ImageSourceView>::empty());
                Ok((content.clone(), images))
            },
            ChatCompletionRequestContent::List(blocks) => {
                let ghost bv = blocks_view(blocks@);
                let mut texts: Vec<String> = Vec::new();
                let mut images: Vec<ImageSource> = Vec::new();
                let mut i: usize = 0;
                assert(sources_view(images@) =~= Seq::<ImageSourceView>::empty());
                assert(Seq::new(texts@.len(), |k: int| texts@[k]@) =~= Seq::<Seq<char>>::empty());
                while i < blocks.len()
                    invariant
                        i <= blocks@.len(),
                        bv == blocks_view(blocks@),
                        *self == ChatCompletionRequestContent::List(*blocks),
                        blocks_spec(bv, path@, i as int) == Ok::<(Seq<Seq<char>>, Seq<ImageSourceView>), Seq<char>>(
                            (Seq::new(texts@.len(), |k: int| texts@[k]@), sources_view(images@)),
                        ),
                    decreases blocks@.len() - i,
                {
                    let ghost tv = Seq::new(texts@.len(), |k: int| texts@[k]@);
                    let ghost iv = sources_view(images@);
                    assert(bv[i as int] == block_view(blocks@[i as int]));
                    match &blocks[i] {
                        ChatCompletionRequestContentBlock::Text { text } => {
                            texts.push(text.clone());
                            assert(Seq::new(texts@.len(), |k: int| texts@[k]@) =~= tv.push(text@));
                        },
                        ChatCompletionRequestContentBlock::ImageUrl { image_url } => {
                            let bp = block_path_exec(path, i);
                            let p = concat(bp.as_str(), ".image_url.url");
                            match image_url_source(image_url.url.clone(), image_url.detail, p.as_str()) {
                                Ok(src) => {
                                    images.push(src);
                                    texts.push(IMAGE_SPECIAL_TOKEN.to_string());
                                    assert(Seq::new(texts@.len(), |k: int| texts@[k]@) =~= tv.push(IMAGE_SPECIAL_TOKEN@));
                                    assert(sources_view(images@) =~= iv.push(src@));
                                },
                                Err(e) => {
                                    proof {
                                        let spec_r = image_url_spec(image_url.url@, image_url.detail, p@);
                                        assert(p@ == block_path(path@, i as int) + ".image_url.url"@);
                                        assert(blocks_spec(bv, path@, i + 1) == match spec_r {
                                            Ok(src) => Ok::<(Seq<Seq<char>>, Seq<ImageSourceView>), Seq<char>>((tv.push(IMAGE_SPECIAL_TOKEN@), iv.push(src))),
                                            Err(d) => Err(d),
                                        });
                                        assert(spec_r is Err);
                                        lemma_blocks_err(bv, path@, i + 1, blocks@.len() as int);
                                        assert(blocks_spec(bv, path@, blocks@.len() as int) == Err::<(Seq<Seq<char>>, Seq<ImageSourceView>), Seq<char>>(spec_r->Err_0));
                                        assert(bad_request_with(e, spec_r->Err_0));
                                        assert(content_spec(ChatCompletionRequestContent::List(*blocks), path@) == Err::<(Seq<char>, Seq<ImageSourceView>), Seq<char>>(spec_r->Err_0));
                                    }
                                    return Err(e);
                                },
                            }
                        },
                        ChatCompletionRequestContentBlock::File { file_id, file_data, .. } => {
                            let bp = block_path_exec(path, i);
                            if file_id.is_some() {
                                proof {
                                    assert(blocks_spec(bv, path@, i + 1) == Err::<(Seq<Seq<char>>, Seq<ImageSourceView>), Seq<char>>(
                                        block_path(path@, i as int) + ": file_id is not supported. Pass the image as a base64 data url instead."@,
                                    ));
                                    lemma_blocks_err(bv, path@, i + 1, blocks@.len() as int);
                                }
                                return Err(file_id_unsupported(bp.as_str()));
                            }
                            match file_data {
                                None => {
                                    proof {
                                        lemma_blocks_err(bv, path@, i + 1, blocks@.len() as int);
                                    }
                                    return Err(ConversionError::bad_request(concat(bp.as_str(), ": file must have file_data")));
                                },
                                Some(d) => {
                                    let src = data_url_image_source(d.clone(), None);
                                    images.push(src);
                                    texts.push(IMAGE_SPECIAL_TOKEN.to_string());
                                    assert(Seq::new(texts@.len(), |k: int| texts@[k]@) =~= tv.push(IMAGE_SPECIAL_TOKEN@));
                                    assert(sources_view(images@) =~= iv.push(src@));
                                },
                            }
                        },
                    }
                    i += 1;
                }
                let text = join_texts(&texts);
                Ok((text, images))
            },
        }
    }

    /// Convert text blocks and reject image blocks.
    pub fn into_text(&self, path: &str, role: &str) -> (r: Result<String, ConversionError>)
        ensures
            result_is(r, text_spec(*self, path@, role@), |s: String| s@),
    {
        match self.into_content(path) {
            Err(e) => Err(e),
            Ok((content, images)) => {
                if images.len() > 0 {
                    return Err(image_not_allowed(role));
                }
                Ok(content)
            },
        }
    }
}

// ---------------------------------------------------------------------------
// Request settings

/// The protocol-independent effort of a requested reasoning effort.
pub open spec fn effort_of(e: ChatCompletionReasoningEffort) -> Option<ReasoningEffort> {
    match e {
        ChatCompletionReasoningEffort::Off => None,
        ChatCompletionReasoningEffort::Minimal | ChatCompletionReasoningEffort::Low => Some(ReasoningEffort::Low),
        ChatCompletionReasoningEffort::Medium | ChatCompletionReasoningEffort::High => Some(ReasoningEffort::High),
        ChatCompletionReasoningEffort::Xhigh => Some(ReasoningEffort::Xhigh),
        ChatCompletionReasoningEffort::Max => Some(ReasoningEffort::Max),
    }
}

impl ChatCompletionReasoningEffort {
    /// The protocol-independent effort; `None` for no reasoning.
    pub fn to_reasoning_effort(self) -> (r: Option<ReasoningEffort>)
        ensures
            r == effort_of(self),
    {
        match self {
            ChatCompletionReasoningEffort::Off => None,
            ChatCompletionReasoningEffort::Minimal | ChatCompletionReasoningEffort::Low => Some(ReasoningEffort::Low),
            ChatCompletionReasoningEffort::Medium | ChatCompletionReasoningEffort::High => Some(ReasoningEffort::High),
            ChatCompletionReasoningEffort::Xhigh => Some(ReasoningEffort::Xhigh),
            ChatCompletionReasoningEffort::Max => Some(ReasoningEffort::Max),
        }
    }
}

/// Whether a request enables thinking: the explicit setting, else any
/// reasoning effort but `none`, else the adapter default.
pub open spec fn thinking_of(req: ChatCompletionRequest, default_thinking: bool) -> bool {
    match req.thinking {
        Some(t) => t.kind == ChatCompletionThinkingType::Enabled,
        None => match req.reasoning_effort {
            Some(ChatCompletionReasoningEffort::Off) => false,
            Some(_) => true,
            None => default_thinking,
        },
    }
}

/// The reasoning effort of a request when thinking is on: the requested
/// effort, high by default.
pub open spec fn effort_when_thinking(req: ChatCompletionRequest) -> ReasoningEffort {
    match req.reasoning_effort {
        Some(e) => match effort_of(e) {
            Some(x) => x,
            None => ReasoningEffort::High,
        },
        None => ReasoningEffort::High,
    }
}

/// The stop sequences of a stop setting.
pub open spec fn stop_view(stop: Option<ChatCompletionStopSequences>) -> Seq<Seq<char>> {
    match stop {
        Some(ChatCompletionStopSequences::Array(v)) => crate::text::strings_view(v@),
        Some(ChatCompletionStopSequences::String(s)) => seq![s@],
        None => Seq::empty(),
    }
}

/// What the inference settings of a request give: the token limit, or the
/// first error among `n`, the penalties, `max_tokens`, the sampling range
/// and `seed`.
pub open spec fn inference_outcome(req: ChatCompletionRequest, r: Result<Option<u32>, ConversionError>) -> bool {
    if req.n is Some && req.n->0 != 1 {
        fails_with(r, "Invalid n value (currently only n = 1 is supported)"@)
    } else if req.penalty_error is Some {
        r is Err && same_error(r->Err_0, req.penalty_error->0)
    } else if req.max_tokens == Some(0u32) {
        fails_with(r, "max_tokens"@ + " must be greater than zero"@)
    } else if req.sampling_error is Some {
        r is Err && same_error(r->Err_0, req.sampling_error->0)
    } else if req.seed is Some && req.seed->0 >= 0x8000_0000_0000_0000u64 {
        fails_with(r, "seed must be in [0, 2^63)"@)
    } else {
        r == Ok::<Option<u32>, ConversionError>(req.max_tokens)
    }
}

/// What the stop and stream settings give: the first error, if any.
pub open spec fn api_params_outcome(
    stop: Option<ChatCompletionStopSequences>,
    stream: Option<bool>,
    stream_options: Option<ChatCompletionStreamOptions>,
) -> Result<(), Seq<char>> {
    if stop is Some && stop->0 is Array && stop->0->Array_0@.len() > MAX_STOP_SEQUENCES {
        Err("ChatCompletionStopSequences string array too long: "@ + decimal(stop->0->Array_0@.len()))
    } else if stream != Some(true) && stream_options is Some {
        Err("stream_options should be set along with stream = true"@)
    } else {
        Ok(())
    }
}

/// Maximum number of stop sequences accepted by the adapter.
pub const MAX_STOP_SEQUENCES: usize = 16;

impl ChatCompletionRequest {
    /// The thinking mode and the reasoning effort of the request.
    pub fn resolve_thinking(&self, options: ConversionOptions) -> (r: (bool, Option<ReasoningEffort>))
        ensures
            r.0 == thinking_of(*self, options.default_thinking_mode),
            r.1 == (if r.0 { Some(effort_when_thinking(*self)) } else { None::<ReasoningEffort> }),
    {
        let effort = match self.reasoning_effort {
            Some(e) => e.to_reasoning_effort(),
            None => None,
        };
        let thinking = match &self.thinking {
            Some(t) => t.kind == ChatCompletionThinkingType::Enabled,
            None => match self.reasoning_effort {
                Some(ChatCompletionReasoningEffort::Off) => false,
                Some(_) => true,
                None => options.default_thinking_mode,
            },
        };
        let chosen = match effort {
            Some(x) => x,
            None => ReasoningEffort::High,
        };
        (thinking, if thinking { Some(chosen) } else { None })
    }

    /// Check `n`, the penalties, `max_tokens`, the sampling range and `seed`,
    /// and return the token limit.
    pub fn inference_options(&self) -> (r: Result<Option<u32>, ConversionError>)
        ensures
            inference_outcome(*self, r),
    {
        if let Some(n) = self.n {
            if n != 1 {
                return Err(ConversionError::bad_request("Invalid n value (currently only n = 1 is supported)".to_string()));
            }
        }
        if let Some(e) = &self.penalty_error {
            return Err(e.duplicate());
        }
        if let Err(e) = validate_max_tokens(self.max_tokens, "max_tokens") {
            return Err(e);
        }
        if let Some(e) = &self.sampling_error {
            return Err(e.duplicate());
        }
        if let Some(s) = self.seed {
            if s >= 0x8000_0000_0000_0000u64 {
                return Err(ConversionError::bad_request("seed must be in [0, 2^63)".to_string()));
            }
        }
        Ok(self.max_tokens)
    }

    /// Output parsing settings for the request's stop sequences and
    /// thinking mode.
    pub fn parsing_options(&self, thinking: bool) -> (r: ParsingOptions)
        ensures
            r.parse_tool_calls,
            !r.tool_call_initial_stage,
            !r.parse_json_output,
            r.reasoning_initial_stage == (if thinking { Some(ReasoningStage::Start) } else { None::<ReasoningStage> }),
            crate::text::strings_view(r.stop_sequences@) == stop_view(self.stop),
    {
        let stop_sequences = match &self.stop {
            Some(ChatCompletionStopSequences::Array(v)) => crate::text::copy_strings(v),
            Some(ChatCompletionStopSequences::String(s)) => {
                let mut v: Vec<String> = Vec::new();
                v.push(s.clone());
                assert(crate::text::strings_view(v@) =~= seq![s@]);
                v
            },
            None => {
                let v: Vec<String> = Vec::new();
                assert(crate::text::strings_view(v@) =~= Seq::<Seq<char>>::empty());
                v
            },
        };
        ParsingOptions {
            parse_tool_calls: true,
            tool_call_initial_stage: false,
            parse_json_output: false,
            reasoning_initial_stage: if thinking { Some(ReasoningStage::Start) } else { None },
            stop_sequences,
        }
    }

    /// Return the setting for usage inclusion in response chunks.
    ///
    /// Read this before consuming the request with `convert`, then pass the
    /// value to `ChatCompletionChunkGenerator::with_include_usage`.
    pub fn include_usage(&self) -> (r: bool)
        ensures
            r == (self.stream != Some(true) || (self.stream_options matches Some(o) && o.include_usage == Some(true))),
    {
        if self.stream != Some(true) {
            return true;
        }
        match self.stream_options {
            Some(o) => o.include_usage == Some(true),
            None => false,
        }
    }
}

/// Validate stop sequences and streaming options.
pub fn validate_api_params(
    stop: Option<&ChatCompletionStopSequences>,
    stream: Option<bool>,
    stream_options: Option<&ChatCompletionStreamOptions>,
) -> (r: Result<(), ConversionError>)
    ensures
        ({
            let s = api_params_outcome(
                match stop { Some(x) => Some(*x), None => None },
                stream,
                match stream_options { Some(x) => Some(*x), None => None },
            );
            result_is(r, s, |u: ()| u)
        }),
{
    if let Some(ChatCompletionStopSequences::Array(v)) = stop {
        if v.len() > MAX_STOP_SEQUENCES {
            let n = decimal_string(v.len());
            return Err(ConversionError::bad_request(concat("ChatCompletionStopSequences string array too long: ", n.as_str())));
        }
    }
    if stream != Some(true) && stream_options.is_some() {
        return Err(ConversionError::bad_request("stream_options should be set along with stream = true".to_string()));
    }
    Ok(())
}

// ---------------------------------------------------------------------------
// Tools

/// The path of a field of the function of tool `i`.
pub open spec fn tool_field_path(i: int, field: Seq<char>) -> Seq<char> {
    "tools."@ + decimal(i as nat) + ".function."@ + field
}

/// Returns the path of a field of the function of tool `i`.
fn tool_field_path_exec(i: usize, field: &str) -> (r: String)
    ensures
        r@ == tool_field_path(i as int, field@),
{
    let mut out: Vec<char> = Vec::new();
    append_str(&mut out, "tools.");
    let d = decimal_chars(i);
    append_chars(&mut out, d.as_slice());
    append_str(&mut out, ".function.");
    append_str(&mut out, field);
    assert(out@ =~= tool_field_path(i as int, field@));
    string_of(out.as_slice())
}

/// The first invalid name among the first `n` tools, as an error detail.
pub open spec fn names_check(tools: Seq<ChatCompletionTool>, n: int) -> Result<(), Seq<char>>
    decreases n,
{
    if n <= 0 {
        Ok(())
    } else {
        match names_check(tools, n - 1) {
            Err(e) => Err(e),
            Ok(_) => if crate::validation::valid_tool_name(tools[n - 1].function.name@) {
                Ok(())
            } else {
                Err(tool_field_path(n - 1, "name"@) + ": expected 1-128 ASCII letters, digits, underscores or hyphens"@)
            },
        }
    }
}

/// Once a name check fails, later tools keep the error.
proof fn lemma_names_err(tools: Seq<ChatCompletionTool>, n: int, m: int)
    requires
        0 <= n <= m,
        names_check(tools, n) is Err,
    ensures
        names_check(tools, m) == names_check(tools, n),
    decreases m - n,
{
    if n < m {
        lemma_names_err(tools, n, m - 1);
    }
}

/// The definition made of a declared tool; a tool without parameters takes
/// the empty object schema.
pub open spec fn definition_of(t: ChatCompletionTool) -> ToolDefinitionView {
    ToolDefinitionView {
        name: t.function.name@,
        description: crate::conversation::opt_view(t.function.description),
        parameters: match t.function.parameters {
            Some(p) => json_view(p),
            None => JsonView::Object(Seq::empty()),
        },
        strict: t.function.strict,
    }
}

/// Whether tool `i` repeats the name of an earlier tool.
pub open spec fn repeats_name(tools: Seq<ChatCompletionTool>, i: int) -> bool {
    exists|j: int| 0 <= j < i && #[trigger] tools[j].function.name@ == tools[i].function.name@
}

/// The definitions of the first `n` tools, or the first error: a repeated
/// name, or a parameter schema that is not an object schema (`Some`
/// detail) or that does not compile (`None`).
pub open spec fn definitions_spec(tools: Seq<ChatCompletionTool>, n: int) -> Result<Seq<ToolDefinitionView>, Option<Seq<char>>>
    decreases n,
{
    if n <= 0 {
        Ok(Seq::empty())
    } else {
        match definitions_spec(tools, n - 1) {
            Err(e) => Err(e),
            Ok(d) => if repeats_name(tools, n - 1) {
                Err(Some("Tool names must be unique"@))
            } else {
                match tools[n - 1].function.parameters {
                    Some(p) => if !is_object_schema(json_view(p)) {
                        Err(Some(tool_field_path(n - 1, "parameters"@) + " must be a JSON Schema of type object"@))
                    } else if !schema_compiles(json_view(p)) {
                        Err(None)
                    } else {
                        Ok(d.push(definition_of(tools[n - 1])))
                    },
                    None => Ok(d.push(definition_of(tools[n - 1]))),
                }
            },
        }
    }
}

/// Once a definition fails, later tools keep the error.
proof fn lemma_definitions_err(tools: Seq<ChatCompletionTool>, n: int, m: int)
    requires
        0 <= n <= m,
        definitions_spec(tools, n) is Err,
    ensures
        definitions_spec(tools, m) == definitions_spec(tools, n),
    decreases m - n,
{
    if n < m {
        lemma_definitions_err(tools, n, m - 1);
    }
}

/// Whether some tool has the name `name`.
pub open spec fn declares(tools: Seq<ChatCompletionTool>, name: Seq<char>) -> bool {
    exists|j: int| 0 <= j < tools.len() && #[trigger] tools[j].function.name@ == name
}

/// The definitions named `name`.
pub open spec fn named(defs: Seq<ToolDefinitionView>, name: Seq<char>) -> Seq<ToolDefinitionView> {
    defs.filter(|t: ToolDefinitionView| t.name == name)
}

/// The error of a required tool call in thinking mode.
pub open spec fn required_in_thinking() -> Seq<char> {
    "Thinking mode does not support this tool_choice"@
}

/// The tool definitions and the tool choice of a request, or its first
/// error.
pub open spec fn tools_spec(
    tools: Seq<ChatCompletionTool>,
    choice: Option<ChatCompletionToolChoiceOption>,
    thinking: bool,
) -> Result<(Seq<ToolDefinitionView>, ToolChoice), Option<Seq<char>>> {
    match names_check(tools, tools.len() as int) {
        Err(e) => Err(Some(e)),
        Ok(_) => if choice matches Some(ChatCompletionToolChoiceOption::Mode(ChatCompletionToolChoiceMode::Disabled)) {
            Ok((Seq::empty(), ToolChoice::Disabled))
        } else if tools.len() == 0 {
            Ok((Seq::empty(), ToolChoice::Auto))
        } else {
            match definitions_spec(tools, tools.len() as int) {
                Err(e) => Err(e),
                Ok(d) => match choice {
                    Some(ChatCompletionToolChoiceOption::Named(n)) => if !declares(tools, n.function.name@) {
                        Err(Some("tool_choice: no tool named '"@ + n.function.name@ + "' was specified"@))
                    } else if thinking {
                        Err(Some(required_in_thinking()))
                    } else {
                        Ok((named(d, n.function.name@), ToolChoice::Required))
                    },
                    Some(ChatCompletionToolChoiceOption::Mode(ChatCompletionToolChoiceMode::Required)) => if thinking {
                        Err(Some(required_in_thinking()))
                    } else {
                        Ok((d, ToolChoice::Required))
                    },
                    _ => Ok((d, ToolChoice::Auto)),
                },
            }
        }
    }
}

/// The value of converted tools.
pub open spec fn tools_pair_view(p: (Vec<ToolDefinition>, ToolChoice)) -> (Seq<ToolDefinitionView>, ToolChoice) {
    (tools_view(p.0@), p.1)
}

/// Returns the definition made of a declared tool.
fn definition_from(t: &ChatCompletionTool) -> (r: ToolDefinition)
    ensures
        r@ == definition_of(*t),
{
    let parameters = match &t.function.parameters {
        Some(p) => crate::json::duplicate_json(p),
        None => {
            let members: Vec<(String, JsonValue)> = Vec::new();
            let v = JsonValue::Object(members);
            assert(crate::json::member_views(members@) =~= Seq::<(Seq<char>, JsonView)>::empty());
            v
        },
    };
    ToolDefinition {
        name: t.function.name.clone(),
        description: crate::conversation::duplicate_opt(&t.function.description),
        parameters,
        strict: t.function.strict,
    }
}

/// Returns whether tool `i` repeats the name of an earlier tool.
fn repeats_name_exec(tools: &Vec<ChatCompletionTool>, i: usize) -> (r: bool)
    requires
        i < tools@.len(),
    ensures
        r == repeats_name(tools@, i as int),
{
    let mut j: usize = 0;
    while j < i
        invariant
            j <= i < tools@.len(),
            forall|k: int| 0 <= k < j ==> tools@[k].function.name@ != tools@[i as int].function.name@,
        decreases i - j,
    {
        if crate::text::str_eq(tools[j].function.name.as_str(), tools[i].function.name.as_str()) {
            return true;
        }
        j += 1;
    }
    false
}

/// Convert tool declarations and the tool choice.
pub fn convert_tools(
    tools: Option<Vec<ChatCompletionTool>>,
    choice: Option<ChatCompletionToolChoiceOption>,
    thinking: bool,
) -> (r: Result<(Vec<ToolDefinition>, ToolChoice), ConversionError>)
    ensures
        outcome_is(
            r,
            tools_spec(
                match tools { Some(v) => v@, None => Seq::empty() },
                choice,
                thinking,
            ),
            |p: (Vec<ToolDefinition>, ToolChoice)| tools_pair_view(p),
        ),
{
    let list = match tools {
        Some(v) => v,
        None => Vec::new(),
    };
    let ghost ts = list@;
    assert(ts == match tools { Some(v) => v@, None => Seq::<ChatCompletionTool>::empty() });
    let n = list.len();
    let mut i: usize = 0;
    while i < n
        invariant
            n == list@.len(),
            i <= n,
            ts == list@,
            ts == match tools { Some(v) => v@, None => Seq::<ChatCompletionTool>::empty() },
            names_check(ts, i as int) is Ok,
        decreases n - i,
    {
        let path = tool_field_path_exec(i, "name");
        if let Err(e) = validate_tool_name(list[i].function.name.as_str(), path.as_str()) {
            proof {
                lemma_names_err(ts, i + 1, n as int);
            }
            return Err(e);
        }
        i += 1;
    }
    let empty: Vec<ToolDefinition> = Vec::new();
    assert(tools_view(empty@) =~= Seq::<ToolDefinitionView>::empty());
    if let Some(ChatCompletionToolChoiceOption::Mode(ChatCompletionToolChoiceMode::Disabled)) = &choice {
        return Ok((empty, ToolChoice::Disabled));
    }
    if n == 0 {
        return Ok((empty, ToolChoice::Auto));
    }
    let mut definitions: Vec<ToolDefinition> = Vec::new();
    let mut i: usize = 0;
    while i < n
        invariant
            n == list@.len(),
            i <= n,
            ts == list@,
            ts == match tools { Some(v) => v@, None => Seq::<ChatCompletionTool>::empty() },
            definitions_spec(ts, i as int) == Ok::<Seq<ToolDefinitionView>, Option<Seq<char>>>(tools_view(definitions@)),
            names_check(ts, n as int) is Ok,
            n > 0,
            !(choice matches Some(ChatCompletionToolChoiceOption::Mode(ChatCompletionToolChoiceMode::Disabled))),
        decreases n - i,
    {
        if repeats_name_exec(&list, i) {
            proof {
                lemma_definitions_err(ts, i + 1, n as int);
            }
            return Err(ConversionError::bad_request("Tool names must be unique".to_string()));
        }
        if let Some(p) = &list[i].function.parameters {
            let path = tool_field_path_exec(i, "parameters");
            if let Err(e) = validate_tool_parameters(p, path.as_str()) {
                proof {
                    lemma_definitions_err(ts, i + 1, n as int);
                }
                return Err(e);
            }
        }
        let ghost before = definitions@;
        let d = definition_from(&list[i]);
        definitions.push(d);
        assert(tools_view(definitions@) =~= tools_view(before).push(definition_of(ts[i as int])));
        i += 1;
    }
    match &choice {
        Some(ChatCompletionToolChoiceOption::Named(named_choice)) => {
            let name = &named_choice.function.name;
            let mut found = false;
            let mut j: usize = 0;
            while j < n
                invariant
                    n == list@.len(),
                    j <= n,
                    ts == list@,
            ts == match tools { Some(v) => v@, None => Seq::<ChatCompletionTool>::empty() },
                    found <==> exists|k: int| 0 <= k < j && #[trigger] ts[k].function.name@ == name@,
                decreases n - j,
            {
                if crate::text::str_eq(list[j].function.name.as_str(), name.as_str()) {
                    found = true;
                }
                j += 1;
            }
            if !found {
                return Err(ConversionError::bad_request(concat3("tool_choice: no tool named '", name.as_str(), "' was specified")));
            }
            if thinking {
                return Err(ConversionError::bad_request("Thinking mode does not support this tool_choice".to_string()));
            }
            let ghost dv = tools_view(definitions@);
            let mut kept: Vec<ToolDefinition> = Vec::new();
            let mut k: usize = 0;
            while k < definitions.len()
                invariant
                    k <= definitions@.len(),
                    dv == tools_view(definitions@),
                    tools_view(kept@) == named(dv.take(k as int), name@),
                decreases definitions@.len() - k,
            {
                let ghost before = kept@;
                proof {
                    reveal(Seq::filter);
                    assert(dv.take(k + 1).drop_last() =~= dv.take(k as int));
                }
                if crate::text::str_eq(definitions[k].name.as_str(), name.as_str()) {
                    kept.push(definitions[k].duplicate());
                    assert(tools_view(kept@) =~= tools_view(before).push(dv[k as int]));
                }
                k += 1;
            }
            assert(dv.take(definitions@.len() as int) =~= dv);
            Ok((kept, ToolChoice::Required))
        },
        Some(ChatCompletionToolChoiceOption::Mode(ChatCompletionToolChoiceMode::Required)) => {
            if thinking {
                return Err(ConversionError::bad_request("Thinking mode does not support this tool_choice".to_string()));
            }
            Ok((definitions, ToolChoice::Required))
        },
        _ => Ok((definitions, ToolChoice::Auto)),
    }
}

// ---------------------------------------------------------------------------
// Messages

/// Whether message content carries the image placeholder in its text.
pub open spec fn content_has_token(c: ChatCompletionRequestContent) -> bool {
    match c {
        ChatCompletionRequestContent::String(s) => has_image_token(s@),
        ChatCompletionRequestContent::List(blocks) => blocks_have_token(blocks@),
    }
}

/// Whether a text block carries the image placeholder.
pub open spec fn blocks_have_token(blocks: Seq<ChatCompletionRequestContentBlock>) -> bool {
    exists|i: int| 0 <= i < blocks.len() && #[trigger] block_has_token(blocks[i])
}

/// Whether a content block is text that carries the image placeholder.
pub open spec fn block_has_token(b: ChatCompletionRequestContentBlock) -> bool {
    b matches ChatCompletionRequestContentBlock::Text { text } && has_image_token(text@)
}

/// Whether a message carries the image placeholder in text that reaches the
/// prompt: its content, or an assistant's reasoning.
pub open spec fn message_has_token(m: ChatCompletionRequestMessage) -> bool {
    match m {
        ChatCompletionRequestMessage::System { content } => content_has_token(content),
        ChatCompletionRequestMessage::User { content } => content_has_token(content),
        ChatCompletionRequestMessage::Tool { content, .. } => content_has_token(content),
        ChatCompletionRequestMessage::Assistant { content, reasoning_content, .. } => (content matches Some(c)
            && content_has_token(c)) || (reasoning_content matches Some(t) && has_image_token(t@)),
        ChatCompletionRequestMessage::LatestReminder { content } => has_image_token(content@),
    }
}

impl ChatCompletionRequestContent {
    /// Return whether text carries [`IMAGE_SPECIAL_TOKEN`].
    pub fn contains_image_special_token(&self) -> (r: bool)
        ensures
            r == content_has_token(*self),
    {
        match self {
            ChatCompletionRequestContent::String(content) => contains_image_token(content.as_str()),
            ChatCompletionRequestContent::List(blocks) => {
                let mut i: usize = 0;
                while i < blocks.len()
                    invariant
                        i <= blocks@.len(),
                        *self == ChatCompletionRequestContent::List(*blocks),
                        forall|k: int| 0 <= k < i ==> !block_has_token(#[trigger] blocks@[k]),
                    decreases blocks@.len() - i,
                {
                    if let ChatCompletionRequestContentBlock::Text { text } = &blocks[i] {
                        if contains_image_token(text.as_str()) {
                            let ghost bs = (*blocks)@;
                            assert(block_has_token(bs[i as int]));
                            assert(blocks_have_token(bs));
                            return true;
                        }
                    }
                    i += 1;
                }
                false
            },
        }
    }
}

/// Return whether any message carries [`IMAGE_SPECIAL_TOKEN`] in text that
/// reaches the prompt.
///
/// Message content and assistant reasoning content are checked. Tool call
/// names and arguments are checked after conversion by
/// [`validate_tool_text`].
pub fn messages_contain_image_special_token(messages: &Vec<ChatCompletionRequestMessage>) -> (r: bool)
    ensures
        r == exists|i: int| 0 <= i < messages@.len() && #[trigger] message_has_token(messages@[i]),
{
    let mut i: usize = 0;
    while i < messages.len()
        invariant
            i <= messages@.len(),
            forall|k: int| 0 <= k < i ==> !message_has_token(#[trigger] messages@[k]),
        decreases messages@.len() - i,
    {
        let found = match &messages[i] {
            ChatCompletionRequestMessage::System { content } => content.contains_image_special_token(),
            ChatCompletionRequestMessage::User { content } => content.contains_image_special_token(),
            ChatCompletionRequestMessage::Tool { content, .. } => content.contains_image_special_token(),
            ChatCompletionRequestMessage::Assistant { content, reasoning_content, .. } => {
                let in_content = match content {
                    Some(c) => c.contains_image_special_token(),
                    None => false,
                };
                in_content || match reasoning_content {
                    Some(t) => contains_image_token(t.as_str()),
                    None => false,
                }
            },
            ChatCompletionRequestMessage::LatestReminder { content } => contains_image_token(content.as_str()),
        };
        if found {
            assert(message_has_token(messages@[i as int]));
            return true;
        }
        i += 1;
    }
    false
}

/// The path of message `i`.
pub open spec fn message_path(i: int) -> Seq<char> {
    "messages["@ + decimal(i as nat) + "]"@
}

/// Returns the path of message `i`.
fn message_path_exec(i: usize) -> (r: String)
    ensures
        r@ == message_path(i as int),
{
    let mut out: Vec<char> = Vec::new();
    append_str(&mut out, "messages[");
    let d = decimal_chars(i);
    append_chars(&mut out, d.as_slice());
    append_str(&mut out, "]");
    assert(out@ =~= message_path(i as int));
    string_of(out.as_slice())
}

/// The start of the errors about the tool messages that must follow an
/// assistant message with tool calls.
pub open spec fn followup_detail() -> Seq<char> {
    "An assistant message with 'tool_calls' must be followed by tool messages responding to each 'tool_call_id'."@
}

/// The error of an assistant message followed by too few tool messages.
pub open spec fn insufficient_detail() -> Seq<char> {
    followup_detail() + " (insufficient tool messages following tool_calls message)"@
}

/// The error of a tool message answering no call of the assistant message.
pub open spec fn unexpected_detail(id: Seq<char>) -> Seq<char> {
    followup_detail() + " Unexpected tool_call_id: "@ + id
}

/// The error of a repeated tool call id in message `index`.
pub open spec fn duplicate_id_detail(id: Seq<char>, index: int) -> Seq<char> {
    "Duplicate value for 'tool_call_id' of "@ + id + " in message["@ + decimal(index as nat) + "]"@
}

/// The error of an empty list of tool calls in the message at `path`.
pub open spec fn empty_calls_detail(path: Seq<char>) -> Seq<char> {
    "Invalid '"@ + path + ".tool_calls': empty array. Expected an array with minimum length 1, but got an empty array instead."@
}

/// The ids of a list of tool calls.
pub open spec fn request_call_ids(calls: Seq<ChatCompletionRequestToolCall>) -> Seq<Seq<char>> {
    Seq::new(calls.len(), |k: int| calls[k].id@)
}

/// The calls of a list of historical tool calls.
pub open spec fn request_calls_view(calls: Seq<ChatCompletionRequestToolCall>) -> Seq<crate::conversation::ToolCallView> {
    Seq::new(
        calls.len(),
        |k: int| crate::conversation::ToolCallView {
            id: calls[k].id@,
            name: calls[k].function.name@,
            arguments: calls[k].function.arguments@,
        },
    )
}

/// The first call among the first `n` whose id an earlier call already has.
pub open spec fn first_duplicate(calls: Seq<ChatCompletionRequestToolCall>, n: int) -> Option<int>
    decreases n,
{
    if n <= 0 {
        None
    } else {
        match first_duplicate(calls, n - 1) {
            Some(k) => Some(k),
            None => if request_call_ids(calls).take(n - 1).contains(calls[n - 1].id@) {
                Some(n - 1)
            } else {
                None
            },
        }
    }
}

/// Once a duplicate is found, later calls keep it.
proof fn lemma_first_duplicate(calls: Seq<ChatCompletionRequestToolCall>, n: int, m: int)
    requires
        0 <= n <= m,
        first_duplicate(calls, n) is Some,
    ensures
        first_duplicate(calls, m) == first_duplicate(calls, n),
    decreases m - n,
{
    if n < m {
        lemma_first_duplicate(calls, n, m - 1);
    }
}

/// The tool call id of a tool message.
pub open spec fn tool_id_of(m: ChatCompletionRequestMessage) -> Seq<char> {
    match m {
        ChatCompletionRequestMessage::Tool { tool_call_id, .. } => tool_call_id@,
        _ => Seq::empty(),
    }
}

/// The ids answered by the first `j` tool messages after message `i`.
pub open spec fn ids_answered(msgs: Seq<ChatCompletionRequestMessage>, i: int, j: int) -> Seq<Seq<char>> {
    Seq::new(j as nat, |m: int| tool_id_of(msgs[i + 1 + m]))
}

/// The first `j` tool results that follow the assistant message `i` whose
/// calls are `calls`, or the first error among them.
pub open spec fn tool_results_spec(
    msgs: Seq<ChatCompletionRequestMessage>,
    i: int,
    calls: Seq<ChatCompletionRequestToolCall>,
    j: int,
) -> Result<Seq<MessageView>, Seq<char>>
    decreases j,
{
    if j <= 0 {
        Ok(Seq::empty())
    } else {
        match tool_results_spec(msgs, i, calls, j - 1) {
            Err(e) => Err(e),
            Ok(rs) => {
                let k = i + j;
                if k >= msgs.len() || !(msgs[k] is Tool) {
                    Err(insufficient_detail())
                } else {
                    let id = tool_id_of(msgs[k]);
                    if !request_call_ids(calls).contains(id) {
                        Err(unexpected_detail(id))
                    } else if ids_answered(msgs, i, j - 1).contains(id) {
                        Err(duplicate_id_detail(id, k))
                    } else {
                        match msgs[k] {
                            ChatCompletionRequestMessage::Tool { content, tool_call_id } => match content_spec(
                                content,
                                message_path(k) + ".content"@,
                            ) {
                                Err(e) => Err(e),
                                Ok((c, imgs)) => Ok(
                                    rs.push(MessageView::Tool { content: c, image_sources: imgs, tool_call_id: tool_call_id@ }),
                                ),
                            },
                            _ => Err(insufficient_detail()),
                        }
                    }
                }
            },
        }
    }
}

/// Once a tool result fails, the results that follow keep its error.
proof fn lemma_tool_results_err(
    msgs: Seq<ChatCompletionRequestMessage>,
    i: int,
    calls: Seq<ChatCompletionRequestToolCall>,
    j: int,
    m: int,
)
    requires
        0 <= j <= m,
        tool_results_spec(msgs, i, calls, j) is Err,
    ensures
        tool_results_spec(msgs, i, calls, m) == tool_results_spec(msgs, i, calls, j),
    decreases m - j,
{
    if j < m {
        lemma_tool_results_err(msgs, i, calls, j, m - 1);
    }
}

/// Returns the list of ids of a list of tool calls.
fn collect_call_ids(calls: &Vec<ChatCompletionRequestToolCall>) -> (r: Vec<String>)
    ensures
        crate::text::strings_view(r@) == request_call_ids(calls@),
{
    let mut ids: Vec<String> = Vec::new();
    let mut k: usize = 0;
    while k < calls.len()
        invariant
            k <= calls@.len(),
            crate::text::strings_view(ids@) == request_call_ids(calls@).take(k as int),
        decreases calls@.len() - k,
    {
        let ghost before = ids@;
        ids.push(calls[k].id.clone());
        assert(crate::text::strings_view(ids@) =~= crate::text::strings_view(before).push(calls@[k as int].id@));
        assert(request_call_ids(calls@).take(k + 1) =~= request_call_ids(calls@).take(k as int).push(calls@[k as int].id@));
        k += 1;
    }
    assert(request_call_ids(calls@).take(calls@.len() as int) =~= request_call_ids(calls@));
    ids
}

/// Returns the index of the first call whose id an earlier call already
/// has.
fn find_duplicate_call(calls: &Vec<ChatCompletionRequestToolCall>) -> (r: Option<usize>)
    ensures
        match r {
            Some(k) => first_duplicate(calls@, calls@.len() as int) == Some(k as int) && k < calls@.len(),
            None => first_duplicate(calls@, calls@.len() as int) is None,
        },
{
    let mut seen: Vec<String> = Vec::new();
    let mut k: usize = 0;
    while k < calls.len()
        invariant
            k <= calls@.len(),
            crate::text::strings_view(seen@) == request_call_ids(calls@).take(k as int),
            first_duplicate(calls@, k as int) is None,
        decreases calls@.len() - k,
    {
        if crate::text::strings_contain(&seen, calls[k].id.as_str()) {
            proof {
                lemma_first_duplicate(calls@, k + 1, calls@.len() as int);
            }
            return Some(k);
        }
        let ghost before = seen@;
        seen.push(calls[k].id.clone());
        assert(crate::text::strings_view(seen@) =~= crate::text::strings_view(before).push(calls@[k as int].id@));
        assert(request_call_ids(calls@).take(k + 1) =~= request_call_ids(calls@).take(k as int).push(calls@[k as int].id@));
        k += 1;
    }
    None
}

/// Returns the error of a repeated tool call id in message `index`.
fn duplicate_id_error(id: &str, index: usize) -> (r: ConversionError)
    ensures
        bad_request_with(r, duplicate_id_detail(id@, index as int)),
{
    let mut out: Vec<char> = Vec::new();
    append_str(&mut out, "Duplicate value for 'tool_call_id' of ");
    append_str(&mut out, id);
    append_str(&mut out, " in message[");
    let d = decimal_chars(index);
    append_chars(&mut out, d.as_slice());
    append_str(&mut out, "]");
    assert(out@ =~= duplicate_id_detail(id@, index as int));
    ConversionError::bad_request(string_of(out.as_slice()))
}

/// Returns the error of an assistant message followed by too few tool
/// messages.
fn insufficient_error() -> (r: ConversionError)
    ensures
        bad_request_with(r, insufficient_detail()),
{
    ConversionError::bad_request(concat(
        "An assistant message with 'tool_calls' must be followed by tool messages responding to each 'tool_call_id'.",
        " (insufficient tool messages following tool_calls message)",
    ))
}

/// Convert the `count` tool messages that follow the assistant message `i`.
fn convert_tool_results(
    messages: &Vec<ChatCompletionRequestMessage>,
    i: usize,
    calls: &Vec<ChatCompletionRequestToolCall>,
) -> (r: Result<Vec<InputMessage>, ConversionError>)
    requires
        i < messages@.len(),
    ensures
        result_is(r, tool_results_spec(messages@, i as int, calls@, calls@.len() as int), |v: Vec<InputMessage>| messages_view(v@)),
        r is Ok ==> i + 1 + calls@.len() <= messages@.len(),
{
    let ghost ms = messages@;
    let ids = collect_call_ids(calls);
    let count = calls.len();
    let n = messages.len();
    let mut answered: Vec<String> = Vec::new();
    let mut results: Vec<InputMessage> = Vec::new();
    let mut j: usize = 0;
    assert(crate::text::strings_view(answered@) =~= ids_answered(ms, i as int, 0));
    assert(messages_view(results@) =~= Seq::<MessageView>::empty());
    while j < count
        invariant
            ms == messages@,
            count == calls@.len(),
            n == ms.len(),
            results@.len() == j,
            i < ms.len(),
            j <= count,
            i + 1 + j <= ms.len(),
            crate::text::strings_view(ids@) == request_call_ids(calls@),
            crate::text::strings_view(answered@) == ids_answered(ms, i as int, j as int),
            tool_results_spec(ms, i as int, calls@, j as int) == Ok::<Seq<MessageView>, Seq<char>>(messages_view(results@)),
        decreases count - j,
    {
        let k = i + 1 + j;
        if k >= n {
            proof {
                lemma_tool_results_err(ms, i as int, calls@, j + 1, count as int);
            }
            return Err(insufficient_error());
        }
        match &messages[k] {
            ChatCompletionRequestMessage::Tool { content, tool_call_id } => {
                if !crate::text::strings_contain(&ids, tool_call_id.as_str()) {
                    proof {
                        lemma_tool_results_err(ms, i as int, calls@, j + 1, count as int);
                    }
                    return Err(ConversionError::bad_request(concat3(
                        "An assistant message with 'tool_calls' must be followed by tool messages responding to each 'tool_call_id'.",
                        " Unexpected tool_call_id: ",
                        tool_call_id.as_str(),
                    )));
                }
                if crate::text::strings_contain(&answered, tool_call_id.as_str()) {
                    proof {
                        lemma_tool_results_err(ms, i as int, calls@, j + 1, count as int);
                    }
                    return Err(duplicate_id_error(tool_call_id.as_str(), k));
                }
                let ghost before_answered = answered@;
                answered.push(tool_call_id.clone());
                assert(crate::text::strings_view(answered@) =~= crate::text::strings_view(before_answered).push(tool_call_id@));
                assert(tool_id_of(ms[k as int]) == tool_call_id@);
                assert(crate::text::strings_view(answered@) =~= ids_answered(ms, i as int, j + 1));
                let mp = message_path_exec(k);
                let path = concat(mp.as_str(), ".content");
                match content.into_content(path.as_str()) {
                    Err(e) => {
                        proof {
                            lemma_tool_results_err(ms, i as int, calls@, j + 1, count as int);
                        }
                        return Err(e);
                    },
                    Ok((text, images)) => {
                        let ghost before = results@;
                        results.push(InputMessage::Tool { content: text, image_sources: images, tool_call_id: tool_call_id.clone() });
                        assert(messages_view(results@) =~= messages_view(before).push(results@[j as int]@));
                    },
                }
            },
            _ => {
                proof {
                    lemma_tool_results_err(ms, i as int, calls@, j + 1, count as int);
                }
                return Err(insufficient_error());
            },
        }
        j += 1;
    }
    Ok(results)
}

/// The messages that the assistant message `i` and the tool messages that
/// answer it become, with the index of the next message, or the first error.
pub open spec fn assistant_spec(msgs: Seq<ChatCompletionRequestMessage>, i: int) -> Result<(Seq<MessageView>, int), Seq<char>> {
    match msgs[i] {
        ChatCompletionRequestMessage::Assistant { content, reasoning_content, tool_calls } => if content is None
            && tool_calls is None {
            Err("Invalid assistant message: content or tool_calls must be set"@)
        } else {
            let text = match content {
                Some(c) => text_spec(c, message_path(i), "assistant"@),
                None => Ok(Seq::empty()),
            };
            match text {
                Err(e) => Err(e),
                Ok(t) => match tool_calls {
                    None => Ok(
                        (
                            seq![MessageView::Assistant { content: t, reasoning_content: crate::conversation::opt_view(reasoning_content), tool_calls: None }],
                            i + 1,
                        ),
                    ),
                    Some(calls) => if calls@.len() == 0 {
                        Err(empty_calls_detail(message_path(i)))
                    } else {
                        match first_duplicate(calls@, calls@.len() as int) {
                            Some(k) => Err(duplicate_id_detail(calls@[k].id@, i)),
                            None => match tool_results_spec(msgs, i, calls@, calls@.len() as int) {
                                Err(e) => Err(e),
                                Ok(rs) => Ok(
                                    (
                                        seq![
                                            MessageView::Assistant {
                                                content: t,
                                                reasoning_content: crate::conversation::opt_view(reasoning_content),
                                                tool_calls: Some(request_calls_view(calls@)),
                                            },
                                        ] + rs,
                                        i + 1 + calls@.len(),
                                    ),
                                ),
                            },
                        }
                    },
                },
            }
        },
        _ => Err(Seq::empty()),
    }
}

/// The messages that message `i` becomes, with the index of the next
/// message, or its error.
pub open spec fn step_spec(msgs: Seq<ChatCompletionRequestMessage>, i: int) -> Result<(Seq<MessageView>, int), Seq<char>> {
    match msgs[i] {
        ChatCompletionRequestMessage::System { content } => match text_spec(content, message_path(i), "system"@) {
            Err(e) => Err(e),
            Ok(t) => Ok(
                (if t.len() == 0 { Seq::empty() } else { seq![MessageView::System { content: t }] }, i + 1),
            ),
        },
        ChatCompletionRequestMessage::User { content } => match content_spec(content, message_path(i)) {
            Err(e) => Err(e),
            Ok((c, imgs)) => Ok((seq![MessageView::User { content: c, image_sources: imgs }], i + 1)),
        },
        ChatCompletionRequestMessage::Assistant { .. } => assistant_spec(msgs, i),
        ChatCompletionRequestMessage::Tool { .. } => Err(
            "Messages with role 'tool' must be a response to a preceding message with 'tool_calls'"@,
        ),
        ChatCompletionRequestMessage::LatestReminder { content } => Ok(
            (seq![MessageView::LatestReminder { content: content@ }], i + 1),
        ),
    }
}

/// The messages that the messages from index `i` on become, or the first
/// error.
pub open spec fn transform_from(msgs: Seq<ChatCompletionRequestMessage>, i: int) -> Result<Seq<MessageView>, Seq<char>>
    decreases msgs.len() - i,
{
    if i < 0 || i >= msgs.len() {
        Ok(Seq::empty())
    } else {
        match step_spec(msgs, i) {
            Err(e) => Err(e),
            Ok((out, next)) => if next <= i || next > msgs.len() {
                Ok(out)
            } else {
                match transform_from(msgs, next) {
                    Err(e) => Err(e),
                    Ok(rest) => Ok(out + rest),
                }
            },
        }
    }
}

/// The conversation messages of a request, or its first error.
pub open spec fn transform_spec(msgs: Seq<ChatCompletionRequestMessage>) -> Result<Seq<MessageView>, Seq<char>> {
    if msgs.len() == 0 {
        Err("Empty input messages"@)
    } else if exists|i: int| 0 <= i < msgs.len() && #[trigger] message_has_token(msgs[i]) {
        Err(crate::validation::image_token_detail())
    } else {
        transform_from(msgs, 0)
    }
}

/// `out` followed by what `r` gives.
pub open spec fn prepend(out: Seq<MessageView>, r: Result<Seq<MessageView>, Seq<char>>) -> Result<Seq<MessageView>, Seq<char>> {
    match r {
        Ok(rest) => Ok(out + rest),
        Err(e) => Err(e),
    }
}

/// The value of converted messages and the next index.
pub open spec fn step_view(p: (Vec<InputMessage>, usize)) -> (Seq<MessageView>, int) {
    (messages_view(p.0@), p.1 as int)
}

/// Convert the assistant message `i` and the tool messages that answer it.
fn convert_assistant_at(messages: &Vec<ChatCompletionRequestMessage>, i: usize) -> (r: Result<(Vec<InputMessage>, usize), ConversionError>)
    requires
        i < messages@.len(),
        messages@[i as int] is Assistant,
    ensures
        result_is(r, assistant_spec(messages@, i as int), |p: (Vec<InputMessage>, usize)| step_view(p)),
        r matches Ok(p) ==> i < p.1 <= messages@.len(),
{
    let n = messages.len();
    match &messages[i] {
        ChatCompletionRequestMessage::Assistant { content, reasoning_content, tool_calls } => {
            if content.is_none() && tool_calls.is_none() {
                return Err(ConversionError::bad_request("Invalid assistant message: content or tool_calls must be set".to_string()));
            }
            let path = message_path_exec(i);
            let text = match content {
                Some(c) => match c.into_text(path.as_str(), "assistant") {
                    Ok(t) => t,
                    Err(e) => {
                        return Err(e);
                    },
                },
                None => String::new(),
            };
            let reasoning = crate::conversation::duplicate_opt(reasoning_content);
            match tool_calls {
                None => {
                    let mut out: Vec<InputMessage> = Vec::new();
                    out.push(InputMessage::Assistant { content: text, reasoning_content: reasoning, tool_calls: None });
                    assert(messages_view(out@) =~= seq![out@[0]@]);
                    Ok((out, i + 1))
                },
                Some(calls) => {
                    if calls.len() == 0 {
                        let detail = concat3("Invalid '", path.as_str(), ".tool_calls': empty array. Expected an array with minimum length 1, but got an empty array instead.");
                        return Err(ConversionError::bad_request(detail));
                    }
                    match find_duplicate_call(calls) {
                        Some(k) => {
                            return Err(duplicate_id_error(calls[k].id.as_str(), i));
                        },
                        None => {},
                    }
                    let results = match convert_tool_results(messages, i, calls) {
                        Ok(v) => v,
                        Err(e) => {
                            return Err(e);
                        },
                    };
                    let mut converted: Vec<crate::conversation::ToolCall> = Vec::new();
                    let mut k: usize = 0;
                    while k < calls.len()
                        invariant
                            k <= calls@.len(),
                            converted@.len() == k,
                            crate::conversation::calls_view(converted@) == request_calls_view(calls@).take(k as int),
                        decreases calls@.len() - k,
                    {
                        let ghost before = converted@;
                        converted.push(crate::conversation::ToolCall {
                            id: calls[k].id.clone(),
                            name: calls[k].function.name.clone(),
                            arguments: calls[k].function.arguments.clone(),
                        });
                        assert(crate::conversation::calls_view(converted@) =~= crate::conversation::calls_view(before).push(converted@[k as int]@));
                        assert(request_calls_view(calls@).take(k + 1) =~= request_calls_view(calls@).take(k as int).push(request_calls_view(calls@)[k as int]));
                        k += 1;
                    }
                    assert(request_calls_view(calls@).take(calls@.len() as int) =~= request_calls_view(calls@));
                    let mut out: Vec<InputMessage> = Vec::new();
                    out.push(InputMessage::Assistant { content: text, reasoning_content: reasoning, tool_calls: Some(converted) });
                    let ghost head = messages_view(out@);
                    let ghost rv = messages_view(results@);
                    assert(head =~= seq![
                        MessageView::Assistant {
                            content: text@,
                            reasoning_content: crate::conversation::opt_view(*reasoning_content),
                            tool_calls: Some(request_calls_view(calls@)),
                        },
                    ]);
                    assert(tool_results_spec(messages@, i as int, calls@, calls@.len() as int) == Ok::<Seq<MessageView>, Seq<char>>(rv));
                    assert(first_duplicate(calls@, calls@.len() as int) is None);
                    let mut results = results;
                    out.append(&mut results);
                    assert(messages_view(out@) =~= head + rv);
                    Ok((out, i + 1 + calls.len()))
                },
            }
        },
        _ => Err(ConversionError::bad_request(String::new())),
    }
}

/// Convert message `i`, and for an assistant message the tool messages that
/// answer it.
fn convert_message_at(messages: &Vec<ChatCompletionRequestMessage>, i: usize) -> (r: Result<(Vec<InputMessage>, usize), ConversionError>)
    requires
        i < messages@.len(),
    ensures
        result_is(r, step_spec(messages@, i as int), |p: (Vec<InputMessage>, usize)| step_view(p)),
        r matches Ok(p) ==> i < p.1 <= messages@.len(),
{
    let n = messages.len();
    let mut out: Vec<InputMessage> = Vec::new();
    match &messages[i] {
        ChatCompletionRequestMessage::System { content } => {
            let path = message_path_exec(i);
            let text = match content.into_text(path.as_str(), "system") {
                Ok(t) => t,
                Err(e) => {
                    return Err(e);
                },
            };
            if !text.as_str().is_empty() {
                out.push(InputMessage::System { content: text });
                assert(messages_view(out@) =~= seq![out@[0]@]);
            } else {
                assert(messages_view(out@) =~= Seq::<MessageView>::empty());
            }
            Ok((out, i + 1))
        },
        ChatCompletionRequestMessage::User { content } => {
            let path = message_path_exec(i);
            match content.into_content(path.as_str()) {
                Ok((text, images)) => {
                    out.push(InputMessage::User { content: text, image_sources: images });
                    assert(messages_view(out@) =~= seq![out@[0]@]);
                    Ok((out, i + 1))
                },
                Err(e) => Err(e),
            }
        },
        ChatCompletionRequestMessage::Assistant { .. } => convert_assistant_at(messages, i),
        ChatCompletionRequestMessage::Tool { .. } => Err(
            ConversionError::bad_request(
                "Messages with role 'tool' must be a response to a preceding message with 'tool_calls'".to_string(),
            ),
        ),
        ChatCompletionRequestMessage::LatestReminder { content } => {
            out.push(InputMessage::LatestReminder { content: content.clone() });
            assert(messages_view(out@) =~= seq![out@[0]@]);
            Ok((out, i + 1))
        },
    }
}

/// Convert request messages into conversation messages.
///
/// An assistant message with tool calls must be followed by one tool message
/// per call; those tool messages follow the converted assistant message.
pub fn transform_messages(messages: Vec<ChatCompletionRequestMessage>) -> (r: Result<Vec<InputMessage>, ConversionError>)
    ensures
        result_is(r, transform_spec(messages@), |v: Vec<InputMessage>| messages_view(v@)),
{
    if messages.len() == 0 {
        return Err(ConversionError::bad_request("Empty input messages".to_string()));
    }
    if messages_contain_image_special_token(&messages) {
        return Err(image_special_token_not_allowed());
    }
    let ghost ms = messages@;
    let n = messages.len();
    let mut result: Vec<InputMessage> = Vec::new();
    let mut i: usize = 0;
    assert(prepend(messages_view(result@), transform_from(ms, 0)) =~= transform_from(ms, 0)) by {
        assert(messages_view(result@) =~= Seq::<MessageView>::empty());
        match transform_from(ms, 0) {
            Ok(x) => {
                assert(Seq::<MessageView>::empty() + x =~= x);
            },
            Err(_) => {},
        }
    }
    while i < n
        invariant
            ms == messages@,
            n == ms.len(),
            i <= n,
            transform_spec(ms) == transform_from(ms, 0),
            transform_from(ms, 0) == prepend(messages_view(result@), transform_from(ms, i as int)),
        decreases n - i,
    {
        match convert_message_at(&messages, i) {
            Err(e) => {
                return Err(e);
            },
            Ok((out, next)) => {
                let ghost before = messages_view(result@);
                let ghost ov = messages_view(out@);
                let mut out = out;
                result.append(&mut out);
                assert(messages_view(result@) =~= before + ov);
                proof {
                    match transform_from(ms, next as int) {
                        Ok(rest) => {
                            assert(before + (ov + rest) =~= (before + ov) + rest);
                        },
                        Err(_) => {},
                    }
                }
                i = next;
            },
        }
    }
    assert(transform_from(ms, n as int) == Ok::<Seq<MessageView>, Seq<char>>(Seq::empty()));
    assert(messages_view(result@) + Seq::<MessageView>::empty() =~= messages_view(result@));
    Ok(result)
}

// ---------------------------------------------------------------------------
// Conversion

/// The prompt format a response format asks for, or its error.
pub open spec fn response_format_spec(msgs: Seq<MessageView>, rf: Option<ChatCompletionResponseFormat>) -> Result<ResponseFormat, Seq<char>> {
    match rf {
        Some(ChatCompletionResponseFormat::JsonObject) => if crate::validation::messages_mention_json(msgs) {
            Ok(ResponseFormat::JsonObject)
        } else {
            Err(
                "Prompt must contain the word 'json' in some form to use 'response_format' of type 'json_object'."@,
            )
        },
        Some(ChatCompletionResponseFormat::Regex { .. }) => Err("response_format: only text and json_object are supported"@),
        _ => Ok(ResponseFormat::Text),
    }
}

/// Convert the requested response format.
pub fn convert_response_format(messages: &Vec<InputMessage>, response_format: Option<ChatCompletionResponseFormat>) -> (r: Result<ResponseFormat, ConversionError>)
    ensures
        result_is(r, response_format_spec(messages_view(messages@), response_format), |f: ResponseFormat| f),
{
    match response_format {
        Some(ChatCompletionResponseFormat::JsonObject) => {
            if !contains_json_instruction(messages) {
                return Err(ConversionError::bad_request(
                    "Prompt must contain the word 'json' in some form to use 'response_format' of type 'json_object'.".to_string(),
                ));
            }
            Ok(ResponseFormat::JsonObject)
        },
        Some(ChatCompletionResponseFormat::Regex { .. }) => Err(
            ConversionError::bad_request("response_format: only text and json_object are supported".to_string()),
        ),
        _ => Ok(ResponseFormat::Text),
    }
}

/// The first failure of the inference settings of a request.
pub open spec fn inference_failure(req: ChatCompletionRequest) -> Option<Failure> {
    if req.n is Some && req.n->0 != 1 {
        Some(Failure::Detail("Invalid n value (currently only n = 1 is supported)"@))
    } else if req.penalty_error is Some {
        Some(Failure::Error(req.penalty_error->0))
    } else if req.max_tokens == Some(0u32) {
        Some(Failure::Detail("max_tokens"@ + " must be greater than zero"@))
    } else if req.sampling_error is Some {
        Some(Failure::Error(req.sampling_error->0))
    } else if req.seed is Some && req.seed->0 >= 0x8000_0000_0000_0000u64 {
        Some(Failure::Detail("seed must be in [0, 2^63)"@))
    } else {
        None
    }
}

/// The tool declarations of a request.
pub open spec fn request_tools(req: ChatCompletionRequest) -> Seq<ChatCompletionTool> {
    match req.tools {
        Some(v) => v@,
        None => Seq::empty(),
    }
}

/// The first failure of the conversion of a request, if any: inference
/// settings, then stop and stream settings, tools, messages, the image
/// placeholder in tools and tool calls, and the response format.
pub open spec fn convert_failure(req: ChatCompletionRequest, options: ConversionOptions) -> Option<Failure> {
    let thinking = thinking_of(req, options.default_thinking_mode);
    if inference_failure(req) is Some {
        inference_failure(req)
    } else {
        match api_params_outcome(req.stop, req.stream, req.stream_options) {
            Err(d) => Some(Failure::Detail(d)),
            Ok(_) => match tools_spec(request_tools(req), req.tool_choice, thinking) {
                Err(e) => Some(crate::validation::failure_of(e)),
                Ok((defs, _)) => match transform_spec(req.messages@) {
                    Err(d) => Some(Failure::Detail(d)),
                    Ok(mv) => if crate::validation::tool_text_bad(defs, mv) {
                        Some(Failure::Detail(crate::validation::image_token_detail()))
                    } else {
                        match response_format_spec(mv, req.response_format) {
                            Err(d) => Some(Failure::Detail(d)),
                            Ok(_) => None,
                        }
                    },
                },
            },
        }
    }
}

/// The conversation request of a request that converts: its messages,
/// tools, settings and parsing options.
pub open spec fn converted(req: ChatCompletionRequest, options: ConversionOptions, out: ConversationRequest) -> bool {
    let thinking = thinking_of(req, options.default_thinking_mode);
    let tools = tools_spec(request_tools(req), req.tool_choice, thinking)->Ok_0;
    let mv = transform_spec(req.messages@)->Ok_0;
    let rf = response_format_spec(mv, req.response_format)->Ok_0;
    &&& messages_view(out.conversation.messages@) == mv
    &&& out.conversation.thinking_mode == thinking
    &&& tools_view(out.conversation.tools@) == tools.0
    &&& out.conversation.tool_choice == tools.1
    &&& out.conversation.reasoning_effort == (if thinking { Some(effort_when_thinking(req)) } else { None::<ReasoningEffort> })
    &&& out.conversation.response_format == rf
    &&& out.parsing_options.parse_tool_calls == (tools.0.len() > 0 && tools.1 != ToolChoice::Disabled)
    &&& out.parsing_options.tool_call_initial_stage == (tools.1 == ToolChoice::Required)
    &&& out.parsing_options.parse_json_output == (rf == ResponseFormat::JsonObject)
    &&& out.parsing_options.reasoning_initial_stage == (if thinking { Some(ReasoningStage::Start) } else { None::<ReasoningStage> })
    &&& crate::text::strings_view(out.parsing_options.stop_sequences@) == stop_view(req.stop)
    &&& out.max_tokens == req.max_tokens
    &&& out.thinking_budget_tokens is None
    &&& out.disable_parallel_tool_use is None
    &&& out.model matches Some(m) && m@ == req.model@
    &&& out.stream == (req.stream == Some(true))
}

impl ChatCompletionRequest {
    /// Validate and convert the supported request fields.
    pub fn convert(self, options: ConversionOptions) -> (r: Result<ConversationRequest, ConversionError>)
        ensures
            match convert_failure(self, options) {
                Some(f) => fails_as(r, f),
                None => r matches Ok(out) && converted(self, options, out),
            },
    {
        let ghost req = self;
        let (thinking_mode, reasoning_effort) = self.resolve_thinking(options);
        let mut parsing_options = self.parsing_options(thinking_mode);
        let max_tokens = match self.inference_options() {
            Ok(m) => m,
            Err(e) => {
                return Err(e);
            },
        };
        if let Err(e) = validate_api_params(self.stop.as_ref(), self.stream, self.stream_options.as_ref()) {
            return Err(e);
        }
        let ChatCompletionRequest { messages, model, stream, response_format, tools, tool_choice, .. } = self;
        let (tools, tool_choice) = match convert_tools(tools, tool_choice, thinking_mode) {
            Ok(p) => p,
            Err(e) => {
                return Err(e);
            },
        };
        parsing_options.parse_tool_calls = tools.len() > 0 && tool_choice != ToolChoice::Disabled;
        parsing_options.tool_call_initial_stage = tool_choice == ToolChoice::Required;
        let messages = match transform_messages(messages) {
            Ok(m) => m,
            Err(e) => {
                return Err(e);
            },
        };
        if let Err(e) = validate_tool_text(&tools, &messages) {
            return Err(e);
        }
        let response_format = match convert_response_format(&messages, response_format) {
            Ok(f) => f,
            Err(e) => {
                return Err(e);
            },
        };
        parsing_options.parse_json_output = response_format == ResponseFormat::JsonObject;
        Ok(ConversationRequest {
            conversation: Conversation {
                messages,
                thinking_mode,
                tools,
                tool_choice,
                reasoning_effort,
                response_format,
            },
            parsing_options,
            max_tokens,
            thinking_budget_tokens: None,
            disable_parallel_tool_use: None,
            model: Some(model),
            stream: stream == Some(true),
        })
    }
}

} // verus!
