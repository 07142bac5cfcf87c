//! OpenAI Responses requests: deserialized input and its conversion.
//!
//! [`ResponsesRequest`] supports text, images, plaintext reasoning history,
//! instructions, reasoning effort, and JSON object output. Client tools
//! include functions, namespaces, and the `apply_patch` custom tool.
//!
//! Input text must not spell out the image placeholder: text input,
//! instructions, message text, tool output text, reasoning text, tool
//! definitions, and historical tool calls that carry the placeholder
//! spelling are rejected.

use vstd::prelude::*;

use crate::chat_completion::image_url_spec;
use crate::conversation::{MessageView, opt_view, sources_view};
use crate::encoding::join;
use crate::image_input::{file_id_unsupported, image_not_allowed, image_url_source};
use crate::json::JsonValue;
use crate::multimodal::{IMAGE_SPECIAL_TOKEN, ImageDetail, ImageSource, ImageSourceView};
use crate::request::ConversionError;
use crate::text::{append_chars, append_str, concat, decimal, decimal_chars, string_of, strings_view};
use crate::validation::{
    UNSUPPORTED_DOCUMENT_PLACEHOLDER, bad_request_with, contains_image_token, fails_with, has_image_token, result_is,
};

verus! {

// ---------------------------------------------------------------------------
// Request

/// A Responses request with text and image input and client tools.
///
/// Unknown top-level fields, including `logprobs` and `top_logprobs`, are
/// ignored. Model resolution, server tools, and encrypted reasoning
/// recovery belong to the caller. The floating-point sampling fields are
/// checked by the caller, which passes the outcome in `sampling_error`.
#[derive(Debug)]
pub struct ResponsesRequest {
    pub model: String,
    pub input: Option<ResponsesInput>,
    pub instructions: Option<String>,
    pub max_output_tokens: Option<u32>,
    pub reasoning: Option<ResponsesReasoningConfig>,
    pub stream: Option<bool>,
    /// The error of the `temperature` and `top_p` range check.
    pub sampling_error: Option<ConversionError>,
    pub text: Option<ResponsesTextConfig>,
    pub tool_choice: Option<ResponsesToolChoice>,
    pub tools: Option<Vec<ResponsesTool>>,
    /// Caller metadata. Extract this before consuming the request.
    pub user: Option<String>,
}

/// Input: one string or a list of items.
#[derive(Debug)]
pub enum ResponsesInput {
    String(String),
    Items(Vec<ResponsesInputItem>),
}

/// An explicitly typed item or a message without a `type` field.
#[derive(Debug)]
pub enum ResponsesInputItem {
    Typed(ResponsesTypedInputItem),
    Message(ResponsesInputMessage),
}

/// An input item with a `type` field.
#[derive(Debug)]
pub enum ResponsesTypedInputItem {
    Message(ResponsesInputMessage),
    FunctionCall(ResponsesFunctionCall),
    FunctionCallOutput(ResponsesFunctionCallOutput),
    Reasoning(ResponsesReasoningItem),
    CustomToolCall(ResponsesCustomToolCall),
    CustomToolCallOutput(ResponsesCustomToolCallOutput),
    /// Unsupported item types, including `web_search_call`, are ignored.
    Unsupported,
}

/// An input message.
#[derive(Debug)]
pub struct ResponsesInputMessage {
    pub role: ResponsesMessageRole,
    pub content: ResponsesMessageContent,
}

/// The role of an input message.
#[derive(Debug, Clone, Copy, PartialEq, Eq, Structural)]
pub enum ResponsesMessageRole {
    User,
    Assistant,
    System,
    Developer,
}

/// Message content: one string or a list of blocks.
#[derive(Debug)]
pub enum ResponsesMessageContent {
    String(String),
    List(Vec<ResponsesContentBlock>),
}

/// One block of message content.
#[derive(Debug)]
pub enum ResponsesContentBlock {
    InputText { text: String },
    OutputText { text: String },
    InputImage(ResponsesInputImage),
    /// Documents are rendered as an unsupported-document placeholder. Every
    /// field is accepted and ignored.
    InputFile,
    /// Content block types not listed above are rejected during conversion.
    Unsupported,
}

/// One image referenced by URL or by a file identifier. A file identifier
/// requires a file service and is rejected during conversion.
#[derive(Debug)]
pub struct ResponsesInputImage {
    /// HTTP URL or base64 data URL. An empty string is treated as absent,
    /// and a value that does not start with `http` must carry a `base64`
    /// body.
    pub image_url: Option<String>,
    pub detail: Option<ImageDetail>,
    pub file_id: Option<String>,
}

/// A historical function call.
#[derive(Debug)]
pub struct ResponsesFunctionCall {
    pub arguments: String,
    pub call_id: String,
    pub name: String,
    pub namespace: Option<String>,
}

/// The output of a function call.
#[derive(Debug)]
pub struct ResponsesFunctionCallOutput {
    pub call_id: String,
    pub output: ResponsesToolCallOutputContent,
}

/// Tool output: one string or a list of items.
#[derive(Debug)]
pub enum ResponsesToolCallOutputContent {
    String(String),
    List(Vec<ResponsesToolCallOutputItem>),
}

/// One item of tool output.
#[derive(Debug)]
pub enum ResponsesToolCallOutputItem {
    InputText { text: String },
    InputImage(ResponsesInputImage),
    /// Documents are rendered as an unsupported-document placeholder. Every
    /// field is accepted and ignored.
    InputFile,
    /// Content block types not listed above are rejected during conversion.
    Unsupported,
}

/// A historical reasoning item.
#[derive(Debug)]
pub struct ResponsesReasoningItem {
    pub content: Option<Vec<ResponsesReasoningContent>>,
    /// Encrypted reasoning is ignored; plaintext reasoning is preserved.
    pub encrypted_content: Option<String>,
}

/// Reasoning text.
#[derive(Debug)]
pub struct ResponsesReasoningContent {
    pub text: String,
}

/// A historical custom tool call.
#[derive(Debug)]
pub struct ResponsesCustomToolCall {
    pub call_id: String,
    pub name: String,
    pub input: String,
}

/// The output of a custom tool call.
#[derive(Debug)]
pub struct ResponsesCustomToolCallOutput {
    pub call_id: String,
    pub output: Option<ResponsesToolCallOutputContent>,
}

/// Reasoning settings.
#[derive(Debug)]
pub struct ResponsesReasoningConfig {
    pub effort: Option<ResponsesReasoningEffort>,
    /// Summary setting available to the caller before conversion.
    pub summary: Option<ResponsesReasoningSummary>,
    /// Alternate summary setting available to the caller before conversion.
    pub generate_summary: Option<ResponsesReasoningSummary>,
}

/// The requested reasoning effort.
#[derive(Debug, Clone, Copy, PartialEq, Eq, Structural)]
pub enum ResponsesReasoningEffort {
    /// No reasoning (`none` on the wire).
    Off,
    Minimal,
    Low,
    Medium,
    High,
    Xhigh,
    Max,
}

/// The reasoning summary setting.
#[derive(Debug, Clone, Copy, PartialEq, Eq, Structural)]
pub enum ResponsesReasoningSummary {
    Auto,
    Concise,
    Detailed,
}

/// Text output settings.
#[derive(Debug)]
pub struct ResponsesTextConfig {
    pub format: ResponsesTextFormat,
    /// Verbosity setting available to the caller before conversion.
    pub verbosity: Option<ResponsesVerbosity>,
}

/// The text output format.
#[derive(Debug, Clone, Copy, PartialEq, Eq, Structural)]
pub enum ResponsesTextFormat {
    Text,
    JsonObject,
    /// Accepted and ignored, including all schema fields. Uses plain text
    /// output.
    JsonSchema,
}

impl Default for ResponsesTextFormat {
    fn default() -> (r: ResponsesTextFormat)
        ensures
            r == ResponsesTextFormat::Text,
    {
        ResponsesTextFormat::Text
    }
}

/// The verbosity setting.
#[derive(Debug, Clone, Copy, PartialEq, Eq, Structural)]
pub enum ResponsesVerbosity {
    Low,
    Medium,
    High,
}

/// A tool declaration.
#[derive(Debug)]
pub enum ResponsesTool {
    Function(ResponsesFunctionTool),
    Namespace { name: String, description: Option<String>, tools: Vec<ResponsesNamespaceTool> },
    /// The `apply_patch` custom tool is converted to a function tool.
    Custom { name: String },
    WebSearch,
    Unsupported,
}

/// A function tool.
#[derive(Debug)]
pub struct ResponsesFunctionTool {
    pub name: String,
    pub description: Option<String>,
    pub parameters: Option<JsonValue>,
    /// Passed through; backend enforcement belongs to the caller.
    pub strict: Option<bool>,
}

/// A tool inside a namespace.
#[derive(Debug)]
pub enum ResponsesNamespaceTool {
    Function(ResponsesFunctionTool),
    /// Custom tools inside a namespace are rejected during conversion.
    Custom { name: String },
}

/// A tool choice: a mode or a named tool.
#[derive(Debug)]
pub enum ResponsesToolChoice {
    Mode(ResponsesToolChoiceMode),
    Named(ResponsesNamedToolChoice),
}

/// A tool choice mode.
#[derive(Debug, Clone, Copy, PartialEq, Eq, Structural)]
pub enum ResponsesToolChoiceMode {
    /// No tool may be called (`none` on the wire).
    Disabled,
    Auto,
    Required,
}

/// A named tool choice.
#[derive(Debug)]
pub enum ResponsesNamedToolChoice {
    Function { name: String },
    Custom { name: String },
    WebSearch,
}

// ---------------------------------------------------------------------------
// Content

/// The image source an input image becomes, or the detail of its error. An
/// empty URL counts as absent.
pub open spec fn input_image_spec(image: ResponsesInputImage, path: Seq<char>) -> Result<ImageSourceView, Seq<char>> {
    let url = match image.image_url {
        Some(u) => if u@.len() == 0 {
            None
        } else {
            Some(u@)
        },
        None => None,
    };
    match (url, image.file_id) {
        (None, None) => Err(path + ": input_image must have image_url or file_id"@),
        (Some(_), Some(_)) => Err(path + ": input_image cannot have both image_url and file_id"@),
        (None, Some(_)) => Err(path + ": file_id is not supported. Pass the image as a base64 data url instead."@),
        (Some(u), None) => image_url_spec(u, image.detail, path + ".image_url"@),
    }
}

/// Convert one Responses image reference.
pub fn input_image_source(image: &ResponsesInputImage, path: &str) -> (r: Result<ImageSource, ConversionError>)
    ensures
        result_is(r, input_image_spec(*image, path@), |s: ImageSource| s@),
{
    let url = match &image.image_url {
        Some(u) => if u.as_str().is_empty() {
            None
        } else {
            Some(u)
        },
        None => None,
    };
    match (url, &image.file_id) {
        (None, None) => Err(ConversionError::bad_request(concat(path, ": input_image must have image_url or file_id"))),
        (Some(_), Some(_)) => Err(ConversionError::bad_request(concat(path, ": input_image cannot have both image_url and file_id"))),
        (None, Some(_)) => Err(file_id_unsupported(path)),
        (Some(u), None) => {
            let p = concat(path, ".image_url");
            image_url_source(u.clone(), image.detail, p.as_str())
        },
    }
}

/// The text and images of one message block, or the detail of its error.
pub open spec fn message_block_spec(b: ResponsesContentBlock, path: Seq<char>) -> Result<(Seq<char>, Seq<ImageSourceView>), Seq<char>> {
    match b {
        ResponsesContentBlock::InputText { text } => Ok((text@, Seq::empty())),
        ResponsesContentBlock::OutputText { text } => Ok((text@, Seq::empty())),
        ResponsesContentBlock::InputImage(image) => match input_image_spec(image, path) {
            Ok(s) => Ok((IMAGE_SPECIAL_TOKEN@, seq![s])),
            Err(e) => Err(e),
        },
        ResponsesContentBlock::InputFile => Ok((UNSUPPORTED_DOCUMENT_PLACEHOLDER@, Seq::empty())),
        ResponsesContentBlock::Unsupported => Err("Unsupported content block"@),
    }
}

/// The text and images of one output item, or the detail of its error.
pub open spec fn output_item_spec(b: ResponsesToolCallOutputItem, path: Seq<char>) -> Result<(Seq<char>, Seq<ImageSourceView>), Seq<char>> {
    match b {
        ResponsesToolCallOutputItem::InputText { text } => Ok((text@, Seq::empty())),
        ResponsesToolCallOutputItem::InputImage(image) => match input_image_spec(image, path) {
            Ok(s) => Ok((IMAGE_SPECIAL_TOKEN@, seq![s])),
            Err(e) => Err(e),
        },
        ResponsesToolCallOutputItem::InputFile => Ok((UNSUPPORTED_DOCUMENT_PLACEHOLDER@, Seq::empty())),
        ResponsesToolCallOutputItem::Unsupported => Err("Unsupported content block"@),
    }
}

/// The path of message block `i` of the message at `path`.
pub open spec fn block_path(path: Seq<char>, i: int) -> Seq<char> {
    path + ".content["@ + decimal(i as nat) + "]"@
}

/// The path of item `i` of the output at `path`.
pub open spec fn item_path(path: Seq<char>, i: int) -> Seq<char> {
    path + "["@ + decimal(i as nat) + "]"@
}

/// The texts and images of the first `n` message blocks, or the first
/// error.
pub open spec fn message_blocks_spec(blocks: Seq<ResponsesContentBlock>, path: Seq<char>, n: int) -> Result<(Seq<Seq<char>>, Seq<ImageSourceView>), Seq<char>>
    decreases n,
{
    if n <= 0 {
        Ok((Seq::empty(), Seq::empty()))
    } else {
        match message_blocks_spec(blocks, path, n - 1) {
            Err(e) => Err(e),
            Ok((texts, images)) => match message_block_spec(blocks[n - 1], block_path(path, n - 1)) {
                Err(e) => Err(e),
                Ok((t, imgs)) => Ok((texts.push(t), images + imgs)),
            },
        }
    }
}

/// The texts and images of the first `n` output items, or the first error.
pub open spec fn output_items_spec(items: Seq<ResponsesToolCallOutputItem>, path: Seq<char>, n: int) -> Result<(Seq<Seq<char>>, Seq<ImageSourceView>), Seq<char>>
    decreases n,
{
    if n <= 0 {
        Ok((Seq::empty(), Seq::empty()))
    } else {
        match output_items_spec(items, path, n - 1) {
            Err(e) => Err(e),
            Ok((texts, images)) => match output_item_spec(items[n - 1], item_path(path, n - 1)) {
                Err(e) => Err(e),
                Ok((t, imgs)) => Ok((texts.push(t), images + imgs)),
            },
        }
    }
}

/// Once a message block fails, the blocks that follow keep its error.
proof fn lemma_message_blocks_err(blocks: Seq<ResponsesContentBlock>, path: Seq<char>, n: int, m: int)
    requires
        0 <= n <= m,
        message_blocks_spec(blocks, path, n) is Err,
    ensures
        message_blocks_spec(blocks, path, m) == message_blocks_spec(blocks, path, n),
    decreases m - n,
{
    if n < m {
        lemma_message_blocks_err(blocks, path, n, m - 1);
    }
}

/// Once an output item fails, the items that follow keep its error.
proof fn lemma_output_items_err(items: Seq<ResponsesToolCallOutputItem>, path: Seq<char>, n: int, m: int)
    requires
        0 <= n <= m,
        output_items_spec(items, path, n) is Err,
    ensures
        output_items_spec(items, path, m) == output_items_spec(items, path, n),
    decreases m - n,
{
    if n < m {
        lemma_output_items_err(items, path, n, m - 1);
    }
}

/// The text and images of message content, or the detail of its error.
pub open spec fn message_content_spec(c: ResponsesMessageContent, path: Seq<char>) -> Result<(Seq<char>, Seq<ImageSourceView>), Seq<char>> {
    match c {
        ResponsesMessageContent::String(s) => Ok((s@, Seq::empty())),
        ResponsesMessageContent::List(blocks) => match message_blocks_spec(blocks@, path, blocks@.len() as int) {
            Ok((texts, images)) => Ok((join(texts, "\n\n"@), images)),
            Err(e) => Err(e),
        },
    }
}

/// The text of message content that may not carry images, or the detail
/// of its error.
pub open spec fn message_text_spec(c: ResponsesMessageContent, path: Seq<char>, role: Seq<char>) -> Result<Seq<char>, Seq<char>> {
    match message_content_spec(c, path) {
        Err(e) => Err(e),
        Ok((t, images)) => if images.len() > 0 {
            Err("Image in "@ + role + " message is unsupported"@)
        } else {
            Ok(t)
        },
    }
}

/// The text and images of tool output, or the detail of its error.
pub open spec fn output_content_spec(c: ResponsesToolCallOutputContent, path: Seq<char>) -> Result<(Seq<char>, Seq<ImageSourceView>), Seq<char>> {
    match c {
        ResponsesToolCallOutputContent::String(s) => Ok((s@, Seq::empty())),
        ResponsesToolCallOutputContent::List(items) => match output_items_spec(items@, path, items@.len() as int) {
            Ok((texts, images)) => Ok((join(texts, "\n\n"@), images)),
            Err(e) => Err(e),
        },
    }
}

/// The value of converted content.
pub open spec fn pair_view(p: (String, Vec<ImageSource>)) -> (Seq<char>, Seq<ImageSourceView>) {
    (p.0@, sources_view(p.1@))
}

/// Returns the path with a bracketed index, after `middle`.
fn indexed(path: &str, middle: &str, i: usize) -> (r: String)
    ensures
        r@ == path@ + middle@ + decimal(i as nat) + "]"@,
{
    let mut out: Vec<char> = Vec::new();
    append_str(&mut out, path);
    append_str(&mut out, middle);
    let d = decimal_chars(i);
    append_chars(&mut out, d.as_slice());
    append_str(&mut out, "]");
    assert(out@ =~= path@ + middle@ + decimal(i as nat) + "]"@);
    string_of(out.as_slice())
}

/// Returns text and no images.
fn text_only(text: String) -> (r: (String, Vec<ImageSource>))
    ensures
        pair_view(r) == (text@, Seq::<ImageSourceView>::empty()),
{
    let images: Vec<ImageSource> = Vec::new();
    assert(sources_view(images@) =~= Seq::<ImageSourceView>::empty());
    (text, images)
}

/// Returns the image placeholder and one image.
fn image_only(src: ImageSource) -> (r: (String, Vec<ImageSource>))
    ensures
        pair_view(r) == (IMAGE_SPECIAL_TOKEN@, seq![src@]),
{
    let mut images: Vec<ImageSource> = Vec::new();
    let ghost v = src@;
    images.push(src);
    assert(sources_view(images@) =~= seq![v]);
    (IMAGE_SPECIAL_TOKEN.to_string(), images)
}

/// Returns the unsupported-content error.
fn unsupported_content() -> (r: ConversionError)
    ensures
        bad_request_with(r, "Unsupported content block"@),
{
    ConversionError::bad_request("Unsupported content block".to_string())
}

impl ResponsesContentBlock {
    /// Convert one block.
    fn to_content(&self, path: &str) -> (r: Result<(String, Vec<ImageSource>), ConversionError>)
        ensures
            result_is(r, message_block_spec(*self, path@), |p: (String, Vec<ImageSource>)| pair_view(p)),
    {
        match self {
            ResponsesContentBlock::InputText { text } | ResponsesContentBlock::OutputText { text } => Ok(text_only(text.clone())),
            ResponsesContentBlock::InputImage(image) => match input_image_source(image, path) {
                Ok(s) => Ok(image_only(s)),
                Err(e) => Err(e),
            },
            ResponsesContentBlock::InputFile => Ok(text_only(UNSUPPORTED_DOCUMENT_PLACEHOLDER.to_string())),
            ResponsesContentBlock::Unsupported => Err(unsupported_content()),
        }
    }
}

impl ResponsesToolCallOutputItem {
    /// Convert one output item.
    fn to_content(&self, path: &str) -> (r: Result<(String, Vec<ImageSource>), ConversionError>)
        ensures
            result_is(r, output_item_spec(*self, path@), |p: (String, Vec<ImageSource>)| pair_view(p)),
    {
        match self {
            ResponsesToolCallOutputItem::InputText { text } => Ok(text_only(text.clone())),
            ResponsesToolCallOutputItem::InputImage(image) => match input_image_source(image, path) {
                Ok(s) => Ok(image_only(s)),
                Err(e) => Err(e),
            },
            ResponsesToolCallOutputItem::InputFile => Ok(text_only(UNSUPPORTED_DOCUMENT_PLACEHOLDER.to_string())),
            ResponsesToolCallOutputItem::Unsupported => Err(unsupported_content()),
        }
    }
}

impl ResponsesMessageContent {
    /// Convert text, substitute document placeholders, and collect images
    /// with one [`IMAGE_SPECIAL_TOKEN`] placeholder per image.
    pub fn into_content(&self, path: &str) -> (r: Result<(String, Vec<ImageSource>), ConversionError>)
        ensures
            result_is(r, message_content_spec(*self, path@), |p: (String, Vec<ImageSource>)| pair_view(p)),
    {
        match self {
            ResponsesMessageContent::String(s) => Ok(text_only(s.clone())),
            ResponsesMessageContent::List(blocks) => {
                let mut texts: Vec<String> = Vec::new();
                let mut images: Vec<ImageSource> = Vec::new();
                let mut i: usize = 0;
                assert(strings_view(texts@) =~= Seq::<Seq<char>>::empty());
                assert(sources_view(images@) =~= Seq::<ImageSourceView>::empty());
                while i < blocks.len()
                    invariant
                        i <= blocks@.len(),
                        *self == ResponsesMessageContent::List(*blocks),
                        message_blocks_spec(blocks@, path@, i as int) == Ok::<(Seq<Seq<char>>, Seq<ImageSourceView>), Seq<char>>(
                            (strings_view(texts@), sources_view(images@)),
                        ),
                    decreases blocks@.len() - i,
                {
                    let p = indexed(path, ".content[", i);
                    match blocks[i].to_content(p.as_str()) {
                        Err(e) => {
                            proof {
                                lemma_message_blocks_err(blocks@, path@, i + 1, blocks@.len() as int);
                            }
                            return Err(e);
                        },
                        Ok((t, imgs)) => {
                            let ghost tv = strings_view(texts@);
                            let ghost iv = sources_view(images@);
                            let ghost nv = sources_view(imgs@);
                            texts.push(t);
                            let mut imgs = imgs;
                            images.append(&mut imgs);
                            assert(strings_view(texts@) =~= tv.push(texts@[texts@.len() - 1]@));
                            assert(sources_view(images@) =~= iv + nv);
                        },
                    }
                    i += 1;
                }
                let text = crate::text::join_strings(&texts, "\n\n");
                Ok((text, images))
            },
        }
    }

    /// Convert text and document placeholders, rejecting images.
    pub fn into_text(&self, path: &str, role: &str) -> (r: Result<String, ConversionError>)
        ensures
            result_is(r, message_text_spec(*self, path@, role@), |s: String| s@),
    {
        match self.into_content(path) {
            Err(e) => Err(e),
            Ok((content, images)) => {
                if images.len() > 0 {
                    return Err(image_not_allowed(role));
                }
                Ok(content)
            },
        }
    }
}

impl ResponsesToolCallOutputContent {
    /// Convert text and document placeholders, collecting image sources.
    pub fn into_content(&self, path: &str) -> (r: Result<(String, Vec<ImageSource>), ConversionError>)
        ensures
            result_is(r, output_content_spec(*self, path@), |p: (String, Vec<ImageSource>)| pair_view(p)),
    {
        match self {
            ResponsesToolCallOutputContent::String(s) => Ok(text_only(s.clone())),
            ResponsesToolCallOutputContent::List(items) => {
                let mut texts: Vec<String> = Vec::new();
                let mut images: Vec<ImageSource> = Vec::new();
                let mut i: usize = 0;
                assert(strings_view(texts@) =~= Seq::<Seq<char>>::empty());
                assert(sources_view(images@) =~= Seq::<ImageSourceView>::empty());
                while i < items.len()
                    invariant
                        i <= items@.len(),
                        *self == ResponsesToolCallOutputContent::List(*items),
                        output_items_spec(items@, path@, i as int) == Ok::<(Seq<Seq<char>>, Seq<ImageSourceView>), Seq<char>>(
                            (strings_view(texts@), sources_view(images@)),
                        ),
                    decreases items@.len() - i,
                {
                    let p = indexed(path, "[", i);
                    match items[i].to_content(p.as_str()) {
                        Err(e) => {
                            proof {
                                lemma_output_items_err(items@, path@, i + 1, items@.len() as int);
                            }
                            return Err(e);
                        },
                        Ok((t, imgs)) => {
                            let ghost tv = strings_view(texts@);
                            let ghost iv = sources_view(images@);
                            let ghost nv = sources_view(imgs@);
                            texts.push(t);
                            let mut imgs = imgs;
                            images.append(&mut imgs);
                            assert(strings_view(texts@) =~= tv.push(texts@[texts@.len() - 1]@));
                            assert(sources_view(images@) =~= iv + nv);
                        },
                    }
                    i += 1;
                }
                let text = crate::text::join_strings(&texts, "\n\n");
                Ok((text, images))
            },
        }
    }
}

// ---------------------------------------------------------------------------
// The image placeholder in input text

/// Whether a message block carries the image placeholder.
pub open spec fn message_block_has_token(b: ResponsesContentBlock) -> bool {
    match b {
        ResponsesContentBlock::InputText { text } => has_image_token(text@),
        ResponsesContentBlock::OutputText { text } => has_image_token(text@),
        _ => false,
    }
}

/// Whether one of a list of message blocks carries the image placeholder.
pub open spec fn message_blocks_have_token(blocks: Seq<ResponsesContentBlock>) -> bool {
    exists|i: int| 0 <= i < blocks.len() && #[trigger] message_block_has_token(blocks[i])
}

/// Whether message content carries the image placeholder.
pub open spec fn message_content_has_token(c: ResponsesMessageContent) -> bool {
    match c {
        ResponsesMessageContent::String(s) => has_image_token(s@),
        ResponsesMessageContent::List(blocks) => message_blocks_have_token(blocks@),
    }
}

/// Whether an output item carries the image placeholder.
pub open spec fn output_item_has_token(b: ResponsesToolCallOutputItem) -> bool {
    b matches ResponsesToolCallOutputItem::InputText { text } && has_image_token(text@)
}

/// Whether one of a list of output items carries the image placeholder.
pub open spec fn output_items_have_token(items: Seq<ResponsesToolCallOutputItem>) -> bool {
    exists|i: int| 0 <= i < items.len() && #[trigger] output_item_has_token(items[i])
}

/// Whether tool output carries the image placeholder.
pub open spec fn output_content_has_token(c: ResponsesToolCallOutputContent) -> bool {
    match c {
        ResponsesToolCallOutputContent::String(s) => has_image_token(s@),
        ResponsesToolCallOutputContent::List(items) => output_items_have_token(items@),
    }
}

/// Whether one of a list of reasoning texts carries the image placeholder.
pub open spec fn reasoning_has_token(texts: Seq<ResponsesReasoningContent>) -> bool {
    exists|i: int| 0 <= i < texts.len() && has_image_token(#[trigger] texts[i].text@)
}

/// Whether an input item carries the image placeholder.
pub open spec fn item_has_token(item: ResponsesInputItem) -> bool {
    match item {
        ResponsesInputItem::Message(m) => message_content_has_token(m.content),
        ResponsesInputItem::Typed(t) => match t {
            ResponsesTypedInputItem::Message(m) => message_content_has_token(m.content),
            ResponsesTypedInputItem::FunctionCallOutput(o) => output_content_has_token(o.output),
            ResponsesTypedInputItem::CustomToolCallOutput(o) => o.output matches Some(c) && output_content_has_token(c),
            ResponsesTypedInputItem::Reasoning(r) => r.content matches Some(v) && reasoning_has_token(v@),
            _ => false,
        },
    }
}

/// Whether one of a list of input items carries the image placeholder.
pub open spec fn items_have_token(items: Seq<ResponsesInputItem>) -> bool {
    exists|i: int| 0 <= i < items.len() && #[trigger] item_has_token(items[i])
}

/// Whether the input or the instructions carry the image placeholder.
pub open spec fn input_has_token(input: Option<ResponsesInput>, instructions: Option<String>) -> bool {
    (instructions matches Some(s) && has_image_token(s@)) || match input {
        Some(ResponsesInput::String(s)) => has_image_token(s@),
        Some(ResponsesInput::Items(items)) => items_have_token(items@),
        None => false,
    }
}

/// Return whether one message content carries [`IMAGE_SPECIAL_TOKEN`].
fn message_content_contains_image_special_token(content: &ResponsesMessageContent) -> (r: bool)
    ensures
        r == message_content_has_token(*content),
{
    match content {
        ResponsesMessageContent::String(s) => contains_image_token(s.as_str()),
        ResponsesMessageContent::List(blocks) => {
            let mut i: usize = 0;
            while i < blocks.len()
                invariant
                    i <= blocks@.len(),
                    *content == ResponsesMessageContent::List(*blocks),
                    forall|k: int| 0 <= k < i ==> !message_block_has_token(#[trigger] blocks@[k]),
                decreases blocks@.len() - i,
            {
                let found = match &blocks[i] {
                    ResponsesContentBlock::InputText { text } | ResponsesContentBlock::OutputText { text } => contains_image_token(
                        text.as_str(),
                    ),
                    _ => false,
                };
                if found {
                    assert(message_block_has_token(blocks@[i as int]));
                    assert(message_blocks_have_token(blocks@));
                    return true;
                }
                i += 1;
            }
            false
        },
    }
}

/// Return whether one tool call output carries [`IMAGE_SPECIAL_TOKEN`].
fn output_content_contains_image_special_token(content: &ResponsesToolCallOutputContent) -> (r: bool)
    ensures
        r == output_content_has_token(*content),
{
    match content {
        ResponsesToolCallOutputContent::String(s) => contains_image_token(s.as_str()),
        ResponsesToolCallOutputContent::List(items) => {
            let mut i: usize = 0;
            while i < items.len()
                invariant
                    i <= items@.len(),
                    *content == ResponsesToolCallOutputContent::List(*items),
                    forall|k: int| 0 <= k < i ==> !output_item_has_token(#[trigger] items@[k]),
                decreases items@.len() - i,
            {
                let found = match &items[i] {
                    ResponsesToolCallOutputItem::InputText { text } => contains_image_token(text.as_str()),
                    _ => false,
                };
                if found {
                    assert(output_item_has_token(items@[i as int]));
                    assert(output_items_have_token(items@));
                    return true;
                }
                i += 1;
            }
            false
        },
    }
}

/// Return whether one input item carries [`IMAGE_SPECIAL_TOKEN`].
fn item_contains_image_special_token(item: &ResponsesInputItem) -> (r: bool)
    ensures
        r == item_has_token(*item),
{
    match item {
        ResponsesInputItem::Message(m) => message_content_contains_image_special_token(&m.content),
        ResponsesInputItem::Typed(t) => match t {
            ResponsesTypedInputItem::Message(m) => message_content_contains_image_special_token(&m.content),
            ResponsesTypedInputItem::FunctionCallOutput(o) => output_content_contains_image_special_token(&o.output),
            ResponsesTypedInputItem::CustomToolCallOutput(o) => match &o.output {
                Some(c) => output_content_contains_image_special_token(c),
                None => false,
            },
            ResponsesTypedInputItem::Reasoning(r) => match &r.content {
                Some(v) => {
                    let mut i: usize = 0;
                    while i < v.len()
                        invariant
                            i <= v@.len(),
                            *item == ResponsesInputItem::Typed(ResponsesTypedInputItem::Reasoning(*r)),
                            r.content == Some(*v),
                            forall|k: int| 0 <= k < i ==> !has_image_token(#[trigger] v@[k].text@),
                        decreases v@.len() - i,
                    {
                        if contains_image_token(v[i].text.as_str()) {
                            assert(reasoning_has_token(v@));
                            return true;
                        }
                        i += 1;
                    }
                    false
                },
                None => false,
            },
            _ => false,
        },
    }
}

/// Return whether the input or instructions carry
/// [`IMAGE_SPECIAL_TOKEN`].
///
/// Message text, tool output text, and reasoning text are checked. Tool
/// call names and arguments are checked after conversion.
pub fn contains_image_special_token(input: Option<&ResponsesInput>, instructions: Option<&String>) -> (r: bool)
    ensures
        r == input_has_token(
            match input { Some(i) => Some(*i), None => None },
            match instructions { Some(s) => Some(*s), None => None },
        ),
{
    if let Some(s) = instructions {
        if contains_image_token(s.as_str()) {
            return true;
        }
    }
    match input {
        Some(ResponsesInput::String(s)) => contains_image_token(s.as_str()),
        Some(ResponsesInput::Items(items)) => {
            let mut i: usize = 0;
            while i < items.len()
                invariant
                    i <= items@.len(),
                    (match input { Some(x) => Some(*x), None => None::<ResponsesInput> }) == Some(ResponsesInput::Items(*items)),
                    !((match instructions { Some(x) => Some(*x), None => None::<String> }) matches Some(t) && has_image_token(t@)),
                    forall|k: int| 0 <= k < i ==> !item_has_token(#[trigger] items@[k]),
                decreases items@.len() - i,
            {
                if item_contains_image_special_token(&items[i]) {
                    assert(items_have_token(items@));
                    return true;
                }
                i += 1;
            }
            false
        },
        None => false,
    }
}

} // verus!
