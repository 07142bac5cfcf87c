//! Validation and image input conversion shared by the protocol adapters.

use vstd::prelude::*;
use vstd::string::StringSliceAdditionalSpecFns;

use crate::conversation::{InputMessage, MessageView, ToolCallView, ToolDefinition, ToolDefinitionView, messages_view, tools_view};
use crate::json::{JsonValue, JsonView, json_text, json_view, stringify_python_style};
use crate::multimodal::{
    IMAGE_SPECIAL_TOKEN, ImageDetail, ImageMediaType, ImageSource, ImageSourceView, MAX_IMAGE_URL_LEN,
    is_http_url, is_http_url_spec, media_type_of,
};
use crate::request::ConversionError;
use crate::text::{
    append_chars, append_str, chars_of, concat, contains_seq, decimal, decimal_chars, str_contains,
    string_of,
};

verus! {

/// Text substituted for document blocks by the Messages and Responses
/// adapters. Document contents are not read or forwarded to the backend.
pub const UNSUPPORTED_DOCUMENT_PLACEHOLDER: &'static str = "[Unsupported Document]";

/// Error message for an image whose bytes are missing or unsupported.
pub const UNSUPPORTED_IMAGE_ERR: &'static str = "You have uploaded an unsupported image. Please make sure your image is valid and has one of the following formats: webp, png, jpeg, and gif.";

/// A bad request whose detail is `detail`.
pub open spec fn bad_request_with(e: ConversionError, detail: Seq<char>) -> bool {
    e matches ConversionError::BadRequest { detail: d } && d@ == detail
}

/// `r` is a bad request whose detail is `detail`.
pub open spec fn fails_with<T>(r: Result<T, ConversionError>, detail: Seq<char>) -> bool {
    r matches Err(e) && bad_request_with(e, detail)
}

/// `r` is the result `s` describes: the same value, or a bad request with
/// its detail.
pub open spec fn result_is<T, V>(r: Result<T, ConversionError>, s: Result<V, Seq<char>>, view: spec_fn(T) -> V) -> bool {
    match s {
        Ok(v) => r matches Ok(x) && view(x) == v,
        Err(d) => fails_with(r, d),
    }
}

/// `r` is the result `s` describes: the same value, a bad request with the
/// given detail, or, for `Err(None)`, a bad request whose detail comes from
/// a schema compiler.
pub open spec fn outcome_is<T, V>(r: Result<T, ConversionError>, s: Result<V, Option<Seq<char>>>, view: spec_fn(T) -> V) -> bool {
    match s {
        Ok(v) => r matches Ok(x) && view(x) == v,
        Err(Some(d)) => fails_with(r, d),
        Err(None) => r matches Err(e) && e is BadRequest,
    }
}

/// How a conversion fails: with a bad request of a given detail, with a
/// given error, or with a bad request whose detail a schema compiler wrote.
pub enum Failure {
    Detail(Seq<char>),
    Error(ConversionError),
    Schema,
}

/// `r` fails as `f` says.
pub open spec fn fails_as<T>(r: Result<T, ConversionError>, f: Failure) -> bool {
    match f {
        Failure::Detail(d) => fails_with(r, d),
        Failure::Error(e) => r is Err && crate::request::same_error(r->Err_0, e),
        Failure::Schema => r matches Err(e) && e is BadRequest,
    }
}

/// The failure of an outcome with an optional detail.
pub open spec fn failure_of(e: Option<Seq<char>>) -> Failure {
    match e {
        Some(d) => Failure::Detail(d),
        None => Failure::Schema,
    }
}

/// Returns the concatenation of three strings.
pub fn concat3(a: &str, b: &str, c: &str) -> (r: String)
    ensures
        r@ == a@ + b@ + c@,
{
    let ab = concat(a, b);
    concat(ab.as_str(), c)
}

/// Returns the decimal text of `n`.
pub fn decimal_string(n: usize) -> (r: String)
    ensures
        r@ == decimal(n as nat),
{
    let d = decimal_chars(n);
    string_of(d.as_slice())
}

/// The detail of the error for input text carrying the image placeholder.
pub open spec fn image_token_detail() -> Seq<char> {
    "The sub-string \""@ + IMAGE_SPECIAL_TOKEN@ + "\" in your input is not allowed for this API. Please remove \""@
        + IMAGE_SPECIAL_TOKEN@ + "\" from your input and try again."@
}

/// Return the error for input text carrying [`IMAGE_SPECIAL_TOKEN`].
///
/// An adapter inserts one placeholder per image source. A placeholder in
/// input text would reach the prompt without an image source, so the adapters
/// reject input text that spells it out.
pub fn image_special_token_not_allowed() -> (r: ConversionError)
    ensures
        bad_request_with(r, image_token_detail()),
{
    let mut out: Vec<char> = Vec::new();
    append_str(&mut out, "The sub-string \"");
    append_str(&mut out, IMAGE_SPECIAL_TOKEN);
    append_str(&mut out, "\" in your input is not allowed for this API. Please remove \"");
    append_str(&mut out, IMAGE_SPECIAL_TOKEN);
    append_str(&mut out, "\" from your input and try again.");
    assert(out@ =~= image_token_detail());
    ConversionError::bad_request(string_of(out.as_slice()))
}

/// Whether `s` holds the image placeholder.
pub open spec fn has_image_token(s: Seq<char>) -> bool {
    contains_seq(s, IMAGE_SPECIAL_TOKEN@)
}

/// Whether a tool definition carries the image placeholder in its name,
/// description or parameter schema.
pub open spec fn tool_has_image_token(t: ToolDefinitionView) -> bool {
    has_image_token(t.name) || (t.description matches Some(d) && has_image_token(d)) || has_image_token(
        json_text(t.parameters, true),
    )
}

/// Whether the tool calls of a message carry the image placeholder.
pub open spec fn calls_have_image_token(m: MessageView) -> bool {
    match m {
        MessageView::Assistant { tool_calls: Some(calls), .. } => any_call_has_image_token(calls),
        _ => false,
    }
}

/// Whether the name or arguments of a tool call hold the image placeholder.
pub open spec fn call_has_image_token(c: ToolCallView) -> bool {
    has_image_token(c.name) || has_image_token(c.arguments)
}

/// Whether the name or arguments of one of `calls` hold the image placeholder.
pub open spec fn any_call_has_image_token(calls: Seq<ToolCallView>) -> bool {
    exists|i: int| 0 <= i < calls.len() && call_has_image_token(#[trigger] calls[i])
}

/// Returns whether `s` holds the image placeholder.
pub fn contains_image_token(s: &str) -> (r: bool)
    ensures
        r == has_image_token(s@),
{
    str_contains(s, IMAGE_SPECIAL_TOKEN)
}

/// Returns whether a tool definition carries the image placeholder.
fn tool_definition_contains_image_special_token(tool: &ToolDefinition) -> (r: bool)
    ensures
        r == tool_has_image_token(tool@),
{
    if contains_image_token(tool.name.as_str()) {
        return true;
    }
    match &tool.description {
        Some(d) => {
            if contains_image_token(d.as_str()) {
                return true;
            }
        },
        None => {},
    }
    let schema = stringify_python_style(&tool.parameters);
    contains_image_token(schema.as_str())
}

/// Returns whether the tool calls of one message carry the image placeholder.
fn tool_calls_contain_image_special_token(message: &InputMessage) -> (r: bool)
    ensures
        r == calls_have_image_token(message@),
{
    match message {
        InputMessage::Assistant { tool_calls: Some(calls), .. } => {
            let ghost cv = crate::conversation::calls_view(calls@);
            let mut i: usize = 0;
            while i < calls.len()
                invariant
                    i <= calls@.len(),
                    cv == crate::conversation::calls_view(calls@),
                    message@ is Assistant && message@->Assistant_tool_calls == Some(cv),
                    forall|k: int| 0 <= k < i ==> !call_has_image_token(#[trigger] cv[k]),
                decreases calls@.len() - i,
            {
                assert(cv[i as int] == calls@[i as int]@);
                let in_name = contains_image_token(calls[i].name.as_str());
                let in_arguments = contains_image_token(calls[i].arguments.as_str());
                assert(in_name == has_image_token(cv[i as int].name));
                assert(in_arguments == has_image_token(cv[i as int].arguments));
                if in_name || in_arguments {
                    assert(call_has_image_token(cv[i as int]));
                    assert(any_call_has_image_token(cv));
                    return true;
                }
                assert(!call_has_image_token(cv[i as int]));
                i += 1;
            }
            false
        },
        _ => false,
    }
}

/// Whether a tool definition or a historical tool call carries the image
/// placeholder.
pub open spec fn tool_text_bad(tools: Seq<ToolDefinitionView>, messages: Seq<MessageView>) -> bool {
    (exists|i: int| 0 <= i < tools.len() && tool_has_image_token(#[trigger] tools[i])) || (exists|i: int|
        0 <= i < messages.len() && calls_have_image_token(#[trigger] messages[i]))
}

/// Reject converted tools and tool calls that carry the image placeholder.
///
/// A rendered tool prompt contains the name, description, and parameter
/// schema of every definition, and the tool calls of a historical assistant
/// turn contribute their names and arguments.
pub fn validate_tool_text(tools: &Vec<ToolDefinition>, messages: &Vec<InputMessage>) -> (r: Result<(), ConversionError>)
    ensures
        tool_text_bad(tools_view(tools@), messages_view(messages@)) ==> fails_with(r, image_token_detail()),
        !tool_text_bad(tools_view(tools@), messages_view(messages@)) ==> r is Ok,
{
    let ghost tv = tools_view(tools@);
    let ghost mv = messages_view(messages@);
    let mut i: usize = 0;
    while i < tools.len()
        invariant
            i <= tools@.len(),
            tv == tools_view(tools@),
            forall|k: int| 0 <= k < i ==> !tool_has_image_token(#[trigger] tv[k]),
        decreases tools@.len() - i,
    {
        if tool_definition_contains_image_special_token(&tools[i]) {
            assert(tool_has_image_token(tv[i as int]));
            return Err(image_special_token_not_allowed());
        }
        i += 1;
    }
    let mut j: usize = 0;
    while j < messages.len()
        invariant
            j <= messages@.len(),
            tv == tools_view(tools@),
            mv == messages_view(messages@),
            forall|k: int| 0 <= k < tools@.len() ==> !tool_has_image_token(#[trigger] tv[k]),
            forall|k: int| 0 <= k < j ==> !calls_have_image_token(#[trigger] mv[k]),
        decreases messages@.len() - j,
    {
        if tool_calls_contain_image_special_token(&messages[j]) {
            assert(calls_have_image_token(mv[j as int]));
            return Err(image_special_token_not_allowed());
        }
        j += 1;
    }
    Ok(())
}

/// Reject a zero token limit.
pub fn validate_max_tokens(value: Option<u32>, field: &str) -> (r: Result<(), ConversionError>)
    ensures
        value == Some(0u32) ==> fails_with(r, field@ + " must be greater than zero"@),
        value != Some(0u32) ==> r is Ok,
{
    if value == Some(0u32) {
        return Err(ConversionError::bad_request(concat(field, " must be greater than zero")));
    }
    Ok(())
}

/// Whether `name` is 1 to 128 ASCII letters, digits, underscores or hyphens.
pub open spec fn valid_tool_name(name: Seq<char>) -> bool {
    &&& 1 <= name.len() <= 128
    &&& forall|i: int|
        0 <= i < name.len() ==> {
            let c = #[trigger] name[i];
            ('a' <= c && c <= 'z') || ('A' <= c && c <= 'Z') || ('0' <= c && c <= '9') || c == '_' || c == '-'
        }
}

/// Reject a tool name that is not 1 to 128 ASCII letters, digits,
/// underscores or hyphens.
pub fn validate_tool_name(name: &str, path: &str) -> (r: Result<(), ConversionError>)
    ensures
        valid_tool_name(name@) ==> r is Ok,
        !valid_tool_name(name@) ==> fails_with(r, path@ + ": expected 1-128 ASCII letters, digits, underscores or hyphens"@,
        ),
{
    let chars = chars_of(name);
    let mut ok = chars.len() >= 1 && chars.len() <= 128;
    let mut i: usize = 0;
    while i < chars.len() && ok
        invariant
            i <= chars@.len(),
            ok ==> 1 <= chars@.len() <= 128,
            ok ==> forall|k: int|
                0 <= k < i ==> {
                    let c = #[trigger] chars@[k];
                    ('a' <= c && c <= 'z') || ('A' <= c && c <= 'Z') || ('0' <= c && c <= '9') || c == '_' || c == '-'
                },
            !ok ==> !valid_tool_name(chars@),
        decreases chars@.len() - i,
    {
        let c = chars[i];
        if !(('a' <= c && c <= 'z') || ('A' <= c && c <= 'Z') || ('0' <= c && c <= '9') || c == '_' || c == '-') {
            ok = false;
        }
        i += 1;
    }
    if !ok {
        return Err(ConversionError::bad_request(concat(path, ": expected 1-128 ASCII letters, digits, underscores or hyphens")));
    }
    Ok(())
}

/// A JSON Schema of type object: an object whose `type` member, the first
/// of that name, is the string `object`.
pub open spec fn is_object_schema(v: JsonView) -> bool {
    v matches JsonView::Object(members) && exists|i: int|
        0 <= i < members.len() && #[trigger] members[i].0 == "type"@ && members[i].1 == JsonView::Str("object"@)
            && forall|j: int| 0 <= j < i ==> members[j].0 != "type"@
}

/// Whether `jsonschema::JSONSchema::compile` accepts the schema `v`.
pub uninterp spec fn schema_compiles(v: JsonView) -> bool;

/// Converts a [`JsonValue`] into a `serde_json::Value`, one value for one.
#[verifier::external_body]
pub(crate) fn serde_from_json(value: &JsonValue) -> serde_json::Value {
    match value {
        JsonValue::Null => serde_json::Value::Null,
        JsonValue::Bool(b) => serde_json::Value::Bool(*b),
        JsonValue::Number(n) => serde_json::from_str(n).unwrap_or(serde_json::Value::Null),
        JsonValue::String(s) => serde_json::Value::String(s.clone()),
        JsonValue::Array(items) => serde_json::Value::Array(items.iter().map(serde_from_json).collect()),
        JsonValue::Object(members) => serde_json::Value::Object(members.iter().map(|(k, v)| (k.clone(), serde_from_json(v))).collect()),
    }
}

/// Calls `jsonschema::JSONSchema::compile` on the schema `schema`, which
/// checks that it is a valid JSON Schema; the error is its message. Whether
/// it compiles is named by [`schema_compiles`]; the message is not stated.
#[verifier::external_body]
fn compile_schema(schema: &JsonValue) -> (r: Result<(), String>)
    ensures
        r is Ok <==> schema_compiles(json_view(*schema)),
{
    jsonschema::JSONSchema::compile(&serde_from_json(schema)).map(|_| ()).map_err(|error| error.to_string())
}

/// Returns whether the schema is an object whose first `type` member is the
/// string `object`.
fn object_schema(schema: &JsonValue) -> (r: bool)
    ensures
        r == is_object_schema(json_view(*schema)),
{
    match schema {
        JsonValue::Object(members) => {
            let ghost mv = crate::json::member_views(members@);
            proof {
                crate::json::lemma_member_views_len(members@);
            }
            let mut i: usize = 0;
            while i < members.len()
                invariant
                    i <= members@.len(),
                    mv == crate::json::member_views(members@),
                    mv.len() == members@.len(),
                    json_view(*schema) == JsonView::Object(mv),
                    forall|j: int| 0 <= j < i ==> mv[j].0 != "type"@,
                decreases members@.len() - i,
            {
                proof {
                    crate::json::lemma_member_views_index(members@, i as int);
                }
                let key = chars_of(members[i].0.as_str());
                let type_key = chars_of("type");
                if crate::text::chars_eq(key.as_slice(), type_key.as_slice()) {
                    let is_object = match &members[i].1 {
                        JsonValue::String(s) => {
                            let a = chars_of(s.as_str());
                            let b = chars_of("object");
                            crate::text::chars_eq(a.as_slice(), b.as_slice())
                        },
                        _ => false,
                    };
                    proof {
                        assert(mv[i as int].0 == "type"@);
                        if is_object {
                            assert(mv[i as int].1 == JsonView::Str("object"@));
                            assert(json_view(*schema) == JsonView::Object(mv));
                            assert(is_object_schema(json_view(*schema)));
                        }
                        if !is_object {
                            assert forall|k: int| 0 <= k < mv.len() && #[trigger] mv[k].0 == "type"@ && mv[k].1 == JsonView::Str("object"@)
                                implies exists|j: int| 0 <= j < k && mv[j].0 == "type"@ by {
                                if k > i {
                                    assert(mv[i as int].0 == "type"@);
                                }
                            }
                        }
                    }
                    return is_object;
                }
                i += 1;
            }
            false
        },
        _ => false,
    }
}

/// Reject a tool parameter schema that is not a JSON Schema of type object.
pub fn validate_tool_parameters(schema: &JsonValue, path: &str) -> (r: Result<(), ConversionError>)
    ensures
        !is_object_schema(json_view(*schema)) ==> fails_with(r, path@ + " must be a JSON Schema of type object"@,
        ),
        is_object_schema(json_view(*schema)) ==> (r is Ok <==> schema_compiles(json_view(*schema))),
        r matches Err(e) ==> e is BadRequest,
{
    if !object_schema(schema) {
        return Err(ConversionError::bad_request(concat(path, " must be a JSON Schema of type object")));
    }
    match compile_schema(schema) {
        Ok(()) => Ok(()),
        Err(message) => Err(ConversionError::bad_request(concat3(path, ": ", message.as_str()))),
    }
}

/// Whether `s` holds the word `json` in any ASCII case.
pub open spec fn mentions_json(s: Seq<char>) -> bool {
    exists|i: int|
        0 <= i && i + 4 <= s.len() && #[trigger] crate::text::eq_ignore_ascii_case(s.subrange(i, i + 4), "json"@)
}

/// The content of a message.
pub open spec fn message_content(m: MessageView) -> Seq<char> {
    match m {
        MessageView::System { content } => content,
        MessageView::User { content, .. } => content,
        MessageView::Assistant { content, .. } => content,
        MessageView::Tool { content, .. } => content,
        MessageView::LatestReminder { content } => content,
    }
}

/// Returns whether `s` holds the word `json` in any ASCII case.
fn text_mentions_json(s: &str) -> (r: bool)
    ensures
        r == mentions_json(s@),
{
    let chars = chars_of(s);
    let word = chars_of("json");
    let n = chars.len();
    if n < 4 {
        return false;
    }
    let mut i: usize = 0;
    while i <= n - 4
        invariant
            n == chars@.len(),
            n >= 4,
            chars@ == s@,
            word@ == "json"@,
            forall|k: int|
                0 <= k < i ==> !crate::text::eq_ignore_ascii_case(#[trigger] chars@.subrange(k, k + 4), "json"@),
        decreases n - i,
    {
        let mut window: Vec<char> = Vec::new();
        window.push(chars[i]);
        window.push(chars[i + 1]);
        window.push(chars[i + 2]);
        window.push(chars[i + 3]);
        assert(window@ =~= chars@.subrange(i as int, i + 4));
        if crate::text::chars_eq_ignore_ascii_case(window.as_slice(), word.as_slice()) {
            assert(crate::text::eq_ignore_ascii_case(s@.subrange(i as int, i + 4), "json"@));
            assert(mentions_json(s@));
            return true;
        }
        i += 1;
    }
    false
}

/// Whether any message mentions `json` in any ASCII case.
pub open spec fn messages_mention_json(msgs: Seq<MessageView>) -> bool {
    exists|i: int| 0 <= i < msgs.len() && mentions_json(message_content(#[trigger] msgs[i]))
}

/// Returns whether any message content holds the word `json` in any ASCII
/// case.
pub fn contains_json_instruction(messages: &Vec<InputMessage>) -> (r: bool)
    ensures
        r == messages_mention_json(messages_view(messages@)),
{
    let ghost mv = messages_view(messages@);
    let mut i: usize = 0;
    while i < messages.len()
        invariant
            i <= messages@.len(),
            mv == messages_view(messages@),
            forall|k: int| 0 <= k < i ==> !mentions_json(message_content(#[trigger] mv[k])),
        decreases messages@.len() - i,
    {
        let content = match &messages[i] {
            InputMessage::System { content } => content,
            InputMessage::User { content, .. } => content,
            InputMessage::Assistant { content, .. } => content,
            InputMessage::Tool { content, .. } => content,
            InputMessage::LatestReminder { content } => content,
        };
        if text_mentions_json(content.as_str()) {
            assert(mv[i as int] == messages@[i as int]@);
            return true;
        }
        assert(mv[i as int] == messages@[i as int]@);
        i += 1;
    }
    false
}

} // verus!
