//! The names of conversation settings, as the Python bindings write them.

use vstd::prelude::*;

use crate::conversation::{ReasoningEffort, ResponseFormat, ToolChoice};
use crate::image_input::{debug_string, debug_text};
use crate::multimodal::ImageDetail;
use crate::text::{append_str, chars_of, string_of};

verus! {

/// The error of an invalid setting: `invalid <field> <debug value>; expected
/// <choices>`.
pub open spec fn invalid_setting(field: Seq<char>, value: Seq<char>, choices: Seq<char>) -> Seq<char> {
    "invalid "@ + field + " "@ + debug_text(value) + "; expected "@ + choices
}

/// Returns the error of an invalid setting.
fn invalid_setting_exec(field: &str, value: &str, choices: &str) -> (r: String)
    ensures
        r@ == invalid_setting(field@, value@, choices@),
{
    let mut out = chars_of("invalid ");
    append_str(&mut out, field);
    append_str(&mut out, " ");
    let d = debug_string(value);
    append_str(&mut out, d.as_str());
    append_str(&mut out, "; expected ");
    append_str(&mut out, choices);
    assert(out@ =~= invalid_setting(field@, value@, choices@));
    string_of(out.as_slice())
}

/// The tool choice a name stands for.
pub open spec fn tool_choice_named(value: Seq<char>) -> Option<ToolChoice> {
    if value == "auto"@ {
        Some(ToolChoice::Auto)
    } else if value == "none"@ {
        Some(ToolChoice::Disabled)
    } else if value == "required"@ {
        Some(ToolChoice::Required)
    } else {
        None
    }
}

/// Parse a `tool_choice` name: `auto`, `none` or `required`.
pub fn parse_tool_choice(value: &str) -> (r: Result<ToolChoice, String>)
    ensures
        match tool_choice_named(value@) {
            Some(c) => r == Ok::<ToolChoice, String>(c),
            None => r matches Err(e) && e@ == invalid_setting(
                "tool_choice"@,
                value@,
                "\"auto\", \"none\", or \"required\""@,
            ),
        },
{
    if crate::text::str_eq(value, "auto") {
        Ok(ToolChoice::Auto)
    } else if crate::text::str_eq(value, "none") {
        Ok(ToolChoice::Disabled)
    } else if crate::text::str_eq(value, "required") {
        Ok(ToolChoice::Required)
    } else {
        Err(invalid_setting_exec("tool_choice", value, "\"auto\", \"none\", or \"required\""))
    }
}

/// The reasoning effort a name stands for.
pub open spec fn reasoning_effort_named(value: Seq<char>) -> Option<ReasoningEffort> {
    if value == "low"@ {
        Some(ReasoningEffort::Low)
    } else if value == "high"@ {
        Some(ReasoningEffort::High)
    } else if value == "xhigh"@ {
        Some(ReasoningEffort::Xhigh)
    } else if value == "max"@ {
        Some(ReasoningEffort::Max)
    } else {
        None
    }
}

/// Parse a `reasoning_effort` name: `low`, `high`, `xhigh` or `max`.
pub fn parse_reasoning_effort(value: &str) -> (r: Result<ReasoningEffort, String>)
    ensures
        match reasoning_effort_named(value@) {
            Some(e) => r == Ok::<ReasoningEffort, String>(e),
            None => r matches Err(e) && e@ == invalid_setting(
                "reasoning_effort"@,
                value@,
                "\"low\", \"high\", \"xhigh\", or \"max\""@,
            ),
        },
{
    if crate::text::str_eq(value, "low") {
        Ok(ReasoningEffort::Low)
    } else if crate::text::str_eq(value, "high") {
        Ok(ReasoningEffort::High)
    } else if crate::text::str_eq(value, "xhigh") {
        Ok(ReasoningEffort::Xhigh)
    } else if crate::text::str_eq(value, "max") {
        Ok(ReasoningEffort::Max)
    } else {
        Err(invalid_setting_exec("reasoning_effort", value, "\"low\", \"high\", \"xhigh\", or \"max\""))
    }
}

/// The response format a name stands for.
pub open spec fn response_format_named(value: Seq<char>) -> Option<ResponseFormat> {
    if value == "text"@ {
        Some(ResponseFormat::Text)
    } else if value == "json_object"@ {
        Some(ResponseFormat::JsonObject)
    } else {
        None
    }
}

/// Parse a `response_format` name: `text` or `json_object`.
pub fn parse_response_format(value: &str) -> (r: Result<ResponseFormat, String>)
    ensures
        match response_format_named(value@) {
            Some(f) => r == Ok::<ResponseFormat, String>(f),
            None => r matches Err(e) && e@ == invalid_setting("response_format"@, value@, "\"text\" or \"json_object\""@),
        },
{
    if crate::text::str_eq(value, "text") {
        Ok(ResponseFormat::Text)
    } else if crate::text::str_eq(value, "json_object") {
        Ok(ResponseFormat::JsonObject)
    } else {
        Err(invalid_setting_exec("response_format", value, "\"text\" or \"json_object\""))
    }
}

/// The image detail a name stands for.
pub open spec fn image_detail_named(value: Seq<char>) -> Option<ImageDetail> {
    if value == "low"@ {
        Some(ImageDetail::Low)
    } else if value == "high"@ {
        Some(ImageDetail::High)
    } else if value == "original"@ {
        Some(ImageDetail::Original)
    } else if value == "auto"@ {
        Some(ImageDetail::Auto)
    } else {
        None
    }
}

/// Parse an image `detail` name: `low`, `high`, `original` or `auto`.
pub fn parse_image_detail(value: &str) -> (r: Result<ImageDetail, String>)
    ensures
        match image_detail_named(value@) {
            Some(d) => r == Ok::<ImageDetail, String>(d),
            None => r matches Err(e) && e@ == invalid_setting(
                "detail"@,
                value@,
                "\"low\", \"high\", \"original\", or \"auto\""@,
            ),
        },
{
    if crate::text::str_eq(value, "low") {
        Ok(ImageDetail::Low)
    } else if crate::text::str_eq(value, "high") {
        Ok(ImageDetail::High)
    } else if crate::text::str_eq(value, "original") {
        Ok(ImageDetail::Original)
    } else if crate::text::str_eq(value, "auto") {
        Ok(ImageDetail::Auto)
    } else {
        Err(invalid_setting_exec("detail", value, "\"low\", \"high\", \"original\", or \"auto\""))
    }
}

/// The name of an image detail level.
pub open spec fn image_detail_name(detail: ImageDetail) -> Seq<char> {
    match detail {
        ImageDetail::Low => "low"@,
        ImageDetail::High => "high"@,
        ImageDetail::Original => "original"@,
        ImageDetail::Auto => "auto"@,
    }
}

/// Return the name of an image detail level.
pub fn image_detail_str(detail: ImageDetail) -> (r: &'static str)
    ensures
        r@ == image_detail_name(detail),
{
    match detail {
        ImageDetail::Low => "low",
        ImageDetail::High => "high",
        ImageDetail::Original => "original",
        ImageDetail::Auto => "auto",
    }
}

/// The name of a detail level parses back to that level.
pub proof fn lemma_image_detail_round_trip(detail: ImageDetail)
    ensures
        image_detail_named(image_detail_name(detail)) == Some(detail),
{
    reveal_strlit("low");
    reveal_strlit("high");
    reveal_strlit("original");
    reveal_strlit("auto");
    assert("low"@.len() != "high"@.len());
    assert("low"@.len() != "original"@.len());
    assert("high"@.len() != "original"@.len());
    assert("auto"@.len() != "low"@.len());
    assert("auto"@.len() != "original"@.len());
    assert("auto"@[0] != "high"@[0]);
}

} // verus!
