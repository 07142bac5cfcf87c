use deepseek_recipe::conversation::{ReasoningEffort, ResponseFormat, ToolChoice};
use deepseek_recipe::multimodal::ImageDetail;
use deepseek_recipe::settings::{image_detail_str, parse_image_detail, parse_reasoning_effort, parse_response_format, parse_tool_choice};

#[test]
fn setting_names_parse() {
    assert_eq!(parse_tool_choice("none"), Ok(ToolChoice::Disabled));
    assert_eq!(parse_tool_choice("required"), Ok(ToolChoice::Required));
    assert_eq!(parse_reasoning_effort("xhigh"), Ok(ReasoningEffort::Xhigh));
    assert_eq!(parse_response_format("json_object"), Ok(ResponseFormat::JsonObject));
    assert_eq!(parse_image_detail("original"), Ok(ImageDetail::Original));
}

#[test]
fn invalid_setting_names_are_reported() {
    assert_eq!(parse_tool_choice("Auto"), Err("invalid tool_choice \"Auto\"; expected \"auto\", \"none\", or \"required\"".to_string()));
    assert_eq!(
        parse_reasoning_effort("a\"b"),
        Err("invalid reasoning_effort \"a\\\"b\"; expected \"low\", \"high\", \"xhigh\", or \"max\"".to_string())
    );
    assert_eq!(parse_response_format(""), Err("invalid response_format \"\"; expected \"text\" or \"json_object\"".to_string()));
    assert_eq!(
        parse_image_detail("medium"),
        Err("invalid detail \"medium\"; expected \"low\", \"high\", \"original\", or \"auto\"".to_string())
    );
}

#[test]
fn detail_names_round_trip() {
    for detail in [ImageDetail::Low, ImageDetail::High, ImageDetail::Original, ImageDetail::Auto] {
        assert_eq!(parse_image_detail(image_detail_str(detail)), Ok(detail));
    }
}
