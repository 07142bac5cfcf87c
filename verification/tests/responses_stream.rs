use deepseek_recipe::custom_tool_input::ResponsesCustomToolInputParser;
use deepseek_recipe::request::AppendDelta;
use deepseek_recipe::responses_generator::ResponsesChunkGenerator;
use deepseek_recipe::responses_response::{ResponsesContentPart, ResponsesOutputItem, ResponsesResponse, ResponsesStatus};
use deepseek_recipe::chat_response::ChatCompletionResponse;
use deepseek_recipe::messages_response::{MessagesChunkGenerator, MessagesResponse};
use deepseek_recipe::response::ProtocolResponse;
use deepseek_recipe::stream::ChunkGenerator;
use deepseek_recipe::stream::{CompletionUsage, FinishReason, OutputChunk, PromptUsage};

#[test]
fn custom_tool_input_decodes_across_chunks() {
    let mut parser = ResponsesCustomToolInputParser::new();
    let mut out = String::new();
    for piece in ["{ \"in", "put\" : \"a\\n", "b\\u00", "e9\\\"c\"} trailing"] {
        out.push_str(&parser.feed(piece));
    }
    out.push_str(&parser.finish());
    assert_eq!(out, "a\nbé\"c");
}

#[test]
fn other_arguments_pass_through() {
    let mut parser = ResponsesCustomToolInputParser::new();
    let mut out = parser.feed("{\"patch\": 1}");
    out.push_str(&parser.finish());
    assert_eq!(out, "{\"patch\": 1}");
}

#[test]
fn an_unfinished_prefix_is_returned_by_finish() {
    let mut parser = ResponsesCustomToolInputParser::new();
    assert_eq!(parser.feed("{\"inp"), "");
    assert_eq!(parser.finish(), "{\"inp");
    assert_eq!(parser.feed("more"), "");
}

#[test]
fn splitting_the_arguments_does_not_change_the_output() {
    let text = "{\"input\":\"x\\u0041y\\\\z\"}";
    let mut whole = ResponsesCustomToolInputParser::new();
    let expected = whole.feed(text) + &whole.finish();
    for split in 0..text.len() {
        if !text.is_char_boundary(split) {
            continue;
        }
        let mut parser = ResponsesCustomToolInputParser::new();
        let mut out = parser.feed(&text[..split]);
        out.push_str(&parser.feed(&text[split..]));
        out.push_str(&parser.finish());
        assert_eq!(out, expected, "split at {split}");
    }
    assert_eq!(expected, "xAy\\z");
}

#[test]
fn responses_events_accumulate_into_the_response() {
    let mut generator = ResponsesChunkGenerator::new_at("resp_1".to_string(), "m".to_string(), 100);
    let mut response = ResponsesResponse::new("resp_1".to_string(), "m".to_string(), 100, 0, 0);
    let chunks = vec![
        OutputChunk::Start { system_fingerprint: None, usage: PromptUsage { prompt_tokens: 7, prompt_cache_hit_tokens: 2 } },
        OutputChunk::Reasoning { content: "think".to_string() },
        OutputChunk::Raw { content: "Hello".to_string() },
        OutputChunk::Raw { content: ", world".to_string() },
        OutputChunk::Finish { reason: FinishReason::Stop, stop_sequence: None, usage: CompletionUsage { completion_tokens: 4 } },
    ];
    for chunk in chunks {
        for event in generator.generate_at(chunk, 200) {
            response.append(event);
        }
    }
    assert_eq!(response.status, ResponsesStatus::Completed);
    assert_eq!(response.output.len(), 2);
    match &response.output[0] {
        ResponsesOutputItem::Reasoning { content, .. } => {
            assert!(matches!(&content[0], ResponsesContentPart::ReasoningText { text } if text == "think"));
        },
        other => panic!("unexpected item {other:?}"),
    }
    match &response.output[1] {
        ResponsesOutputItem::Message { content, .. } => {
            assert!(matches!(&content[0], ResponsesContentPart::OutputText { text, .. } if text == "Hello, world"));
        },
        other => panic!("unexpected item {other:?}"),
    }
    let usage = response.usage.as_ref().expect("usage");
    assert_eq!(usage.input_tokens, 7);
    assert_eq!(usage.output_tokens, 4);
}

#[test]
fn protocol_responses_name_their_events() {

    assert_eq!(<ChatCompletionResponse as ProtocolResponse>::done_message().as_deref(), Some("[DONE]"));
    assert_eq!(<MessagesResponse as ProtocolResponse>::done_message(), None);
    assert_eq!(<ResponsesResponse as ProtocolResponse>::done_message(), None);

    let mut generator = MessagesChunkGenerator::new("msg_1".to_string(), "m".to_string(), false);
    let events = generator.generate(OutputChunk::Start { system_fingerprint: None, usage: PromptUsage { prompt_tokens: 1, prompt_cache_hit_tokens: 0 } });
    let names: Vec<_> = events.iter().map(<MessagesResponse as ProtocolResponse>::chunk_event_type).collect();
    assert_eq!(names.first().copied().flatten(), Some("message_start"));
}

#[test]
fn responses_sequence_numbers_run_from_zero() {
    let mut generator = ResponsesChunkGenerator::new_at("resp_1".to_string(), "m".to_string(), 100);
    let chunks = vec![
        OutputChunk::Start { system_fingerprint: None, usage: PromptUsage { prompt_tokens: 7, prompt_cache_hit_tokens: 2 } },
        OutputChunk::Reasoning { content: "think".to_string() },
        OutputChunk::Raw { content: "Hello".to_string() },
        OutputChunk::ToolCall { tool_name: "f".to_string(), arguments: "{}".to_string() },
        OutputChunk::Finish { reason: FinishReason::Stop, stop_sequence: None, usage: CompletionUsage { completion_tokens: 4 } },
    ];
    let mut n = 0usize;
    for chunk in chunks {
        for event in generator.generate_at(chunk, 200) {
            let text = format!("{event:?}");
            let tail = text.rsplit("sequence_number: ").next().expect("numbered");
            let digits: String = tail.chars().take_while(|c| c.is_ascii_digit()).collect();
            assert_eq!(digits.parse::<usize>().expect("number"), n);
            n += 1;
        }
    }
    assert!(n > 10);
}
