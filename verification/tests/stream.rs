use deepseek_recipe::chat_response::{
    ChatCompletionChunkGenerator, ChatCompletionFinishReason, ChatCompletionResponse, ChatCompletionToolCallDelta,
};
use deepseek_recipe::request::AppendDelta;
use deepseek_recipe::state_machine::{ParsingOptions, ReasoningStage};
use deepseek_recipe::stream::{
    finish_reason, ChunkGenerator, CompletionUsage, FinishReason, InferenceFinishReason, OutputChunk, ProcessorState, PromptUsage,
};

fn run(options: ParsingOptions, pieces: &[&str], backend: Option<InferenceFinishReason>) -> Vec<OutputChunk> {
    let mut st = ProcessorState::new(options);
    let mut out = st.ready(Some("fp".to_string()), PromptUsage { prompt_tokens: 5, prompt_cache_hit_tokens: 1 });
    for piece in pieces {
        out.extend(st.text(piece, 1).unwrap());
        if st.ended() {
            break;
        }
    }
    if let Some(reason) = backend {
        if !st.ended() {
            out.extend(st.backend_finished(reason));
        }
    }
    out.extend(st.finish().unwrap());
    out
}

fn text_of(chunks: &[OutputChunk], reasoning: bool) -> String {
    chunks
        .iter()
        .filter_map(|c| match c {
            OutputChunk::Raw { content } if !reasoning => Some(content.as_str()),
            OutputChunk::Reasoning { content } if reasoning => Some(content.as_str()),
            _ => None,
        })
        .collect()
}

#[test]
fn reasoning_and_answer_are_separated() {
    let mut options = ParsingOptions::default();
    options.reasoning_initial_stage = Some(ReasoningStage::Start);
    let chunks = run(options, &["pl", "an</th", "ink>answer"], Some(InferenceFinishReason::Stop));
    assert_eq!(
        chunks[0],
        OutputChunk::Start { system_fingerprint: Some("fp".to_string()), usage: PromptUsage { prompt_tokens: 5, prompt_cache_hit_tokens: 1 } }
    );
    assert_eq!(text_of(&chunks, true), "plan");
    assert_eq!(text_of(&chunks, false), "answer");
    assert_eq!(
        chunks.last().unwrap(),
        &OutputChunk::Finish { reason: FinishReason::Stop, stop_sequence: None, usage: CompletionUsage { completion_tokens: 3 } }
    );
}

#[test]
fn a_stop_sequence_ends_the_stream() {
    let mut options = ParsingOptions::default();
    options.stop_sequences = vec!["END".to_string()];
    let chunks = run(options, &["one E", "ND two", "three"], Some(InferenceFinishReason::Length));
    assert_eq!(text_of(&chunks, false), "one ");
    match chunks.last().unwrap() {
        OutputChunk::Finish { reason, stop_sequence, usage } => {
            assert_eq!(*reason, FinishReason::StopSequence);
            assert_eq!(stop_sequence.as_deref(), Some("END"));
            assert_eq!(usage.completion_tokens, 2);
        },
        other => panic!("unexpected chunk {other:?}"),
    }
}

#[test]
fn tool_calls_are_parsed() {
    let markup = "<｜DSML｜tool_calls>\n<｜DSML｜invoke name=\"get\">\n<｜DSML｜parameter name=\"city\" string=\"true\">Paris</｜DSML｜parameter>\n</｜DSML｜invoke>\n</｜DSML｜tool_calls>";
    let chunks = run(ParsingOptions::default(), &[markup], Some(InferenceFinishReason::Stop));
    let name = chunks.iter().find_map(|c| match c {
        OutputChunk::ToolCall { tool_name, .. } => Some(tool_name.clone()),
        _ => None,
    });
    assert_eq!(name.as_deref(), Some("get"));
    let arguments: String = chunks
        .iter()
        .filter_map(|c| match c {
            OutputChunk::ToolArgumentsDelta { content } => Some(content.as_str()),
            _ => None,
        })
        .collect();
    assert!(arguments.contains("Paris"), "{arguments}");
    assert!(matches!(chunks.last().unwrap(), OutputChunk::Finish { reason: FinishReason::ToolCalls, .. }));
}

#[test]
fn an_empty_stream_still_starts_and_finishes() {
    let st = ProcessorState::new(ParsingOptions::default());
    let chunks = st.finish().unwrap();
    assert_eq!(
        chunks,
        vec![
            OutputChunk::Start { system_fingerprint: None, usage: PromptUsage { prompt_tokens: 0, prompt_cache_hit_tokens: 0 } },
            OutputChunk::Finish { reason: FinishReason::EndOfStream, stop_sequence: None, usage: CompletionUsage { completion_tokens: 0 } },
        ]
    );
}

#[test]
fn finish_reasons_prefer_stop_sequences_then_the_backend() {
    assert_eq!(finish_reason(true, Some(InferenceFinishReason::Length), true), FinishReason::StopSequence);
    assert_eq!(finish_reason(false, Some(InferenceFinishReason::Stop), true), FinishReason::ToolCalls);
    assert_eq!(finish_reason(false, Some(InferenceFinishReason::Stop), false), FinishReason::Stop);
    assert_eq!(finish_reason(false, Some(InferenceFinishReason::ContentFilter), true), FinishReason::ContentFilter);
    assert_eq!(finish_reason(false, None, false), FinishReason::EndOfStream);
}

#[test]
fn chat_chunks_accumulate_into_a_response() {
    let mut options = ParsingOptions::default();
    options.reasoning_initial_stage = Some(ReasoningStage::Start);
    let chunks = run(options, &["why</think>because"], Some(InferenceFinishReason::Stop));
    let mut generator = ChatCompletionChunkGenerator::new("id-1".to_string(), "m".to_string(), true, true);
    let mut response = ChatCompletionResponse::new("id-1".to_string(), "m".to_string(), 0, 0, 0);
    for chunk in chunks {
        for event in generator.generate(chunk) {
            response.append(event);
        }
    }
    assert_eq!(response.choices.len(), 1);
    let choice = &response.choices[0];
    assert_eq!(choice.message.content.as_deref(), Some("because"));
    assert_eq!(choice.message.reasoning_content.as_deref(), Some("why"));
    assert_eq!(choice.finish_reason, Some(ChatCompletionFinishReason::Stop));
    let usage = response.usage.as_ref().expect("usage");
    assert_eq!(usage.prompt_tokens, 5);
    assert_eq!(usage.completion_tokens, 1);
}

#[test]
fn chat_usage_only_at_finish_and_tool_indices_count_up() {
    let mut generator = ChatCompletionChunkGenerator::new("id-1".to_string(), "m".to_string(), false, true);
    let chunks = vec![
        OutputChunk::Start { system_fingerprint: None, usage: PromptUsage { prompt_tokens: 3, prompt_cache_hit_tokens: 0 } },
        OutputChunk::Raw { content: "a".to_string() },
        OutputChunk::ToolCall { tool_name: "f".to_string(), arguments: String::new() },
        OutputChunk::ToolArgumentsDelta { content: "{}".to_string() },
        OutputChunk::ToolCall { tool_name: "g".to_string(), arguments: String::new() },
        OutputChunk::Finish { reason: FinishReason::ToolCalls, stop_sequence: None, usage: CompletionUsage { completion_tokens: 2 } },
    ];
    let mut indices = Vec::new();
    let mut usages = Vec::new();
    for chunk in chunks {
        let finish = matches!(chunk, OutputChunk::Finish { .. });
        for event in generator.generate(chunk) {
            usages.push((finish, matches!(event.usage, Some(Some(_)))));
            for choice in &event.choices {
                if let Some(calls) = &choice.delta.tool_calls {
                    for call in calls {
                        if let ChatCompletionToolCallDelta::Start { index, .. } = call {
                            indices.push(*index);
                        }
                    }
                }
            }
        }
    }
    assert_eq!(indices, vec![0, 1]);
    assert!(usages.iter().all(|(finish, has)| finish == has));
    assert!(usages.iter().any(|(finish, _)| *finish));
}
