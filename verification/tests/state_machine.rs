use deepseek_recipe::state_machine::{
    InvalidTokenKind, OutputAction, OutputActionSegment, ParsingOptions, ReasoningStage, StateMachine,
};

fn pairs(segments: &[OutputActionSegment]) -> Vec<(OutputAction, usize)> {
    segments.iter().map(|s| (s.action, s.len)).collect()
}

fn expand(segments: &[OutputActionSegment]) -> Vec<OutputAction> {
    let mut out = Vec::new();
    for s in segments {
        for _ in 0..s.len {
            out.push(s.action);
        }
    }
    out
}

#[test]
fn leading_newlines_are_skipped() {
    let mut sm = StateMachine::new(ParsingOptions::default());
    assert_eq!(pairs(&sm.feed("\n\nhi")), vec![(OutputAction::Skip, 1), (OutputAction::Skip, 1), (OutputAction::Raw, 2)]);
}

#[test]
fn end_of_reasoning_switches_to_content() {
    let options = ParsingOptions { reasoning_initial_stage: Some(ReasoningStage::Start), ..ParsingOptions::default() };
    let mut sm = StateMachine::new(options);
    assert_eq!(
        pairs(&sm.feed("abc</think>xyz")),
        vec![(OutputAction::Reasoning, 3), (OutputAction::Skip, 8), (OutputAction::Raw, 3)]
    );
}

#[test]
fn stop_sequence_then_content_after_finished() {
    let options = ParsingOptions { stop_sequences: vec!["END".to_string()], ..ParsingOptions::default() };
    let mut sm = StateMachine::new(options);
    assert_eq!(
        pairs(&sm.feed("abEND!")),
        vec![
            (OutputAction::Raw, 2),
            (OutputAction::StopSequence, 3),
            (OutputAction::SkipInvalid { kind: InvalidTokenKind::ContentAfterFinished }, 1),
        ]
    );
}

#[test]
fn invoke_header_is_parsed() {
    let options = ParsingOptions { tool_call_initial_stage: true, ..ParsingOptions::default() };
    let mut sm = StateMachine::new(options);
    assert_eq!(
        pairs(&sm.feed("invoke name=\"f\"")),
        vec![(OutputAction::ToolCallBegin, 13), (OutputAction::ToolName, 1), (OutputAction::ToolNameEnd, 1)]
    );
}

#[test]
fn finish_flushes_held_bytes() {
    let options = ParsingOptions { stop_sequences: vec!["END".to_string()], ..ParsingOptions::default() };
    let mut sm = StateMachine::new(options);
    assert_eq!(pairs(&sm.feed("abEN")), vec![(OutputAction::Raw, 2)]);
    assert_eq!(pairs(&sm.finish()), vec![(OutputAction::Raw, 2)]);
}

#[test]
fn empty_stop_sequence_is_dropped() {
    let options = ParsingOptions { stop_sequences: vec![String::new()], ..ParsingOptions::default() };
    let mut sm = StateMachine::new(options);
    assert_eq!(pairs(&sm.feed("ab")), vec![(OutputAction::Raw, 2)]);
}

#[test]
fn tool_call_stage_skips_other_text() {
    let options = ParsingOptions { tool_call_initial_stage: true, ..ParsingOptions::default() };
    let mut sm = StateMachine::new(options);
    assert_eq!(pairs(&sm.feed("x")), vec![(OutputAction::Skip, 1)]);
}

#[test]
fn actions_do_not_depend_on_chunking() {
    let text = "\nabc</think>hello <｜DSML｜tool_calls>invoke name=\"f\"</｜DSML｜tool_calls> END rest";
    let options = ParsingOptions {
        reasoning_initial_stage: Some(ReasoningStage::Start),
        stop_sequences: vec!["END".to_string()],
        ..ParsingOptions::default()
    };
    let mut whole = StateMachine::new(options.clone());
    let mut all = whole.feed(text);
    all.extend(whole.finish());
    let mut pieces = StateMachine::new(options);
    let mut split = Vec::new();
    let bytes = text.as_bytes();
    let mut start = 0;
    while start < bytes.len() {
        let mut end = (start + 3).min(bytes.len());
        while !text.is_char_boundary(end) {
            end += 1;
        }
        split.extend(pieces.feed(&text[start..end]));
        start = end;
    }
    split.extend(pieces.finish());
    assert_eq!(expand(&all), expand(&split));
    assert_eq!(expand(&all).len(), bytes.len());
    assert!(all.iter().chain(split.iter()).all(|s| s.len > 0));
}
