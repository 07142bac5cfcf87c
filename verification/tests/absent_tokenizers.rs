use deepseek_recipe::encoding::{NoTokenizer, TokenizerEncoder};
use deepseek_recipe::stream::{NoDecoder, TokenizerDecoder};

#[test]
fn absent_tokenizer_refuses_to_encode() {
    assert_eq!(NoTokenizer.encode_ids("hello"), Err("no tokenizer is attached to the encoding".to_string()));
}

#[test]
fn absent_decoder_refuses_to_decode() {
    assert_eq!(NoDecoder.decode_ids(&[1, 2, 3], true), Err("no tokenizer is attached to the processor".to_string()));
}

use deepseek_recipe::conversation::{Conversation, InputMessage};
use deepseek_recipe::encoding::{DeepseekV4Encoding, EncodingError, PromptEncoding};
use deepseek_recipe::stream::{decoded_step, StreamDecoder, StreamError};

struct CharIds;

impl TokenizerEncoder for CharIds {
    fn encode_ids(&self, text: &str) -> Result<Vec<u32>, String> {
        if text.contains("fail") {
            Err("refused".to_string())
        } else {
            Ok(text.chars().map(|c| c as u32).collect())
        }
    }
}

fn chat(text: &str) -> Conversation {
    let mut c = Conversation::default();
    c.messages = vec![InputMessage::User { content: text.to_string(), image_sources: Vec::new() }];
    c
}

#[test]
fn encode_hands_the_rendered_prompt_to_the_tokenizer() {
    let enc = DeepseekV4Encoding::new().with_tokenizer(CharIds);
    let c = chat("hello");
    let prompt = DeepseekV4Encoding::new().render_conversation(&c).prompt;
    let expected: Vec<u32> = prompt.chars().map(|ch| ch as u32).collect();
    assert_eq!(enc.encode(&c), Ok(expected));
    assert_eq!(enc.encode(&chat("fail")), Err(EncodingError::Encode("refused".to_string())));
    assert_eq!(DeepseekV4Encoding::new().encode(&c), Err(EncodingError::MissingTokenizer));
}

struct Pieces;

impl TokenizerDecoder for Pieces {
    fn decode_ids(&self, ids: &[u32], skip_special_tokens: bool) -> Result<String, String> {
        assert!(!skip_special_tokens);
        match ids {
            [1] => Ok("\u{FFFD}".to_string()),
            [1, 2] => Ok("é".to_string()),
            [9] => Err("bad id".to_string()),
            _ => Ok(String::new()),
        }
    }
}

#[test]
fn decoder_waits_for_complete_text() {
    let mut d = StreamDecoder::new(Pieces);
    assert_eq!(d.decode(1), Ok(None));
    assert_eq!(d.decode(2), Ok(Some(("é".to_string(), 2))));
    assert_eq!(d.decode(9), Err(StreamError::Decode { detail: "bad id".to_string() }));
}

#[test]
fn decoded_steps() {
    assert_eq!(decoded_step(Ok("ab".to_string()), 3), Ok(Some(("ab".to_string(), 3))));
    assert_eq!(decoded_step(Ok(String::new()), 3), Ok(None));
    assert_eq!(decoded_step(Ok("a\u{FFFD}".to_string()), 3), Ok(None));
    assert_eq!(decoded_step(Err("x".to_string()), 3), Err(StreamError::Decode { detail: "x".to_string() }));
}
