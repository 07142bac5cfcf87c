//! DeepSeek V4.1 request conversion, prompt rendering, image accounting and
//! inference output parsing.

pub mod text;
pub mod chat_completion;
pub mod chat_response;
pub mod conversation;
pub mod custom_tool_input;
pub mod encoding;
pub mod image;
pub mod image_input;
pub mod json;
pub mod messages;
pub mod messages_response;
pub mod multimodal;
pub mod normalize;
pub mod request;
pub mod response;
pub mod settings;
pub mod responses_generator;
pub mod responses_convert;
pub mod responses_request;
pub mod responses_response;
pub mod responses_tools;
pub mod state_machine;
pub mod stream;
pub mod token_spec;
pub mod validation;
