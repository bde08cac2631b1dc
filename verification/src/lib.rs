use vstd::prelude::*;
use vstd::string::StringExecFns;

pub mod api;
pub mod app;
pub mod clock;
pub mod completion;
pub mod json;
pub mod setup;
pub mod text;
pub mod transcript;
pub mod window;

verus! {

/// What the program is configured with: the key and the model that the
/// completion service is asked with, the opening prompt, and the token
/// budget of a session.
#[derive(Debug)]
pub struct ChatTermConfig {
    pub openai_api_key: String,
    pub openai_model: String,
    pub initial_prompt: String,
    pub max_tokens: u32,
}

impl Default for ChatTermConfig {
    /// No key yet, the model `gpt-3.5-turbo`, the assistant's opening
    /// prompt, and a budget of 2000 tokens.
    fn default() -> (config: Self)
        ensures
            config.openai_api_key@ == Seq::<char>::empty(),
            config.openai_model@ == "gpt-3.5-turbo"@,
            config.initial_prompt@
                == "You are Assistant, a very enthusiastic chatbot. You are chatting with a user."@,
            config.max_tokens == 2000,
    {
        Self {
            openai_api_key: String::new(),
            openai_model: String::from_str("gpt-3.5-turbo"),
            initial_prompt: String::from_str(
                "You are Assistant, a very enthusiastic chatbot. You are chatting with a user.",
            ),
            max_tokens: 2000,
        }
    }
}

} // verus!
