use vstd::prelude::*;
use crate::model::schema::{LLMResponse, Message};

verus! {

/// A model backend capability. Implementations live outside the verified
/// library (a network client, or a scripted stand-in); nothing is assumed
/// of the responses, so every caller must cope with any outcome.
pub trait BaseModel {
    /// The model identifier, used to pick the matching tokenizer.
    fn model_name(&self) -> String;

    /// Ask the model about a single turn.
    fn call(&self, message: &Message) -> LLMResponse;

    /// Ask the model about a whole ordered conversation.
    fn call_with_history(&self, history: &Vec<Message>) -> LLMResponse;
}

} // verus!
