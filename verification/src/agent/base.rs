use vstd::prelude::*;
use crate::model::schema::{views_of, Message, MessageValue};

verus! {

/// An agent: something that owns a conversation history and can be run on
/// a user prompt until it produces an answer. Each implementation says
/// through `run_post` what its answer can be.
pub trait BaseAgent: Sized {
    /// The well-formedness that every operation preserves.
    spec fn inv(&self) -> bool;

    /// The turns the agent's memory currently holds.
    spec fn history(&self) -> Seq<MessageValue>;

    /// The full prompt context handed to the model on each iteration.
    spec fn context_spec(&self) -> Seq<MessageValue>;

    /// What `run`, given this user prompt, can do and return.
    spec fn run_post(pre: Self, post: Self, user_prompt: Seq<char>, r: Seq<char>) -> bool;

    /// The remembered turns, oldest first.
    fn get_history(&self) -> (r: Vec<Message>)
        requires
            self.inv(),
        ensures
            views_of(r@) == self.history(),
    ;

    /// Forget the remembered turns.
    fn clear_history(&mut self)
        requires
            old(self).inv(),
        ensures
            final(self).inv(),
    ;

    /// The full prompt context for the next model call.
    fn build_messages(&self) -> (r: Vec<Message>)
        requires
            self.inv(),
        ensures
            views_of(r@) == self.context_spec(),
    ;

    /// Record one turn in the agent's memory.
    fn add_message(&mut self, message: Message)
        requires
            old(self).inv(),
        ensures
            final(self).inv(),
    ;

    /// Drive the agent on a user prompt until it answers or gives up.
    fn run(&mut self, user_prompt: &str) -> (r: String)
        requires
            old(self).inv(),
        ensures
            final(self).inv(),
            Self::run_post(*old(self), *final(self), user_prompt@, r@),
    ;
}

} // verus!
