use vstd::prelude::*;

verus! {

// ---------------------------------------------------------------------------
// Agent prompts
// ---------------------------------------------------------------------------

/// The end-of-answer marker: when the model's text contains it, the text
/// before it is the final answer.
pub fn react_end_token() -> (r: &'static str)
    ensures
        r@ == end_marker(),
{
    "FINAL_ANSWER"
}

pub open spec fn end_marker() -> Seq<char> {
    "FINAL_ANSWER"@
}

/// The fixed preamble prepended to every agent's system prompt.
pub fn react_system_prompt() -> (r: &'static str)
    ensures
        r@ == react_system_preamble(),
{
    "You are an agent that reasons step by step and may call tools. When you know the final answer, write it followed by the marker FINAL_ANSWER."
}

pub open spec fn react_system_preamble() -> Seq<char> {
    "You are an agent that reasons step by step and may call tools. When you know the final answer, write it followed by the marker FINAL_ANSWER."@
}

/// The answer returned when the iteration ceiling is reached without a
/// final answer.
pub fn exhausted_message() -> (r: &'static str)
    ensures
        r@ == exhausted_text(),
{
    "Reached maximum iterations without a final answer."
}

pub open spec fn exhausted_text() -> Seq<char> {
    "Reached maximum iterations without a final answer."@
}

/// The deterministic result recorded for a tool call whose tool is not
/// registered.
pub fn tool_not_found_message() -> (r: &'static str)
    ensures
        r@ == tool_not_found_text(),
{
    "Tool not found."
}

pub open spec fn tool_not_found_text() -> Seq<char> {
    "Tool not found."@
}

/// The diagnostic placeholder recorded for a model response that carries
/// neither content nor tool calls.
pub fn no_content_message() -> (r: &'static str)
    ensures
        r@ == no_content_text(),
{
    "[no response content]"
}

pub open spec fn no_content_text() -> Seq<char> {
    "[no response content]"@
}

// ---------------------------------------------------------------------------
// Summarization prompts
// ---------------------------------------------------------------------------

/// Text placed before the flattened conversation in a summarization
/// request.
pub fn summary_prompt_prefix() -> (r: &'static str)
    ensures
        r@ == summary_prefix_text(),
{
    "Summarize the following conversation as JSON with the string fields task_context and current_state and the string-array fields key_decisions, actions_taken and important_info.\n\nConversation:\n"
}

pub open spec fn summary_prefix_text() -> Seq<char> {
    "Summarize the following conversation as JSON with the string fields task_context and current_state and the string-array fields key_decisions, actions_taken and important_info.\n\nConversation:\n"@
}

/// Text placed before the target token count in a compression request.
pub fn compress_prompt_prefix() -> (r: &'static str)
    ensures
        r@ == compress_prefix_text(),
{
    "Rewrite the following summary so that it fits in at most this many tokens: "
}

pub open spec fn compress_prefix_text() -> Seq<char> {
    "Rewrite the following summary so that it fits in at most this many tokens: "@
}

/// Text placed between the target token count and the summary in a
/// compression request.
pub fn compress_prompt_middle() -> (r: &'static str)
    ensures
        r@ == compress_middle_text(),
{
    ". Answer as JSON with the string fields task_context and current_state and the string-array fields key_decisions, actions_taken and important_info.\n\nSummary:\n"
}

pub open spec fn compress_middle_text() -> Seq<char> {
    ". Answer as JSON with the string fields task_context and current_state and the string-array fields key_decisions, actions_taken and important_info.\n\nSummary:\n"@
}

/// The divider written between the old summary and a newly appended
/// summarization pass.
pub fn summary_divider() -> (r: &'static str)
    ensures
        r@ == divider_text(),
{
    "\n\n---\n\n"
}

pub open spec fn divider_text() -> Seq<char> {
    "\n\n---\n\n"@
}

/// The marker prefixed to a summary reloaded from durable storage.
pub fn previous_summary_prefix() -> (r: &'static str)
    ensures
        r@ == previous_summary_text(),
{
    "Previous conversation summary:\n "
}

pub open spec fn previous_summary_text() -> Seq<char> {
    "Previous conversation summary:\n "@
}

} // verus!
