use std::cell::Cell;

use r_agent::memory::base::BaseMemory;
use r_agent::memory::sliding_window::SlidingWindowMemory;
use r_agent::memory::summary::SummaryMemory;
use r_agent::model::base::BaseModel;
use r_agent::model::schema::{LLMResponse, Message};

/// A stand-in model that always answers with the same fixed text (or with
/// nothing, when `text` is `None`), counting its calls.
struct FixedModel {
    text: Option<String>,
    calls: Cell<usize>,
}

impl FixedModel {
    fn new(text: Option<&str>) -> FixedModel {
        FixedModel { text: text.map(|t| t.to_string()), calls: Cell::new(0) }
    }
}

impl BaseModel for FixedModel {
    fn model_name(&self) -> String {
        "gpt-4o-mini".to_string()
    }

    fn call(&self, _message: &Message) -> LLMResponse {
        self.calls.set(self.calls.get() + 1);
        LLMResponse {
            content: self.text.clone(),
            reasoning_content: None,
            tool_calls: None,
            usage: None,
        }
    }

    fn call_with_history(&self, _history: &Vec<Message>) -> LLMResponse {
        self.call(&Message::user(""))
    }
}

const GOOD_SUMMARY: &str = "Here you go: {\"task_context\": \"testing\", \"key_decisions\": [\"kept going\"], \"actions_taken\": [\"added turns\"], \"current_state\": \"running\", \"important_info\": [\"none\"]}";

#[test]
fn test_sliding_window_memory() {
    let mut memory = SlidingWindowMemory::new(3, "gpt-4o-mini", 20);
    memory.add(Message::user("Hello"));
    memory.add(Message::user("How are you?"));
    memory.add(Message::user("Tell me a joke."));
    let msgs: Vec<Message> = memory.get_messages();
    assert_eq!(msgs.len(), 3);
    memory.add(Message::user("What's the weather like?"));
    let more: Vec<Message> = memory.get_messages();
    assert_eq!(more.len(), 3);
    assert_eq!(more[0].content, "How are you?");
}

#[test]
fn test_sliding_window_token_eviction() {
    // a tight token budget evicts oldest turns even below the message cap
    let mut memory = SlidingWindowMemory::new(10, "gpt-4o-mini", 8);
    memory.add(Message::user("one two three four five"));
    memory.add(Message::user("six seven eight nine ten"));
    assert!(memory.token_count() <= 8);
    let msgs = memory.get_messages();
    for m in &msgs {
        assert_ne!(m.content, "one two three four five");
    }
}

#[test]
fn test_sliding_window_clear() {
    let mut memory = SlidingWindowMemory::new(3, "gpt-4o-mini", 20);
    memory.add(Message::user("Hello"));
    memory.clear();
    assert_eq!(memory.get_messages().len(), 0);
    assert_eq!(memory.token_count(), 0);
}

#[test]
fn test_sliding_window_evicts_oversized_single_turn() {
    // a single turn bigger than the whole token budget does not survive
    let mut memory = SlidingWindowMemory::new(5, "gpt-4o-mini", 3);
    memory.add(Message::user("this one message is far bigger than the three token budget"));
    assert_eq!(memory.get_messages().len(), 0);
    assert_eq!(memory.token_count(), 0);
}

#[test]
fn test_summary_memory_keeps_oversized_newest_turn() {
    // the newest turn is never dropped, even when it alone exceeds the
    // whole token budget
    let summary_model = FixedModel::new(Some(GOOD_SUMMARY));
    let mut memory = SummaryMemory::new("oversized", 20, summary_model, 3);
    memory.add(Message::user("this one message is far bigger than the three token budget"));
    let msgs = memory.get_messages();
    // the summary turn plus exactly the one oversized live turn
    assert_eq!(msgs.len(), 2);
    assert!(memory.token_count() > 3);
}

#[test]
fn test_summary_memory() {
    let summary_model = FixedModel::new(Some(GOOD_SUMMARY));
    let mut memory = SummaryMemory::new("test_task", 20, summary_model, 100);
    for i in 0..15 {
        let content = format!("This is test message number {}. {}", i, "A".repeat(50));
        memory.add(Message::user(&content));
    }
    let total_tokens = memory.token_count();
    assert!(total_tokens <= 100);
    let msgs: Vec<Message> = memory.get_messages();
    assert!(msgs.len() >= 1);
    println!("Messages in memory:");
    for msg in msgs {
        println!("{}: {}", msg.role.as_str(), msg.content);
    }
}

#[test]
fn test_summary_scenario_budget() {
    // max_tokens = 100, reserve 20% (summary budget 80), 15 user turns of
    // roughly 60 tokens each: the memory must stay within budget and
    // still yield the summary turn followed by at least one live turn
    let summary_model = FixedModel::new(Some(GOOD_SUMMARY));
    let mut memory = SummaryMemory::new("scenario", 20, summary_model, 100);
    assert_eq!(memory.summary_budget(), 80);
    for i in 0..15 {
        let word = "budget ".repeat(40);
        let content = format!("turn {}: {}", i, word);
        memory.add(Message::user(&content));
    }
    assert!(memory.token_count() <= 100);
    let msgs = memory.get_messages();
    assert!(msgs.len() >= 2);
    assert_eq!(msgs[0].role.as_str(), "system");
    assert!(!msgs[0].content.is_empty());
}

#[test]
fn test_summary_memory_appends_rendered_summary() {
    let summary_model = FixedModel::new(Some(GOOD_SUMMARY));
    let mut memory = SummaryMemory::new("rendered", 20, summary_model, 40);
    memory.add(Message::user(&"alpha beta gamma delta ".repeat(10)));
    memory.add(Message::user(&"epsilon zeta eta theta ".repeat(10)));
    let text = memory.summary_text();
    assert!(text.contains("Task Context:\ntesting"));
    assert!(text.contains("- kept going"));
    assert!(text.contains("- added turns"));
    assert!(text.contains("Current State:\nrunning"));
    assert!(text.contains("- none"));
    assert!(memory.summary_dirty);
}

#[test]
fn test_summary_memory_retries_then_keeps_raw_text() {
    // three malformed responses degrade to the first 1000 characters of
    // the raw text
    let summary_model = FixedModel::new(Some("not json at all"));
    let mut memory = SummaryMemory::new("raw", 20, summary_model, 40);
    memory.add(Message::user(&"alpha beta gamma delta ".repeat(10)));
    memory.add(Message::user(&"epsilon zeta eta theta ".repeat(10)));
    assert_eq!(memory.summary_model.calls.get(), 3);
    assert_eq!(memory.summary_text(), "not json at all");
}

#[test]
fn test_summary_memory_no_content_keeps_half() {
    // three empty responses degrade to half of the existing summary,
    // which starts out empty
    let summary_model = FixedModel::new(None);
    let mut memory = SummaryMemory::new("half", 20, summary_model, 40);
    memory.load_existing_summary("abcdefgh");
    let before = memory.summary_text();
    memory.add(Message::user(&"alpha beta gamma delta ".repeat(10)));
    memory.add(Message::user(&"epsilon zeta eta theta ".repeat(10)));
    assert_eq!(memory.summary_model.calls.get(), 3);
    let after = memory.summary_text();
    // the degraded addition is the first half of the prior summary,
    // appended after the divider
    let expected_addition: String = before.chars().take(before.chars().count() / 2).collect();
    assert_eq!(after, format!("{}\n\n---\n\n{}", before, expected_addition));
}

#[test]
fn test_summary_compression_replaces_wholesale() {
    // a rendered summary that cannot fit the 32-token budget: the pass
    // that appends it immediately compresses, replacing the summary
    // wholesale with the compression outcome, halved until it fits
    let big = "{\"task_context\": \"a very long rambling account of everything that has happened so far in this conversation including many incidental details\", \"key_decisions\": [\"first choice\", \"second choice\"], \"actions_taken\": [\"did one thing\", \"did another thing\"], \"current_state\": \"still going strong with much remaining\", \"important_info\": [\"remember this\", \"and this too\"]}";
    let summary_model = FixedModel::new(Some(big));
    let mut memory = SummaryMemory::new("compress", 20, summary_model, 40);
    assert_eq!(memory.summary_budget(), 32);
    memory.add(Message::user(&"alpha beta gamma delta ".repeat(10)));
    memory.add(Message::user(&"epsilon zeta eta theta ".repeat(10)));
    // one summarization call, then one compression call
    assert_eq!(memory.summary_model.calls.get(), 2);
    let expected = r_agent::memory::summary_format::render_summary(
        &r_agent::memory::summary_format::Summary {
            task_context: "a very long rambling account of everything that has happened so far in this conversation including many incidental details".to_string(),
            key_decisions: vec!["first choice".to_string(), "second choice".to_string()],
            actions_taken: vec!["did one thing".to_string(), "did another thing".to_string()],
            current_state: "still going strong with much remaining".to_string(),
            important_info: vec!["remember this".to_string(), "and this too".to_string()],
        },
    );
    // replaced wholesale, then cut to the budget: what is left is a
    // prefix of one rendering, with no divider appended
    let text = memory.summary_text();
    assert!(!text.is_empty());
    assert!(expected.starts_with(&text));
    assert!(!text.contains("\n\n---\n\n"));
    assert!(memory.summary_tokens <= 32);
}

#[test]
fn test_summary_restart_roundtrip() {
    // restart simulation: reloading a persisted summary reproduces it,
    // prefixed with the previous-summary marker
    let model1 = FixedModel::new(Some(GOOD_SUMMARY));
    let mut first = SummaryMemory::new("restart", 20, model1, 40);
    first.add(Message::user(&"alpha beta gamma delta ".repeat(10)));
    first.add(Message::user(&"epsilon zeta eta theta ".repeat(10)));
    let persisted = first.summary_text();
    assert!(!persisted.is_empty());

    let model2 = FixedModel::new(Some(GOOD_SUMMARY));
    let mut second = SummaryMemory::new("restart", 20, model2, 40);
    second.load_existing_summary(&persisted);
    assert_eq!(
        second.summary_text(),
        format!("Previous conversation summary:\n {}", persisted)
    );
    assert!(!second.summary_dirty);
}

#[test]
fn test_summary_clear_keeps_summary() {
    let summary_model = FixedModel::new(Some(GOOD_SUMMARY));
    let mut memory = SummaryMemory::new("clear", 20, summary_model, 100);
    memory.load_existing_summary("kept");
    memory.add(Message::user("hello"));
    memory.clear();
    assert_eq!(memory.token_count(), 0);
    let msgs = memory.get_messages();
    assert_eq!(msgs.len(), 1);
    assert_eq!(msgs[0].content, "Previous conversation summary:\n kept");
}
