use r_agent::memory::summary_format::{format_conversation, parse_summary, render_summary, Summary};
use r_agent::model::schema::{Message, ToolCall};
use r_agent::strutil::{concat_strs, find_sub, take_chars, trim_str, usize_to_string};

#[test]
fn test_usize_to_string() {
    assert_eq!(usize_to_string(0), "0");
    assert_eq!(usize_to_string(7), "7");
    assert_eq!(usize_to_string(80), "80");
    assert_eq!(usize_to_string(12345), "12345");
}

#[test]
fn test_find_sub() {
    assert_eq!(find_sub("hello world", "world"), Some(6));
    assert_eq!(find_sub("hello world", "o"), Some(4));
    assert_eq!(find_sub("hello world", "xyz"), None);
    assert_eq!(find_sub("aaa", "aa"), Some(0));
    assert_eq!(find_sub("abc", ""), Some(0));
}

#[test]
fn test_take_chars() {
    assert_eq!(take_chars("abcdef", 3), "abc");
    assert_eq!(take_chars("abc", 10), "abc");
    assert_eq!(take_chars("", 5), "");
}

#[test]
fn test_trim_str() {
    assert_eq!(trim_str("  spaced out \n"), "spaced out");
    assert_eq!(trim_str("untouched"), "untouched");
    assert_eq!(trim_str(" \t\r\n "), "");
    assert_eq!(trim_str(""), "");
}

#[test]
fn test_concat_strs() {
    assert_eq!(concat_strs("foo", "bar"), "foobar");
    assert_eq!(concat_strs("", "x"), "x");
}

#[test]
fn test_parse_summary_well_formed() {
    let text = "Sure! {\"task_context\": \"ctx\", \"key_decisions\": [\"d1\", \"d2\"], \"actions_taken\": [\"a\"], \"current_state\": \"state\", \"important_info\": []} hope that helps";
    let parsed = parse_summary(text).expect("should parse");
    assert_eq!(parsed.task_context, "ctx");
    assert_eq!(parsed.key_decisions, vec!["d1".to_string(), "d2".to_string()]);
    assert_eq!(parsed.actions_taken, vec!["a".to_string()]);
    assert_eq!(parsed.current_state, "state");
    assert!(parsed.important_info.is_empty());
}

#[test]
fn test_parse_summary_malformed() {
    assert!(parse_summary("no json here").is_none());
    assert!(parse_summary("").is_none());
    assert!(parse_summary("{\"task_context\": 3}").is_none());
    assert!(parse_summary("{\"task_context\": \"x\"}").is_none());
}

#[test]
fn test_render_summary() {
    let summary = Summary {
        task_context: "ctx".to_string(),
        key_decisions: vec!["d1".to_string(), "d2".to_string()],
        actions_taken: vec!["a".to_string()],
        current_state: "state".to_string(),
        important_info: Vec::new(),
    };
    let rendered = render_summary(&summary);
    assert_eq!(
        rendered,
        "Task Context:\nctx\n\nKey Decisions:\n- d1\n- d2\n\nActions Taken:\n- a\n\nCurrent State:\nstate\n\nImportant Info:\n"
    );
}

#[test]
fn test_message_to_text() {
    assert_eq!(Message::user("hello").to_text(), "user: hello");
    assert_eq!(Message::system("be nice").to_text(), "system: be nice");
    assert_eq!(Message::assistant("hi").to_text(), "assistant: hi");
    assert_eq!(Message::tool("done").to_text(), "tool: done");
}

#[test]
fn test_format_conversation_plain() {
    let msgs = vec![Message::user("hi"), Message::assistant("hello")];
    assert_eq!(format_conversation(&msgs), "user: hi\nassistant: hello\n");
}

#[test]
fn test_format_conversation_tool_metadata() {
    let mut call_turn = Message::assistant("checking");
    call_turn.tool_calls = Some(vec![ToolCall {
        id: "c1".to_string(),
        name: "echo".to_string(),
        arguments: "{}".to_string(),
    }]);
    let result_turn = Message::tool_result("ok", "c1");
    let msgs = vec![call_turn, result_turn];
    assert_eq!(
        format_conversation(&msgs),
        "assistant: checking With Tool Calls: [{id: c1, name: echo, arguments: {}}]\ntool: result: ok With Tool Call ID: c1\n"
    );
}

#[test]
fn test_format_conversation_truncates_long_content() {
    let long = "x".repeat(600);
    let msgs = vec![Message::user(&long)];
    let formatted = format_conversation(&msgs);
    let expected = format!("user: {}...[truncated]\n", "x".repeat(500));
    assert_eq!(formatted, expected);
}
