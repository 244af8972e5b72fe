use std::cell::Cell;
use std::cell::RefCell;

use r_agent::agent::base::BaseAgent;
use r_agent::agent::tool_agent::ToolAgent;
use r_agent::agent::react_agent::ReactAgent;
use r_agent::memory::summary::SummaryMemory;
use r_agent::memory::sliding_window::SlidingWindowMemory;
use r_agent::model::base::BaseModel;
use r_agent::model::schema::{LLMResponse, Message, Role, ToolCall};
use r_agent::tool::base::{Tool, ToolParameters, ToolParametersPropoerty};
use r_agent::tool::manager::ToolManager;

/// One scripted reply for a stand-in model.
enum Step {
    Text(&'static str),
    WithCalls(&'static str, Vec<(&'static str, &'static str, &'static str)>),
    Empty,
}

/// A stand-in model that replays a fixed script, recording every context
/// it is called with.
struct ScriptedModel {
    steps: RefCell<Vec<Step>>,
    calls: Cell<usize>,
    seen: RefCell<Vec<Vec<String>>>,
}

impl ScriptedModel {
    fn new(mut steps: Vec<Step>) -> ScriptedModel {
        steps.reverse();
        ScriptedModel { steps: RefCell::new(steps), calls: Cell::new(0), seen: RefCell::new(Vec::new()) }
    }

    fn next_response(&self) -> LLMResponse {
        self.calls.set(self.calls.get() + 1);
        match self.steps.borrow_mut().pop() {
            Some(Step::Text(t)) => LLMResponse {
                content: Some(t.to_string()),
                reasoning_content: None,
                tool_calls: None,
                usage: None,
            },
            Some(Step::WithCalls(t, calls)) => LLMResponse {
                content: Some(t.to_string()),
                reasoning_content: None,
                tool_calls: Some(
                    calls
                        .into_iter()
                        .map(|(id, name, arguments)| ToolCall {
                            id: id.to_string(),
                            name: name.to_string(),
                            arguments: arguments.to_string(),
                        })
                        .collect(),
                ),
                usage: None,
            },
            Some(Step::Empty) | None => LLMResponse {
                content: None,
                reasoning_content: None,
                tool_calls: None,
                usage: None,
            },
        }
    }
}

impl BaseModel for ScriptedModel {
    fn model_name(&self) -> String {
        "gpt-4o-mini".to_string()
    }

    fn call(&self, message: &Message) -> LLMResponse {
        self.seen.borrow_mut().push(vec![message.content.clone()]);
        self.next_response()
    }

    fn call_with_history(&self, history: &Vec<Message>) -> LLMResponse {
        self.seen.borrow_mut().push(history.iter().map(|m| m.content.clone()).collect());
        self.next_response()
    }
}

/// A tool that echoes its input back.
struct EchoTool;

impl Tool for EchoTool {
    fn name(&self) -> String {
        "echo".to_string()
    }

    fn type_(&self) -> String {
        "object".to_string()
    }

    fn description(&self) -> String {
        "Echoes its input".to_string()
    }

    fn parameters(&self) -> ToolParameters {
        ToolParameters {
            type_: "object".to_string(),
            properties: vec![(
                "value".to_string(),
                ToolParametersPropoerty {
                    type_: "string".to_string(),
                    description: "What to echo".to_string(),
                },
            )],
            reqiured: vec!["value".to_string()],
        }
    }

    fn init(&mut self) {}

    fn execute(&self, input: &str) -> String {
        format!("echo says {}", input)
    }
}

const GOOD_SUMMARY: &str = "{\"task_context\": \"t\", \"key_decisions\": [], \"actions_taken\": [], \"current_state\": \"s\", \"important_info\": []}";

fn summary_memory(task_id: &str) -> SummaryMemory<ScriptedModel> {
    let summary_model = ScriptedModel::new(vec![Step::Text(GOOD_SUMMARY)]);
    SummaryMemory::new(task_id, 30, summary_model, 8192)
}

#[test]
fn test_react_agent_run() {
    let litellm_model = ScriptedModel::new(vec![Step::Text(
        "Inception follows a dream heist; try 'Paprika' next. FINAL_ANSWER",
    )]);
    let memory = summary_memory("test-1");
    let mut agent = ReactAgent::new(
        litellm_model,
        "You are a React Agent. Use tools to answer user queries.",
        3,
        memory,
        ToolManager::new(vec![EchoTool]),
    );

    let user_prompt = "Can you summarize the plot of 'Inception' and suggest a related movie?";
    let answer = agent.run(user_prompt);
    println!("Agent Answer: {}", answer);
    assert_eq!(answer, "Inception follows a dream heist; try 'Paprika' next.");
}

#[test]
fn test_two_react_agents_run() {
    let litellm_model = ScriptedModel::new(vec![Step::Text("Movies about dreams. FINAL_ANSWER")]);
    let memory = summary_memory("test-1");
    let mut agent1 = ReactAgent::new(
        litellm_model,
        "You are a React Agent.",
        3,
        memory,
        ToolManager::new(Vec::<EchoTool>::new()),
    );

    let litellm_model = ScriptedModel::new(vec![Step::Text("Try 'Inception'. FINAL_ANSWER")]);
    let memory = summary_memory("test-2");
    let mut agent2 = ReactAgent::new(
        litellm_model,
        "You are another React Agent.",
        3,
        memory,
        ToolManager::new(Vec::<EchoTool>::new()),
    );

    let user_prompt = "Can you summarize some movies about dreams?";
    let answer = agent1.run(user_prompt);
    println!("Agent Answer: {}", answer);
    let follow_up_prompt = format!("Based on the previous answer: {}, can you suggest a movie?", answer);
    let follow_up_answer = agent2.run(&follow_up_prompt);
    println!("Follow-up Agent Answer: {}", follow_up_answer);
    assert_eq!(answer, "Movies about dreams.");
    assert_eq!(follow_up_answer, "Try 'Inception'.");
}

#[test]
fn test_agent_exhaustion() {
    // a model that never emits the marker or tool calls: exactly
    // max_iterations model calls, then the fixed exhaustion message
    let model = ScriptedModel::new(vec![
        Step::Text("still thinking"),
        Step::Text("still thinking"),
        Step::Text("still thinking"),
        Step::Text("still thinking"),
        Step::Text("still thinking"),
    ]);
    let memory = SlidingWindowMemory::new(50, "gpt-4o-mini", 100000);
    let mut agent = ReactAgent::new(
        model,
        "You are an agent.",
        4,
        memory,
        ToolManager::new(Vec::<EchoTool>::new()),
    );
    let answer = agent.run("count forever");
    assert_eq!(answer, "Reached maximum iterations without a final answer.");
    assert_eq!(agent.model.calls.get(), 4);
}

#[test]
fn test_agent_empty_response_continues() {
    // a transport failure surfaces as an empty response and is an
    // ordinary continuation, not a fatal condition
    let model = ScriptedModel::new(vec![Step::Empty, Step::Text("done FINAL_ANSWER")]);
    let memory = SlidingWindowMemory::new(50, "gpt-4o-mini", 100000);
    let mut agent = ReactAgent::new(
        model,
        "You are an agent.",
        3,
        memory,
        ToolManager::new(Vec::<EchoTool>::new()),
    );
    let answer = agent.run("hello");
    assert_eq!(answer, "done");
    let history = agent.get_history();
    assert!(history.iter().any(|m| m.content == "[no response content]"));
}

#[test]
fn test_tool_round_trip() {
    // one registered tool call yields exactly one tool turn carrying the
    // tool's output and the call's identifier, and the next model call
    // sees that turn in its context
    let model = ScriptedModel::new(vec![
        Step::WithCalls("let me check", vec![("call-1", "echo", "{\"value\": \"hi\"}")]),
        Step::Text("all done FINAL_ANSWER"),
    ]);
    let memory = SlidingWindowMemory::new(50, "gpt-4o-mini", 100000);
    let mut agent = ReactAgent::new(
        model,
        "You are an agent.",
        3,
        memory,
        ToolManager::new(vec![EchoTool]),
    );
    let answer = agent.run("use the tool");
    assert_eq!(answer, "all done");
    assert_eq!(agent.model.calls.get(), 2);

    let history = agent.get_history();
    let tool_turns: Vec<&Message> =
        history.iter().filter(|m| matches!(m.role, Role::TOOL)).collect();
    assert_eq!(tool_turns.len(), 1);
    assert_eq!(tool_turns[0].content, "echo says {\"value\": \"hi\"}");
    assert_eq!(tool_turns[0].tool_call_id.as_deref(), Some("call-1"));

    let seen = agent.model.seen.borrow();
    assert!(seen[1].iter().any(|c| c == "echo says {\"value\": \"hi\"}"));
}

#[test]
fn test_tool_calls_dispatch_in_request_order() {
    let model = ScriptedModel::new(vec![
        Step::WithCalls(
            "two at once",
            vec![("a1", "echo", "first"), ("a2", "echo", "second")],
        ),
        Step::Text("done FINAL_ANSWER"),
    ]);
    let memory = SlidingWindowMemory::new(50, "gpt-4o-mini", 100000);
    let mut agent = ReactAgent::new(
        model,
        "You are an agent.",
        3,
        memory,
        ToolManager::new(vec![EchoTool]),
    );
    agent.run("go");
    let history = agent.get_history();
    let tool_turns: Vec<&Message> =
        history.iter().filter(|m| matches!(m.role, Role::TOOL)).collect();
    assert_eq!(tool_turns.len(), 2);
    assert_eq!(tool_turns[0].content, "echo says first");
    assert_eq!(tool_turns[0].tool_call_id.as_deref(), Some("a1"));
    assert_eq!(tool_turns[1].content, "echo says second");
    assert_eq!(tool_turns[1].tool_call_id.as_deref(), Some("a2"));
}

#[test]
fn test_unknown_tool() {
    // dispatching to an unregistered name yields the fixed placeholder
    // and does not raise
    let model = ScriptedModel::new(vec![
        Step::WithCalls("calling", vec![("c9", "missing", "{}")]),
        Step::Text("ok FINAL_ANSWER"),
    ]);
    let memory = SlidingWindowMemory::new(50, "gpt-4o-mini", 100000);
    let mut agent = ReactAgent::new(
        model,
        "You are an agent.",
        3,
        memory,
        ToolManager::new(vec![EchoTool]),
    );
    assert!(agent.execute_tool("missing", "{}").is_none());
    let answer = agent.run("use a ghost tool");
    assert_eq!(answer, "ok");
    let history = agent.get_history();
    let tool_turns: Vec<&Message> =
        history.iter().filter(|m| matches!(m.role, Role::TOOL)).collect();
    assert_eq!(tool_turns.len(), 1);
    assert_eq!(tool_turns[0].content, "Tool not found.");
    assert_eq!(tool_turns[0].tool_call_id.as_deref(), Some("c9"));
}

#[test]
fn test_extract_final_answer() {
    let model = ScriptedModel::new(vec![]);
    let memory = SlidingWindowMemory::new(5, "gpt-4o-mini", 1000);
    let agent = ReactAgent::new(
        model,
        "You are an agent.",
        1,
        memory,
        ToolManager::new(Vec::<EchoTool>::new()),
    );
    let with_marker = LLMResponse {
        content: Some("  42  FINAL_ANSWER and some trailing text".to_string()),
        reasoning_content: None,
        tool_calls: None,
        usage: None,
    };
    assert!(agent.is_finished(&with_marker));
    assert_eq!(agent.extract_final_answer(&with_marker).as_deref(), Some("42"));

    let without_marker = LLMResponse {
        content: Some("no conclusion yet".to_string()),
        reasoning_content: None,
        tool_calls: None,
        usage: None,
    };
    assert!(!agent.is_finished(&without_marker));
    assert!(agent.extract_final_answer(&without_marker).is_none());

    let empty = LLMResponse { content: None, reasoning_content: None, tool_calls: None, usage: None };
    assert!(agent.extract_final_answer(&empty).is_none());
}

#[test]
fn test_agent_history_and_clear() {
    let model = ScriptedModel::new(vec![Step::Text("fine FINAL_ANSWER")]);
    let memory = SlidingWindowMemory::new(50, "gpt-4o-mini", 100000);
    let mut agent = ReactAgent::new(
        model,
        "You are an agent.",
        3,
        memory,
        ToolManager::new(Vec::<EchoTool>::new()),
    );
    let built = agent.build_messages();
    assert_eq!(built.len(), 1);
    assert!(built[0].content.starts_with("You are an agent"));

    agent.add_message(Message::user("hi"));
    assert_eq!(agent.get_history().len(), 1);
    agent.clear_history();
    assert_eq!(agent.get_history().len(), 0);
}
