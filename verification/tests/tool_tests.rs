use r_agent::model::schema::ToolCall;
use r_agent::tool::base::{Tool, ToolParameters, ToolParametersPropoerty};
use r_agent::tool::manager::ToolManager;

#[derive(Debug)]
struct DummyTool;

impl Tool for DummyTool {
    fn name(&self) -> String {
        "dummy_tool".to_string()
    }

    fn type_(&self) -> String {
        "object".to_string()
    }

    fn description(&self) -> String {
        "A dummy tool for testing".to_string()
    }

    fn parameters(&self) -> ToolParameters {
        ToolParameters { type_: "object".to_string(), properties: Vec::new(), reqiured: Vec::new() }
    }

    fn init(&mut self) {}

    fn execute(&self, _input: &str) -> String {
        "dummy_output".to_string()
    }
}

/// A tool whose name and output are chosen at construction.
struct NamedTool {
    name: String,
    output: String,
}

impl Tool for NamedTool {
    fn name(&self) -> String {
        self.name.clone()
    }

    fn type_(&self) -> String {
        "object".to_string()
    }

    fn description(&self) -> String {
        format!("tool {}", self.name)
    }

    fn parameters(&self) -> ToolParameters {
        ToolParameters { type_: "object".to_string(), properties: Vec::new(), reqiured: Vec::new() }
    }

    fn init(&mut self) {}

    fn execute(&self, input: &str) -> String {
        format!("{}:{}", self.output, input)
    }
}

#[test]
fn test_tool_parameters() {
    let mut properties = Vec::new();
    properties.push((
        "location".to_string(),
        ToolParametersPropoerty {
            type_: "string".to_string(),
            description: "The location to get the weather for".to_string(),
        },
    ));
    let parameters = ToolParameters {
        type_: "object".to_string(),
        properties,
        reqiured: vec!["location".to_string()],
    };
    assert_eq!(parameters.type_, "object");
    assert_eq!(parameters.reqiured.len(), 1);
}

#[test]
fn test_tool_manager() {
    let tools: Vec<DummyTool> = vec![DummyTool];
    let manager = ToolManager::new(tools);
    assert_eq!(manager.get_tool_names(), vec!["dummy_tool".to_string()]);
    assert!(manager.get_tool("dummy_tool").is_some());
    assert!(manager.get_tool("other").is_none());
}

#[test]
fn test_tool_manager_execute() {
    let manager = ToolManager::new(vec![
        NamedTool { name: "first".to_string(), output: "one".to_string() },
        NamedTool { name: "second".to_string(), output: "two".to_string() },
    ]);
    assert_eq!(manager.execute_tool("first", "a").as_deref(), Some("one:a"));
    assert_eq!(manager.execute_tool("second", "b").as_deref(), Some("two:b"));
    assert!(manager.execute_tool("third", "c").is_none());
}

#[test]
fn test_tool_manager_last_registration_wins() {
    let manager = ToolManager::new(vec![
        NamedTool { name: "dup".to_string(), output: "old".to_string() },
        NamedTool { name: "dup".to_string(), output: "new".to_string() },
    ]);
    assert_eq!(manager.get_tool_names().len(), 1);
    assert_eq!(manager.execute_tool("dup", "x").as_deref(), Some("new:x"));
}

#[test]
fn test_tool_manager_get_schema() {
    let manager = ToolManager::new(vec![
        NamedTool { name: "alpha".to_string(), output: "a".to_string() },
        NamedTool { name: "beta".to_string(), output: "b".to_string() },
    ]);
    let schemas = manager.get_schema(&vec![
        "beta".to_string(),
        "missing".to_string(),
        "alpha".to_string(),
    ]);
    assert_eq!(schemas.len(), 2);
    assert_eq!(schemas[0].name, "beta");
    assert_eq!(schemas[1].name, "alpha");
    assert_eq!(schemas[0].description, "tool beta");
}

#[test]
fn test_tool_manager_clear() {
    let mut manager = ToolManager::new(vec![DummyTool]);
    manager.clear();
    assert_eq!(manager.get_tool_names().len(), 0);
    assert!(manager.get_tool("dummy_tool").is_none());
}

#[test]
fn test_format_tool_calls() {
    let manager = ToolManager::new(Vec::<DummyTool>::new());
    let calls = vec![
        ToolCall {
            id: "c1".to_string(),
            name: "echo".to_string(),
            arguments: "{\"v\": 1}".to_string(),
        },
        ToolCall { id: "c2".to_string(), name: "sum".to_string(), arguments: "[]".to_string() },
    ];
    let formatted = manager.format_tool_calls(&calls);
    assert_eq!(
        formatted,
        vec![
            "{id: c1, name: echo, arguments: {\"v\": 1}}".to_string(),
            "{id: c2, name: sum, arguments: []}".to_string(),
        ]
    );
}
