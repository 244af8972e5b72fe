pub mod base;
pub mod react_agent;
pub mod tool_agent;
