use vstd::prelude::*;
use crate::model::schema::{tool_call_rendered, views_of_calls, ToolCall, ToolCallValue};
use crate::tool::base::{ToolSchema, ToolSchemaValue};

verus! {

/// An agent that owns a tool registry: it can describe its tools to the
/// model and dispatch a requested call by name.
pub trait ToolAgent: Sized {
    /// The registry's well-formedness.
    spec fn tools_wf(&self) -> bool;

    /// A tool is registered under this name.
    spec fn tool_registered(&self, name: Seq<char>) -> bool;

    /// The schema descriptors of every registered tool, in order.
    spec fn tools_schema_spec(&self) -> Seq<ToolSchemaValue>;

    /// Schema descriptors for every registered tool.
    fn get_tools_schema(&self) -> (r: Vec<ToolSchema>)
        requires
            self.tools_wf(),
        ensures
            crate::tool::manager::views_of_schemas(r@) == self.tools_schema_spec(),
    ;

    /// Serialize tool-call records to text.
    fn format_tool_calls(&self, tool_calls: &Vec<ToolCall>) -> (r: Vec<String>)
        ensures
            r.deep_view() == views_of_calls(tool_calls@).map_values(
                |c: ToolCallValue| tool_call_rendered(c),
            ),
    ;

    /// Run the named tool on the raw argument payload; nothing comes back
    /// exactly when the name is not registered.
    fn execute_tool(&self, tool_name: &str, arguments: &str) -> (r: Option<String>)
        requires
            self.tools_wf(),
        ensures
            (r is Some) == self.tool_registered(tool_name@),
    ;
}

} // verus!
