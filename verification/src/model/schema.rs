use vstd::prelude::*;
use vstd::string::StringExecFns;

verus! {

/// The role a conversation turn is tagged with.
#[derive(Clone, Copy, PartialEq, Eq, Structural, Debug)]
pub enum Role {
    SYSTEM,
    USER,
    ASSISTANT,
    TOOL,
}

impl Role {
    /// The lower-case name of the role, as used in flattened transcripts.
    pub open spec fn spec_str(self) -> Seq<char> {
        match self {
            Role::SYSTEM => "system"@,
            Role::USER => "user"@,
            Role::ASSISTANT => "assistant"@,
            Role::TOOL => "tool"@,
        }
    }

    pub fn as_str(&self) -> (r: &'static str)
        ensures
            r@ == self.spec_str(),
    {
        match self {
            Role::SYSTEM => "system",
            Role::USER => "user",
            Role::ASSISTANT => "assistant",
            Role::TOOL => "tool",
        }
    }
}

/// One tool invocation requested by the model: an identifier, the tool's
/// name, and an opaque textual argument payload.
#[derive(Debug)]
pub struct ToolCall {
    pub id: String,
    pub name: String,
    pub arguments: String,
}

pub ghost struct ToolCallValue {
    pub id: Seq<char>,
    pub name: Seq<char>,
    pub arguments: Seq<char>,
}

impl View for ToolCall {
    type V = ToolCallValue;

    open spec fn view(&self) -> ToolCallValue {
        ToolCallValue { id: self.id@, name: self.name@, arguments: self.arguments@ }
    }
}

impl Clone for ToolCall {
    fn clone(&self) -> (r: Self)
        ensures
            r == *self,
    {
        ToolCall { id: self.id.clone(), name: self.name.clone(), arguments: self.arguments.clone() }
    }
}

pub open spec fn views_of_calls(s: Seq<ToolCall>) -> Seq<ToolCallValue> {
    s.map_values(|c: ToolCall| c@)
}

/// One turn of a conversation. A `TOOL` turn carries the identifier of the
/// assistant tool call it answers.
#[derive(Debug)]
pub struct Message {
    pub role: Role,
    pub content: String,
    pub tool_calls: Option<Vec<ToolCall>>,
    pub tool_call_id: Option<String>,
}

pub ghost struct MessageValue {
    pub role: Role,
    pub content: Seq<char>,
    pub tool_calls: Option<Seq<ToolCallValue>>,
    pub tool_call_id: Option<Seq<char>>,
}

impl View for Message {
    type V = MessageValue;

    open spec fn view(&self) -> MessageValue {
        MessageValue {
            role: self.role,
            content: self.content@,
            tool_calls: match self.tool_calls {
                Some(calls) => Some(views_of_calls(calls@)),
                None => None,
            },
            tool_call_id: match self.tool_call_id {
                Some(id) => Some(id@),
                None => None,
            },
        }
    }
}

/// The views of a sequence of messages.
pub open spec fn views_of(s: Seq<Message>) -> Seq<MessageValue> {
    s.map_values(|m: Message| m@)
}

pub proof fn lemma_views_of_push(s: Seq<Message>, m: Message)
    ensures
        views_of(s.push(m)) =~= views_of(s).push(m@),
{
}

pub proof fn lemma_views_of_skip(s: Seq<Message>, n: int)
    requires
        0 <= n <= s.len(),
    ensures
        views_of(s.skip(n)) =~= views_of(s).skip(n),
{
}

impl Clone for Message {
    fn clone(&self) -> (r: Self)
        ensures
            r@ == self@,
    {
        Message {
            role: self.role,
            content: self.content.clone(),
            tool_calls: match &self.tool_calls {
                Some(calls) => Some(calls.clone()),
                None => None,
            },
            tool_call_id: match &self.tool_call_id {
                Some(id) => Some(id.clone()),
                None => None,
            },
        }
    }
}

impl Message {
    /// The turn as one line of text: the role's name, a separator, and
    /// the content.
    pub fn to_text(&self) -> (r: String)
        ensures
            r@ == self@.role.spec_str() + ": "@ + self@.content,
    {
        let mut s = String::from_str(self.role.as_str());
        s.append(": ");
        s.append(self.content.as_str());
        s
    }
}

/// A plain text turn: no tool calls, no tool call identifier.
pub open spec fn plain_message(role: Role, content: Seq<char>) -> MessageValue {
    MessageValue { role, content, tool_calls: None, tool_call_id: None }
}

impl Message {
    pub fn system(content: &str) -> (m: Message)
        ensures
            m@ == plain_message(Role::SYSTEM, content@),
    {
        Message { role: Role::SYSTEM, content: content.to_owned(), tool_calls: None, tool_call_id: None }
    }

    pub fn user(content: &str) -> (m: Message)
        ensures
            m@ == plain_message(Role::USER, content@),
    {
        Message { role: Role::USER, content: content.to_owned(), tool_calls: None, tool_call_id: None }
    }

    pub fn assistant(content: &str) -> (m: Message)
        ensures
            m@ == plain_message(Role::ASSISTANT, content@),
    {
        Message { role: Role::ASSISTANT, content: content.to_owned(), tool_calls: None, tool_call_id: None }
    }

    pub fn tool(content: &str) -> (m: Message)
        ensures
            m@ == plain_message(Role::TOOL, content@),
    {
        Message { role: Role::TOOL, content: content.to_owned(), tool_calls: None, tool_call_id: None }
    }

    /// A tool-result turn carrying the identifier of the call it answers.
    pub fn tool_result(content: &str, tool_call_id: &str) -> (m: Message)
        ensures
            m@.role == Role::TOOL,
            m@.content == content@,
            m@.tool_calls is None,
            m@.tool_call_id == Some(tool_call_id@),
    {
        Message {
            role: Role::TOOL,
            content: content.to_owned(),
            tool_calls: None,
            tool_call_id: Some(tool_call_id.to_owned()),
        }
    }
}

/// The one-line text form of a tool call, used for transcripts and logs.
pub open spec fn tool_call_rendered(c: ToolCallValue) -> Seq<char> {
    "{id: "@ + c.id + ", name: "@ + c.name + ", arguments: "@ + c.arguments + "}"@
}

impl ToolCall {
    /// Serialize this call to its one-line text form.
    pub fn render(&self) -> (r: String)
        ensures
            r@ == tool_call_rendered(self@),
    {
        let mut s = crate::strutil::concat_strs("{id: ", self.id.as_str());
        s.append(", name: ");
        s.append(self.name.as_str());
        s.append(", arguments: ");
        s.append(self.arguments.as_str());
        s.append("}");
        s
    }
}

/// Token usage reported by a model backend.
#[derive(Clone, Copy, Debug)]
pub struct Usage {
    pub prompt_tokens: u32,
    pub completion_tokens: u32,
    pub total_tokens: u32,
}

/// What a model call yields. A failed call surfaces as a response with every
/// field empty, never as an error.
#[derive(Debug)]
pub struct LLMResponse {
    pub content: Option<String>,
    pub reasoning_content: Option<String>,
    pub tool_calls: Option<Vec<ToolCall>>,
    pub usage: Option<Usage>,
}

pub ghost struct LLMResponseValue {
    pub content: Option<Seq<char>>,
    pub reasoning_content: Option<Seq<char>>,
    pub tool_calls: Option<Seq<ToolCallValue>>,
    pub usage: Option<Usage>,
}

impl View for LLMResponse {
    type V = LLMResponseValue;

    open spec fn view(&self) -> LLMResponseValue {
        LLMResponseValue {
            content: match self.content {
                Some(c) => Some(c@),
                None => None,
            },
            reasoning_content: match self.reasoning_content {
                Some(c) => Some(c@),
                None => None,
            },
            tool_calls: match self.tool_calls {
                Some(calls) => Some(views_of_calls(calls@)),
                None => None,
            },
            usage: self.usage,
        }
    }
}

impl LLMResponse {
    /// The response a failed transport call degrades to.
    pub fn empty() -> (r: LLMResponse)
        ensures
            r.content is None,
            r.reasoning_content is None,
            r.tool_calls is None,
            r.usage is None,
    {
        LLMResponse { content: None, reasoning_content: None, tool_calls: None, usage: None }
    }
}

} // verus!
