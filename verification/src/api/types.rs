//! Chat message and API data types, compatible with the OpenAI wire format.

use vstd::prelude::*;
use crate::text::owned;

verus! {

/// A JSON value, carried through the library unchanged.
#[verifier::external_type_specification]
#[verifier::external_body]
pub struct ExJsonValue(serde_json::Value);

/// The derived `Clone` of `serde_json::Value` copies the whole tree.
///
/// Trusted: the copy equals the value it copies.
pub assume_specification[ <serde_json::Value as Clone>::clone ](v: &serde_json::Value) -> (r:
    serde_json::Value)
    ensures
        r == *v,
;

/// A fresh random message identifier.
///
/// Trusted: calls `uuid::Uuid::new_v4` and takes the 128 bits of the result
/// with `as_u128`. The value comes from a random number generator, so nothing
/// is stated of it.
#[verifier::external_body]
pub fn fresh_message_id() -> (id: u128) {
    uuid::Uuid::new_v4().as_u128()
}

/// The role of a chat message.
#[derive(Debug, Clone, Copy, PartialEq, Eq, Structural)]
pub enum Role {
    System,
    User,
    Assistant,
    Tool,
}

/// The lowercase wire name of a role.
pub open spec fn role_name(r: Role) -> Seq<char> {
    match r {
        Role::System => "system"@,
        Role::User => "user"@,
        Role::Assistant => "assistant"@,
        Role::Tool => "tool"@,
    }
}

impl Role {
    /// The lowercase wire name of the role.
    pub fn as_str(&self) -> (s: &'static str)
        ensures
            s@ == role_name(*self),
    {
        proof {
            reveal_strlit("system");
            reveal_strlit("user");
            reveal_strlit("assistant");
            reveal_strlit("tool");
        }
        match self {
            Role::System => "system",
            Role::User => "user",
            Role::Assistant => "assistant",
            Role::Tool => "tool",
        }
    }
}

/// The function part of a tool call: its name and JSON argument text.
#[derive(Debug, Clone)]
pub struct ToolFunction {
    pub name: String,
    pub arguments: String,
}

/// A tool call embedded in an assistant message.
#[derive(Debug, Clone)]
pub struct ToolCall {
    pub id: String,
    pub call_type: String,
    pub function: ToolFunction,
}

impl ToolCall {
    /// An equal copy of the tool call.
    pub fn duplicate(&self) -> (r: ToolCall)
        ensures
            r == *self,
    {
        ToolCall {
            id: self.id.clone(),
            call_type: self.call_type.clone(),
            function: ToolFunction {
                name: self.function.name.clone(),
                arguments: self.function.arguments.clone(),
            },
        }
    }
}

/// An equal copy of a list of tool calls.
pub fn duplicate_tool_calls(v: &Vec<ToolCall>) -> (r: Vec<ToolCall>)
    ensures
        r@ == v@,
{
    let mut r: Vec<ToolCall> = Vec::new();
    let n = v.len();
    for i in 0..n
        invariant
            n == v@.len(),
            r@ == v@.take(i as int),
    {
        r.push(v[i].duplicate());
        assert(v@.take(i + 1) =~= v@.take(i as int).push(v@[i as int]));
    }
    assert(v@.take(n as int) =~= v@);
    r
}

/// An equal copy of an optional string.
pub fn duplicate_opt_string(o: &Option<String>) -> (r: Option<String>)
    ensures
        r == *o,
{
    match o {
        Some(s) => Some(s.clone()),
        None => None,
    }
}

/// An equal copy of an optional list of tool calls.
pub fn duplicate_opt_tool_calls(o: &Option<Vec<ToolCall>>) -> (r: Option<Vec<ToolCall>>)
    ensures
        match (r, *o) {
            (Some(a), Some(b)) => a@ == b@,
            (None, None) => true,
            _ => false,
        },
{
    match o {
        Some(v) => Some(duplicate_tool_calls(v)),
        None => None,
    }
}

/// A chat message: the unit of a conversation.
#[derive(Debug, Clone)]
pub struct Message {
    pub id: u128,
    pub role: Role,
    pub content: String,
    pub tool_calls: Option<Vec<ToolCall>>,
    pub tool_call_id: Option<String>,
    pub name: Option<String>,
}

/// `m` is a message of role `role` with text `content`, no tool calls, no name,
/// and the given tool call reference; its identifier is free.
pub open spec fn is_plain_message(
    m: Message,
    role: Role,
    content: Seq<char>,
    tool_call_id: Option<Seq<char>>,
) -> bool {
    &&& m.role == role
    &&& m.content@ == content
    &&& m.tool_calls is None
    &&& m.name is None
    &&& match (m.tool_call_id, tool_call_id) {
        (Some(a), Some(b)) => a@ == b,
        (None, None) => true,
        _ => false,
    }
}

impl Message {
    /// A new message with a fresh identifier.
    fn plain(role: Role, content: &str, tool_call_id: Option<String>) -> (m: Message)
        ensures
            m.role == role,
            m.content@ == content@,
            m.tool_calls is None,
            m.tool_call_id == tool_call_id,
            m.name is None,
    {
        Message {
            id: fresh_message_id(),
            role,
            content: owned(content),
            tool_calls: None,
            tool_call_id,
            name: None,
        }
    }

    /// A system message.
    pub fn system(content: &str) -> (m: Message)
        ensures
            is_plain_message(m, Role::System, content@, None),
    {
        Message::plain(Role::System, content, None)
    }

    /// A user message.
    pub fn user(content: &str) -> (m: Message)
        ensures
            is_plain_message(m, Role::User, content@, None),
    {
        Message::plain(Role::User, content, None)
    }

    /// An assistant message.
    pub fn assistant(content: &str) -> (m: Message)
        ensures
            is_plain_message(m, Role::Assistant, content@, None),
    {
        Message::plain(Role::Assistant, content, None)
    }

    /// A tool message: the result of the tool call `tool_call_id`.
    pub fn tool(tool_call_id: &str, content: &str) -> (m: Message)
        ensures
            is_plain_message(m, Role::Tool, content@, Some(tool_call_id@)),
    {
        Message::plain(Role::Tool, content, Some(owned(tool_call_id)))
    }
}

/// A function definition offered to the model (the entries of `tools`).
#[derive(Debug, Clone)]
pub struct FunctionDefinition {
    pub name: String,
    pub description: String,
    pub parameters: serde_json::Value,
}

/// A tool definition offered to the model.
#[derive(Debug, Clone)]
pub struct Tool {
    pub tool_type: String,
    pub function: FunctionDefinition,
}

/// A message as sent to the API, without local fields.
#[derive(Debug, Clone)]
pub struct ApiMessage {
    pub role: String,
    pub content: String,
    pub tool_calls: Option<Vec<ToolCall>>,
    pub tool_call_id: Option<String>,
    pub name: Option<String>,
}

/// `a` is the API form of `m`.
pub open spec fn is_api_form(a: ApiMessage, m: Message) -> bool {
    &&& a.role@ == role_name(m.role)
    &&& a.content@ == m.content@
    &&& match (a.tool_calls, m.tool_calls) {
        (Some(x), Some(y)) => x@ == y@,
        (None, None) => true,
        _ => false,
    }
    &&& a.tool_call_id == m.tool_call_id
    &&& a.name == m.name
}

impl ApiMessage {
    /// The API form of a message: its role name and its content, tool calls,
    /// tool call reference and name, copied.
    pub fn from_message(msg: &Message) -> (a: ApiMessage)
        ensures
            is_api_form(a, *msg),
    {
        ApiMessage {
            role: owned(msg.role.as_str()),
            content: msg.content.clone(),
            tool_calls: duplicate_opt_tool_calls(&msg.tool_calls),
            tool_call_id: duplicate_opt_string(&msg.tool_call_id),
            name: duplicate_opt_string(&msg.name),
        }
    }
}

/// Token usage statistics.
#[derive(Debug, Clone, Copy, Default, PartialEq, Eq, Structural)]
pub struct Usage {
    pub prompt_tokens: u64,
    pub completion_tokens: u64,
    pub total_tokens: u64,
}

impl Usage {
    /// No tokens used.
    pub fn zero() -> (u: Usage)
        ensures
            u.prompt_tokens == 0,
            u.completion_tokens == 0,
            u.total_tokens == 0,
    {
        Usage { prompt_tokens: 0, completion_tokens: 0, total_tokens: 0 }
    }
}

/// The incremental part of one streamed choice.
#[derive(Debug, Clone)]
pub struct StreamDelta {
    pub role: Option<String>,
    pub content: Option<String>,
    pub tool_calls: Option<Vec<StreamToolCallDelta>>,
}

/// One fragment of a tool call in a streamed delta.
#[derive(Debug, Clone)]
pub struct StreamToolCallDelta {
    pub index: usize,
    pub id: Option<String>,
    pub function: Option<StreamFunctionDelta>,
}

/// The function fragment of a streamed tool call.
#[derive(Debug, Clone)]
pub struct StreamFunctionDelta {
    pub name: Option<String>,
    pub arguments: Option<String>,
}

/// One choice of a streamed response chunk.
#[derive(Debug, Clone)]
pub struct StreamChoice {
    pub index: usize,
    pub delta: StreamDelta,
    pub finish_reason: Option<String>,
}

/// One streamed response chunk (one `data:` line of the event stream).
#[derive(Debug, Clone)]
pub struct StreamResponse {
    pub id: String,
    pub object: String,
    pub created: u64,
    pub model: String,
    pub choices: Vec<StreamChoice>,
    pub usage: Option<Usage>,
}

/// A non-streamed chat completion response.
#[derive(Debug, Clone)]
pub struct ChatCompletionResponse {
    pub id: String,
    pub object: String,
    pub created: u64,
    pub model: String,
    pub choices: Vec<Choice>,
    pub usage: Option<Usage>,
}

/// A choice of a non-streamed response.
#[derive(Debug, Clone)]
pub struct Choice {
    pub index: usize,
    pub message: ChoiceMessage,
    pub finish_reason: Option<String>,
}

/// The message of a non-streamed choice.
#[derive(Debug, Clone)]
pub struct ChoiceMessage {
    pub role: String,
    pub content: String,
    pub tool_calls: Option<Vec<ToolCall>>,
}

/// A tool call being assembled from streamed fragments.
#[derive(Debug, Clone)]
pub struct PendingToolCall {
    pub id: String,
    pub name: String,
    pub arguments: String,
}

impl PendingToolCall {
    /// A pending call with the given identifier and empty name and arguments.
    pub fn new(id: String) -> (p: PendingToolCall)
        ensures
            p.id == id,
            p.name@ == Seq::<char>::empty(),
            p.arguments@ == Seq::<char>::empty(),
    {
        PendingToolCall { id, name: String::new(), arguments: String::new() }
    }
}

} // verus!
