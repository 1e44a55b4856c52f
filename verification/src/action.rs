//! Every state change of the application is driven by an `Action`: user
//! input, stream responses from the API, tool calls and system events.

use vstd::prelude::*;
use crate::api::types::{Message, Usage};
use crate::input::KeyEvent;

verus! {

/// The user's decision on a requested tool call.
#[derive(Debug, Clone)]
pub struct ToolCallConfirmation {
    pub tab_id: usize,
    pub call_id: String,
    pub name: String,
    /// The call's arguments as JSON text.
    pub args: String,
}

/// A request to the conversation store, made by a palette command and
/// carried out by the caller, who reports the outcome as an action.
#[derive(Debug, Clone, Copy, PartialEq, Eq, Structural)]
pub enum StoreRequest {
    /// Store the conversation of tab `tab_id` ("/save").
    Save { tab_id: usize },
    /// Bring the stored conversation `id` into a new tab ("/load <id>").
    Load { id: u64 },
    /// List the stored conversations ("/history").
    History,
}

/// The events that drive `update`.
#[derive(Debug, Clone)]
pub enum Action {
    Key(KeyEvent),
    SubmitMessage(String),
    SwitchTab(usize),
    NewTab,
    CloseTab(usize),
    ToggleSidebar,
    OpenCommandPalette,
    Tick,
    Resize(u16, u16),
    Shutdown,
    StreamStart { tab_id: usize, message_id: u128 },
    StreamChunk { tab_id: usize, message_id: u128, chunk: String },
    StreamDone { tab_id: usize, message_id: u128, content: String, usage: Usage },
    StreamError { tab_id: usize, message_id: u128, error: String },
    /// A tool call requested by the model; `args` is its JSON text.
    ToolCallRequest { tab_id: usize, call_id: String, name: String, args: String },
    ToolCallResponse { tab_id: usize, call_id: String, result: String },
    ConfirmToolCall(ToolCallConfirmation),
    /// The user refused the tool call `call_id` of tab `tab_id`.
    RejectToolCall { tab_id: usize, call_id: String },
    /// The store kept the conversation under identifier `id`.
    ConversationSaved { id: u64 },
    /// The store gave back the messages of conversation `id`.
    ConversationLoaded { id: u64, messages: Vec<Message> },
    /// The stored conversations, each an identifier and a title.
    ConversationsListed(Vec<(u64, String)>),
    /// The store failed; the text says how.
    StoreFailed(String),
    CommandPaletteSubmit(String),
    ScrollUp,
    ScrollDown,
    AutoScroll,
    ChangeTheme(String),
    ChangeModel { tab_id: usize, model: String },
    SwitchAgent { tab_id: usize, agent_name: String },
    SwitchAgentByIndex(usize),
    SwitchAgentNext,
}

} // verus!
