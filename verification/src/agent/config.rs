//! Agent configuration: each agent has a name, a description, a system
//! prompt, a default model and the tools it may call.

use vstd::prelude::*;
use crate::api::types::{FunctionDefinition, Tool};
use crate::text::owned;

verus! {

/// A tool declared in an agent's configuration.
#[derive(Debug, Clone)]
pub struct AgentToolConfig {
    pub name: String,
    pub description: String,
    pub parameters: serde_json::Value,
}

/// The full configuration of one agent.
#[derive(Debug, Clone)]
pub struct AgentConfig {
    pub name: String,
    pub description: String,
    pub system_prompt: String,
    pub model: String,
    pub tools: Vec<AgentToolConfig>,
}

/// The list of all configured agents.
#[derive(Debug, Clone)]
pub struct AgentsConfig {
    pub agents: Vec<AgentConfig>,
}

/// Global application settings.
#[derive(Debug, Clone)]
pub struct AppConfig {
    pub api_base: String,
    pub api_key: String,
    pub default_model: String,
}

/// The API base used when none is configured.
pub open spec fn default_api_base_text() -> Seq<char> {
    "https://api.deepseek.com/v1"@
}

/// The model used when none is configured.
pub open spec fn default_model_text() -> Seq<char> {
    "deepseek-v4-pro"@
}

/// The API base used when none is configured.
pub fn default_api_base() -> (s: String)
    ensures
        s@ == default_api_base_text(),
{
    owned("https://api.deepseek.com/v1")
}

impl Default for AppConfig {
    /// The default API base and model, with no API key.
    fn default() -> (c: AppConfig)
        ensures
            c.api_base@ == default_api_base_text(),
            c.api_key@ == Seq::<char>::empty(),
            c.default_model@ == default_model_text(),
    {
        AppConfig {
            api_base: default_api_base(),
            api_key: String::new(),
            default_model: owned("deepseek-v4-pro"),
        }
    }
}

/// `t` is the API tool definition of the declared tool `c`.
pub open spec fn is_api_tool(t: Tool, c: AgentToolConfig) -> bool {
    &&& t.tool_type@ == "function"@
    &&& t.function.name@ == c.name@
    &&& t.function.description@ == c.description@
    &&& t.function.parameters == c.parameters
}

impl AgentConfig {
    /// The agent's declared tools as API tool definitions, in order.
    pub fn to_api_tools(&self) -> (r: Vec<Tool>)
        ensures
            r@.len() == self.tools@.len(),
            forall|i: int| 0 <= i < r@.len() ==> is_api_tool(#[trigger] r@[i], self.tools@[i]),
    {
        let mut r: Vec<Tool> = Vec::new();
        let n = self.tools.len();
        for i in 0..n
            invariant
                n == self.tools@.len(),
                r@.len() == i,
                forall|j: int| 0 <= j < i ==> is_api_tool(#[trigger] r@[j], self.tools@[j]),
        {
            let t = &self.tools[i];
            r.push(
                Tool {
                    tool_type: owned("function"),
                    function: FunctionDefinition {
                        name: t.name.clone(),
                        description: t.description.clone(),
                        parameters: t.parameters.clone(),
                    },
                },
            );
        }
        r
    }
}

} // verus!
