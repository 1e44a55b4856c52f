use nezha_cyber::agent::config::{default_api_base, AgentConfig, AgentToolConfig, AppConfig};

fn make_tool_config(name: &str) -> AgentToolConfig {
    AgentToolConfig {
        name: name.into(),
        description: format!("{} 的描述", name),
        parameters: serde_json::from_str(
            r#"{"type": "object", "properties": { "target": { "type": "string" } }}"#,
        )
        .unwrap(),
    }
}

#[test]
fn agent_config_to_api_tools_empty() {
    let agent = AgentConfig {
        name: "测试Agent".into(),
        description: "测试".into(),
        system_prompt: "你是一个测试助手".into(),
        model: "deepseek-chat".into(),
        tools: vec![],
    };
    let api_tools = agent.to_api_tools();
    assert!(api_tools.is_empty());
}

#[test]
fn agent_config_to_api_tools_single() {
    let agent = AgentConfig {
        name: "测试Agent".into(),
        description: "测试".into(),
        system_prompt: "你是一个测试助手".into(),
        model: "deepseek-chat".into(),
        tools: vec![make_tool_config("run_nmap")],
    };
    let api_tools = agent.to_api_tools();
    assert_eq!(api_tools.len(), 1);
    assert_eq!(api_tools[0].tool_type, "function");
    assert_eq!(api_tools[0].function.name, "run_nmap");
}

#[test]
fn agent_config_to_api_tools_multiple() {
    let agent = AgentConfig {
        name: "测试Agent".into(),
        description: "测试".into(),
        system_prompt: "你是一个测试助手".into(),
        model: "deepseek-chat".into(),
        tools: vec![
            make_tool_config("tool_a"),
            make_tool_config("tool_b"),
            make_tool_config("tool_c"),
        ],
    };
    let api_tools = agent.to_api_tools();
    assert_eq!(api_tools.len(), 3);
    assert_eq!(api_tools[0].function.name, "tool_a");
    assert_eq!(api_tools[2].function.name, "tool_c");
}

#[test]
fn app_config_default_values() {
    let config = AppConfig::default();
    assert_eq!(config.api_base, "https://api.deepseek.com/v1");
    assert_eq!(config.default_model, "deepseek-v4-pro");
    assert!(config.api_key.is_empty());
}

#[test]
fn app_config_default_api_base_matches_fn() {
    assert_eq!(default_api_base(), "https://api.deepseek.com/v1");
}

#[test]
fn to_api_tools_keeps_parameters_and_description() {
    let agent = AgentConfig {
        name: "测试Agent".into(),
        description: "测试".into(),
        system_prompt: "你是一个测试助手".into(),
        model: "deepseek-chat".into(),
        tools: vec![make_tool_config("scan")],
    };
    let api_tools = agent.to_api_tools();
    assert_eq!(api_tools[0].function.description, "scan 的描述");
    assert_eq!(api_tools[0].function.parameters, agent.tools[0].parameters);
    assert_eq!(api_tools[0].function.parameters["type"], "object");
}
