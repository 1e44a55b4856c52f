use nezha_cyber::action::Action;
use nezha_cyber::agent::config::{AgentConfig, AppConfig};
use nezha_cyber::app::{update, App};
use nezha_cyber::input::{
    key_event_to_action, process_key, KeyCode, KeyEvent, KeyEventKind, KeyModifiers,
};

fn key(code: KeyCode, bits: u8) -> KeyEvent {
    KeyEvent { code, modifiers: KeyModifiers { bits }, kind: KeyEventKind::Press }
}

fn agent(name: &str) -> AgentConfig {
    AgentConfig {
        name: name.into(),
        description: "d".into(),
        system_prompt: "p".into(),
        model: "m".into(),
        tools: vec![],
    }
}

fn make_app() -> App {
    App::new(
        vec![agent("哪吒"), agent("代码审计专家"), agent("威胁情报分析师")],
        AppConfig { api_base: "b".into(), api_key: "k".into(), default_model: "m".into() },
    )
}

#[test]
fn shortcuts_map_to_actions() {
    assert!(matches!(key_event_to_action(&key(KeyCode::Char('c'), 2)), Some(Action::Shutdown)));
    assert!(matches!(key_event_to_action(&key(KeyCode::Char('n'), 2)), Some(Action::NewTab)));
    assert!(matches!(key_event_to_action(&key(KeyCode::Char('k'), 2)), Some(Action::OpenCommandPalette)));
    assert!(matches!(key_event_to_action(&key(KeyCode::Char('b'), 2)), Some(Action::ToggleSidebar)));
    assert!(matches!(key_event_to_action(&key(KeyCode::Tab, 2)), Some(Action::SwitchAgentNext)));
    assert!(matches!(key_event_to_action(&key(KeyCode::Char('3'), 2)), Some(Action::SwitchAgentByIndex(2))));
    assert!(key_event_to_action(&key(KeyCode::Char('c'), 0)).is_none());
    assert!(key_event_to_action(&key(KeyCode::Char('c'), 3)).is_none());
    let released = KeyEvent { code: KeyCode::Char('c'), modifiers: KeyModifiers { bits: 2 }, kind: KeyEventKind::Release };
    assert!(key_event_to_action(&released).is_none());
}

#[test]
fn typing_edits_the_input() {
    let mut app = make_app();
    assert!(process_key(&mut app, key(KeyCode::Char('h'), 0)).is_none());
    assert!(process_key(&mut app, key(KeyCode::Char('I'), 1)).is_none());
    assert!(process_key(&mut app, key(KeyCode::Char(' '), 4)).is_none());
    assert!(process_key(&mut app, key(KeyCode::Char('x'), 4)).is_none());
    assert_eq!(app.active_tab().input_buffer, "hI ");
    process_key(&mut app, key(KeyCode::Backspace, 0));
    assert_eq!(app.active_tab().input_buffer, "hI");
    match process_key(&mut app, key(KeyCode::Enter, 0)) {
        Some(Action::SubmitMessage(s)) => assert_eq!(s, "hI"),
        other => panic!("unexpected {:?}", other),
    }
}

#[test]
fn blank_input_does_not_submit() {
    let mut app = make_app();
    process_key(&mut app, key(KeyCode::Char(' '), 0));
    assert!(process_key(&mut app, key(KeyCode::Enter, 0)).is_none());
}

#[test]
fn paging_scrolls_by_five() {
    let mut app = make_app();
    process_key(&mut app, key(KeyCode::PageDown, 0));
    assert_eq!(app.active_tab().scroll_offset, 5);
    app.active_tab_mut().scroll_offset = 3;
    process_key(&mut app, key(KeyCode::PageUp, 0));
    assert_eq!(app.active_tab().scroll_offset, 0);
    assert!(!app.active_tab().auto_scroll);
    assert!(matches!(process_key(&mut app, key(KeyCode::Up, 0)), Some(Action::ScrollUp)));
    assert!(matches!(process_key(&mut app, key(KeyCode::Down, 0)), Some(Action::ScrollDown)));
}

#[test]
fn palette_takes_keys_when_open() {
    let mut app = make_app();
    update(&mut app, Action::OpenCommandPalette);
    for c in "/new".chars() {
        process_key(&mut app, key(KeyCode::Char(c), 0));
    }
    assert_eq!(app.command_palette_input, "/new");
    assert_eq!(app.active_tab().input_buffer, "");
    match process_key(&mut app, key(KeyCode::Enter, 0)) {
        Some(Action::CommandPaletteSubmit(s)) => assert_eq!(s, "/new"),
        other => panic!("unexpected {:?}", other),
    }
    assert!(matches!(process_key(&mut app, key(KeyCode::Esc, 0)), Some(Action::OpenCommandPalette)));
    app.command_palette_input.clear();
    assert!(matches!(process_key(&mut app, key(KeyCode::Enter, 0)), Some(Action::OpenCommandPalette)));
}

#[test]
fn agent_switching_by_index_and_cycle() {
    let mut app = make_app();
    assert_eq!(app.active_tab().agent_name, "哪吒");
    update(&mut app, Action::SwitchAgentByIndex(2));
    assert_eq!(app.active_tab().agent_name, "威胁情报分析师");
    assert_eq!(app.status_message, "已切换到: 威胁情报分析师");
    update(&mut app, Action::SwitchAgentNext);
    assert_eq!(app.active_tab().agent_name, "哪吒");
    update(&mut app, Action::SwitchAgentNext);
    assert_eq!(app.active_tab().agent_name, "代码审计专家");
    update(&mut app, Action::SwitchAgentByIndex(7));
    assert_eq!(app.active_tab().agent_name, "代码审计专家");
}

#[test]
fn switch_agent_requires_known_name() {
    let mut app = make_app();
    update(&mut app, Action::SwitchAgent { tab_id: 0, agent_name: "无名".into() });
    assert_eq!(app.active_tab().agent_name, "哪吒");
    update(&mut app, Action::SwitchAgent { tab_id: 0, agent_name: "代码审计专家".into() });
    assert_eq!(app.active_tab().agent_name, "代码审计专家");
    assert_eq!(app.status_message, "已切换到: 代码审计专家");
    update(&mut app, Action::CommandPaletteSubmit("  /agent 哪吒 ".into()));
    assert_eq!(app.active_tab().agent_name, "哪吒");
    assert_eq!(app.status_message, "Agent: 哪吒");
}
