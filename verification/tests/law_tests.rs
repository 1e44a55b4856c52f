use nezha_cyber::action::Action;
use nezha_cyber::agent::config::{AgentConfig, AppConfig};
use nezha_cyber::api::types::Usage;
use nezha_cyber::app::{update, update_allowed, App};

fn make_app() -> App {
    App::new(
        vec![AgentConfig {
            name: "哪吒".into(),
            description: "d".into(),
            system_prompt: "p".into(),
            model: "m".into(),
            tools: vec![],
        }],
        AppConfig { api_base: "b".into(), api_key: "k".into(), default_model: "m".into() },
    )
}

#[test]
fn scroll_down_then_up_restores_offset() {
    let mut app = make_app();
    app.active_tab_mut().scroll_offset = 3;
    update(&mut app, Action::ScrollDown);
    update(&mut app, Action::ScrollUp);
    assert_eq!(app.active_tab().scroll_offset, 3);
    assert!(!app.active_tab().auto_scroll);
}

#[test]
fn usage_adds_up_over_streams() {
    let mut app = make_app();
    for (p, c) in [(10, 1), (20, 2), (30, 3)] {
        update(
            &mut app,
            Action::StreamDone {
                tab_id: 0,
                message_id: 1,
                content: String::new(),
                usage: Usage { prompt_tokens: p, completion_tokens: c, total_tokens: p + c },
            },
        );
    }
    assert_eq!(app.tabs[0].total_usage, Usage { prompt_tokens: 60, completion_tokens: 6, total_tokens: 66 });
    assert_eq!(app.status_message, "完成 - Token: 30P + 3C");
}

#[test]
fn new_tab_then_close_restores_tabs() {
    let mut app = make_app();
    update(&mut app, Action::SubmitMessage("保留".into()));
    update(&mut app, Action::NewTab);
    update(&mut app, Action::CloseTab(1));
    assert_eq!(app.tabs.len(), 1);
    assert_eq!(app.tabs[0].messages[0].content, "保留");
    assert_eq!(app.active_tab, 0);
}

#[test]
fn closing_never_removes_the_last_tab() {
    let mut app = make_app();
    for _ in 0..3 {
        update(&mut app, Action::CommandPaletteSubmit("/close".into()));
    }
    assert_eq!(app.tabs.len(), 1);
    assert_eq!(app.active_tab, 0);
}

#[test]
fn messages_get_fresh_identifiers() {
    let mut app = make_app();
    update(&mut app, Action::SubmitMessage("一".into()));
    update(&mut app, Action::SubmitMessage("二".into()));
    assert_ne!(app.tabs[0].messages[0].id, app.tabs[0].messages[1].id);
}

#[test]
fn status_cut_must_fall_on_a_character_boundary() {
    let app = make_app();
    let long = "汉".repeat(20);
    assert!(!update_allowed(&app, &Action::SubmitMessage(long.clone())));
    assert!(update_allowed(&app, &Action::SubmitMessage("a".repeat(100))));
    assert!(update_allowed(&app, &Action::StreamError { tab_id: 0, message_id: 0, error: "汉".repeat(20) }));
    assert!(!update_allowed(&app, &Action::StreamError { tab_id: 0, message_id: 0, error: "汉汉a".repeat(10) }));
}

#[test]
fn sent_status_shows_forty_bytes() {
    let mut app = make_app();
    update(&mut app, Action::SubmitMessage(format!("  {}  ", "x".repeat(50))));
    assert_eq!(app.status_message, format!("已发送: {}", "x".repeat(40)));
}

#[test]
fn unimplemented_commands_are_reported() {
    let mut app = make_app();
    update(&mut app, Action::CommandPaletteSubmit("/fork".into()));
    assert_eq!(app.status_message, "命令 '/fork' 尚未实现");
    update(&mut app, Action::CommandPaletteSubmit(" /bogus ".into()));
    assert_eq!(app.status_message, "未知命令: /bogus");
}

#[test]
fn chat_request_carries_prompt_and_history() {
    let mut app = make_app();
    update(&mut app, Action::SubmitMessage("问".into()));
    let r = app.chat_request();
    assert_eq!(r.tab_id, 0);
    assert_eq!(r.model, "m");
    assert_eq!(r.messages.len(), 2);
    assert_eq!(r.messages[0].role, "system");
    assert_eq!(r.messages[0].content, "p");
    assert_eq!(r.messages[1].role, "user");
    assert_eq!(r.messages[1].content, "问");
    assert_eq!(r.tools.map(|t| t.len()), Some(0));
    assert_eq!(r.max_tokens, 4096);
    assert!(r.stream);
}
