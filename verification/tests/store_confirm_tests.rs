use nezha_cyber::action::{Action, StoreRequest};
use nezha_cyber::agent::config::{AgentConfig, AppConfig};
use nezha_cyber::api::types::{Message, Role};
use nezha_cyber::app::{take_store_request, update, App, Focus, ToolCallStatus};
use nezha_cyber::input::{process_key, KeyCode, KeyEvent, KeyEventKind, KeyModifiers};

fn make_app() -> App {
    App::new(
        vec![AgentConfig {
            name: "哪吒".into(),
            description: "d".into(),
            system_prompt: "p".into(),
            model: "m".into(),
            tools: vec![],
        }],
        AppConfig { api_base: "b".into(), api_key: "k".into(), default_model: "deepseek-chat".into() },
    )
}

fn press(code: KeyCode, bits: u8) -> KeyEvent {
    KeyEvent { code, modifiers: KeyModifiers { bits }, kind: KeyEventKind::Press }
}

fn submit(app: &mut App, s: &str) {
    update(app, Action::CommandPaletteSubmit(s.into()));
}

#[test]
fn save_and_history_are_store_requests() {
    let mut app = make_app();
    submit(&mut app, "/save");
    assert!(!app.status_message.contains("未知命令"));
    assert_eq!(take_store_request(&mut app), Some(StoreRequest::Save { tab_id: 0 }));
    assert_eq!(app.store_request, None);
    submit(&mut app, "  /history ");
    assert!(!app.status_message.contains("未知命令"));
    assert_eq!(app.store_request, Some(StoreRequest::History));
    assert!(!app.command_palette_open);
    assert_eq!(app.focus, Focus::ChatInput);
}

#[test]
fn load_takes_a_decimal_identifier() {
    let mut app = make_app();
    submit(&mut app, "/load 42");
    assert_eq!(take_store_request(&mut app), Some(StoreRequest::Load { id: 42 }));
    submit(&mut app, "/load   7  ");
    assert_eq!(take_store_request(&mut app), Some(StoreRequest::Load { id: 7 }));
    submit(&mut app, "/load abc");
    assert_eq!(app.store_request, None);
    assert_eq!(app.status_message, "用法: /load <id>");
    app.status_message.clear();
    submit(&mut app, "/load");
    assert_eq!(app.store_request, None);
    assert_eq!(app.status_message, "用法: /load <id>");
    submit(&mut app, "/loader");
    assert_eq!(app.status_message, "未知命令: /loader");
}

#[test]
fn store_outcomes_update_the_status() {
    let mut app = make_app();
    update(&mut app, Action::ConversationSaved { id: 12 });
    assert_eq!(app.status_message, "已保存对话 #12");
    update(&mut app, Action::ConversationsListed(vec![(3, "会话 1".into()), (2, "扫描".into())]));
    assert_eq!(app.status_message, "已保存对话: #3 会话 1; #2 扫描");
    update(&mut app, Action::ConversationsListed(vec![]));
    assert_eq!(app.status_message, "没有已保存的对话");
    update(&mut app, Action::StoreFailed("磁盘已满".into()));
    assert_eq!(app.status_message, "记忆库错误: 磁盘已满");
}

#[test]
fn loaded_conversation_opens_in_a_new_tab() {
    let mut app = make_app();
    let messages = vec![Message::user("你好"), Message::assistant("小爷在此")];
    update(&mut app, Action::ConversationLoaded { id: 5, messages });
    assert_eq!(app.tabs.len(), 2);
    assert_eq!(app.active_tab, 1);
    assert_eq!(app.tabs[1].id, 1);
    assert_eq!(app.tabs[1].title, "对话 #5");
    assert_eq!(app.tabs[1].messages.len(), 2);
    assert_eq!(app.tabs[1].messages[1].content, "小爷在此");
    assert_eq!(app.tabs[1].model, "deepseek-chat");
    assert_eq!(app.tabs[1].agent_name, "哪吒");
    assert_eq!(app.status_message, "已加载对话 #5 (2 条消息)");
    assert_eq!(app.tabs[0].messages.len(), 0);
}

fn request_tool(app: &mut App, call_id: &str) {
    update(
        app,
        Action::ToolCallRequest {
            tab_id: 0,
            call_id: call_id.into(),
            name: "write_file".into(),
            args: r#"{"path":"a.txt","content":"x"}"#.into(),
        },
    );
}

#[test]
fn tool_request_waits_for_confirmation() {
    let mut app = make_app();
    request_tool(&mut app, "call_1");
    assert_eq!(app.confirmations.len(), 1);
    assert_eq!(app.confirmations[0].call_id, "call_1");
    assert_eq!(app.confirmations[0].name, "write_file");
    update(
        &mut app,
        Action::ToolCallRequest { tab_id: 9, call_id: "x".into(), name: "n".into(), args: "{}".into() },
    );
    assert_eq!(app.confirmations.len(), 1);
}

#[test]
fn confirmation_keys() {
    let mut app = make_app();
    request_tool(&mut app, "call_1");
    for code in [KeyCode::Char('y'), KeyCode::Char('Y')] {
        match process_key(&mut app, press(code, 0)) {
            Some(Action::ConfirmToolCall(c)) => {
                assert_eq!(c.tab_id, 0);
                assert_eq!(c.call_id, "call_1");
                assert_eq!(c.name, "write_file");
                assert_eq!(c.args, r#"{"path":"a.txt","content":"x"}"#);
            }
            other => panic!("expected a confirmation, got {:?}", other),
        }
    }
    for code in [KeyCode::Char('n'), KeyCode::Char('N'), KeyCode::Esc] {
        match process_key(&mut app, press(code, 0)) {
            Some(Action::RejectToolCall { tab_id, call_id }) => {
                assert_eq!(tab_id, 0);
                assert_eq!(call_id, "call_1");
            }
            other => panic!("expected a refusal, got {:?}", other),
        }
    }
    assert!(process_key(&mut app, press(KeyCode::Char('a'), 0)).is_none());
    assert!(process_key(&mut app, press(KeyCode::Enter, 0)).is_none());
    assert!(process_key(&mut app, press(KeyCode::Char('c'), 2)).is_none());
    assert_eq!(app.tabs[0].input_buffer, "");
    assert!(!app.should_quit);
    let released = KeyEvent { code: KeyCode::Char('y'), modifiers: KeyModifiers { bits: 0 }, kind: KeyEventKind::Release };
    assert!(process_key(&mut app, released).is_none());
}

#[test]
fn confirm_and_reject_settle_the_queue() {
    let mut app = make_app();
    request_tool(&mut app, "call_1");
    request_tool(&mut app, "call_2");
    let c = app.confirmations[0].clone();
    update(&mut app, Action::ConfirmToolCall(c));
    assert_eq!(app.confirmations.len(), 1);
    assert_eq!(app.confirmations[0].call_id, "call_2");
    assert!(matches!(app.tabs[0].pending_tool_calls.get("call_1"), Some(ToolCallStatus::Running)));
    let before = app.tabs[0].messages.len();
    update(&mut app, Action::RejectToolCall { tab_id: 0, call_id: "call_2".into() });
    assert!(app.confirmations.is_empty());
    match app.tabs[0].pending_tool_calls.get("call_2") {
        Some(ToolCallStatus::Failed { error }) => assert_eq!(error, "用户拒绝执行此工具调用"),
        other => panic!("expected a failed call, got {:?}", other),
    }
    assert_eq!(app.tabs[0].messages.len(), before + 1);
    let last = app.tabs[0].messages.last().unwrap();
    assert_eq!(last.role, Role::Tool);
    assert_eq!(last.content, "用户拒绝执行此工具调用");
    assert_eq!(last.tool_call_id.as_deref(), Some("call_2"));
    assert!(process_key(&mut app, press(KeyCode::Char('y'), 0)).is_none());
    assert_eq!(app.tabs[0].input_buffer, "y");
}

#[test]
fn tool_call_request_confirm_response() {
    let mut app = make_app();
    update(&mut app, Action::StreamStart { tab_id: 0, message_id: 1 });
    request_tool(&mut app, "call_9");
    assert!(matches!(app.tabs[0].pending_tool_calls.get("call_9"), Some(ToolCallStatus::Pending)));
    let calls = app.tabs[0].messages[0].tool_calls.as_ref().unwrap();
    assert_eq!(calls.last().unwrap().id, "call_9");
    assert_eq!(calls.last().unwrap().call_type, "function");
    let c = app.confirmations[0].clone();
    update(&mut app, Action::ConfirmToolCall(c));
    assert!(matches!(app.tabs[0].pending_tool_calls.get("call_9"), Some(ToolCallStatus::Running)));
    assert!(app.confirmations.is_empty());
    update(&mut app, Action::ToolCallResponse { tab_id: 0, call_id: "call_9".into(), result: "已写入".into() });
    match app.tabs[0].pending_tool_calls.get("call_9") {
        Some(ToolCallStatus::Success { result }) => assert_eq!(result, "已写入"),
        other => panic!("expected success, got {:?}", other),
    }
    assert_eq!(app.tabs[0].messages.len(), 2);
    assert_eq!(app.tabs[0].messages[1].role, Role::Tool);
    assert_eq!(app.tabs[0].messages[1].content, "已写入");
    assert_eq!(app.tabs[0].messages[1].tool_call_id.as_deref(), Some("call_9"));
}
