use nezha_cyber::action::Action;
use nezha_cyber::agent::config::{AgentConfig, AppConfig};
use nezha_cyber::api::types::Usage;
use nezha_cyber::app::{update, App};
use nezha_cyber::ui::layout::{calculate, command_palette_rect, Rect};
use nezha_cyber::ui::view::{
    agent_lines, filter_commands, message_lines, status_bar, tab_labels, usage_lines,
    visible_start, wrap_text, LineStyle,
};
use nezha_cyber::ui::view::{palette_view, PaletteRow};

fn agent(name: &str) -> AgentConfig {
    AgentConfig {
        name: name.into(),
        description: "d".into(),
        system_prompt: format!("{} 的提示", name),
        model: "m".into(),
        tools: vec![],
    }
}

fn make_app() -> App {
    App::new(
        vec![agent("哪吒"), agent("代码审计专家")],
        AppConfig { api_base: "b".into(), api_key: "k".into(), default_model: "deepseek-chat".into() },
    )
}

#[test]
fn wrap_ascii_at_width() {
    assert_eq!(wrap_text("abcdefg", 3, "  "), vec!["abc", "  def", "  g"]);
}

#[test]
fn wrap_wide_characters() {
    assert_eq!(wrap_text("你好世界", 4, ">"), vec!["你好", ">世界"]);
}

#[test]
fn wrap_zero_width_keeps_text() {
    assert_eq!(wrap_text("abc", 0, "  "), vec!["abc"]);
    assert_eq!(wrap_text("", 5, "  "), vec![""]);
}

#[test]
fn wrap_keeps_every_character() {
    let text = "The quick brown fox 跳过 the lazy dog";
    let lines = wrap_text(text, 7, "");
    assert_eq!(lines.concat(), text);
}

#[test]
fn window_follows_the_end() {
    assert_eq!(visible_start(30, 10, true, 0), 20);
    assert_eq!(visible_start(30, 10, false, 5), 5);
    assert_eq!(visible_start(30, 10, false, 50), 20);
    assert_eq!(visible_start(5, 10, true, 3), 0);
}

#[test]
fn message_list_lines() {
    let mut app = make_app();
    update(&mut app, Action::SubmitMessage("你好\n第二行".into()));
    update(&mut app, Action::StreamStart { tab_id: 0, message_id: 9 });
    let lines = message_lines(&app.tabs[0], 40);
    let texts: Vec<&str> = lines.iter().map(|l| l.text.as_str()).collect();
    assert_eq!(texts, vec!["[你]", "你好", "第二行", "", "[哪吒] 正在思考", ""]);
    assert_eq!(lines[4].style, LineStyle::Thinking);
    update(&mut app, Action::Tick);
    update(&mut app, Action::Tick);
    let lines = message_lines(&app.tabs[0], 40);
    assert_eq!(lines[4].text, "[哪吒] 正在思考..");
}

#[test]
fn message_list_shows_tool_calls() {
    let mut app = make_app();
    update(&mut app, Action::StreamStart { tab_id: 0, message_id: 1 });
    update(&mut app, Action::StreamChunk { tab_id: 0, message_id: 1, chunk: "看看".into() });
    update(
        &mut app,
        Action::ToolCallRequest { tab_id: 0, call_id: "c1".into(), name: "read_file".into(), args: "{}".into() },
    );
    let lines = message_lines(&app.tabs[0], 80);
    assert_eq!(lines[2].text, "  [...] read_file({})");
    update(&mut app, Action::ToolCallResponse { tab_id: 0, call_id: "c1".into(), result: "ok".into() });
    let lines = message_lines(&app.tabs[0], 80);
    assert_eq!(lines[2].text, "  [OK] read_file({})");
    assert_eq!(lines[2].style, LineStyle::ToolCall);
}

#[test]
fn status_bar_pads_between_parts() {
    let mut app = make_app();
    app.status_message = "ok".into();
    let (left, pad, right) = status_bar(&app, 80);
    assert_eq!(left, " ok ");
    assert_eq!(right, " 模型: deepseek-chat | 主题: default | Tab 1/1 ");
    let used = 2 + 2 + unicode_width::UnicodeWidthStr::width(right.as_str()) + 2;
    assert_eq!(pad, 80 - used);
    let (_, pad, _) = status_bar(&app, 10);
    assert_eq!(pad, 0);
}

#[test]
fn palette_filter_ignores_case() {
    let all = filter_commands("");
    assert_eq!(all.len(), 13);
    let ctrl = filter_commands("CTRL+");
    assert_eq!(ctrl.len(), 5);
    assert_eq!(ctrl[0].0, "Ctrl+N");
    let theme = filter_commands("dracula");
    assert_eq!(theme.len(), 1);
    assert_eq!(theme[0].0, "/theme");
    assert!(filter_commands("no such command").is_empty());
}

#[test]
fn tab_and_agent_lines() {
    let mut app = make_app();
    update(&mut app, Action::NewTab);
    let tabs = tab_labels(&app);
    assert_eq!(tabs, vec![(" 会话 1 ".to_string(), false), (" 会话 2 ".to_string(), true)]);
    let agents = agent_lines(&app);
    assert_eq!(agents, vec![("  ▶ 哪吒".to_string(), true), ("  2 代码审计专家".to_string(), false)]);
}

#[test]
fn usage_lines_show_counts() {
    let u = Usage { prompt_tokens: 1, completion_tokens: 22, total_tokens: 333 };
    assert_eq!(usage_lines(&u), vec!["  提示: 1", "  生成: 22", "  总计: 333"]);
}

#[test]
fn palette_rect_is_centred() {
    let main = Rect { x: 25, y: 0, width: 100, height: 30 };
    assert_eq!(command_palette_rect(main), Rect { x: 45, y: 6, width: 60, height: 12 });
    let small = Rect { x: 0, y: 0, width: 30, height: 8 };
    assert_eq!(command_palette_rect(small), Rect { x: 0, y: 0, width: 30, height: 8 });
}

#[test]
fn layout_splits_the_screen() {
    let area = Rect { x: 0, y: 0, width: 100, height: 30 };
    let l = calculate(area, true, true, 25);
    assert_eq!(l.sidebar, Some(Rect { x: 0, y: 0, width: 25, height: 30 }));
    assert_eq!(l.main_area, Rect { x: 25, y: 0, width: 75, height: 30 });
    assert_eq!(l.tab_bar, Rect { x: 25, y: 0, width: 75, height: 2 });
    assert_eq!(l.messages, Rect { x: 25, y: 2, width: 75, height: 24 });
    assert_eq!(l.input_area, Rect { x: 25, y: 26, width: 75, height: 3 });
    assert_eq!(l.status_bar, Rect { x: 25, y: 29, width: 75, height: 1 });
    assert_eq!(l.command_palette, Some(Rect { x: 32, y: 6, width: 60, height: 12 }));
    let l = calculate(area, false, false, 25);
    assert_eq!(l.sidebar, None);
    assert_eq!(l.main_area, area);
    assert_eq!(l.command_palette, None);
}

#[test]
fn palette_view_lines() {
    let (line, rows) = palette_view("Dracula");
    assert_eq!(line, "> Dracula");
    assert_eq!(rows.len(), 1);
    match &rows[0] {
        PaletteRow::Command { name, description } => {
            assert_eq!(name, " /theme");
            assert!(description.starts_with("切换主题"));
        }
        PaletteRow::NoMatch(_) => panic!("expected a command row"),
    }
    let (line, rows) = palette_view("zzz");
    assert_eq!(line, "> zzz");
    assert_eq!(rows, vec![PaletteRow::NoMatch(" 无匹配命令".to_string())]);
    let (line, rows) = palette_view("");
    assert_eq!(line, "> ");
    assert_eq!(rows.len(), 13);
}
