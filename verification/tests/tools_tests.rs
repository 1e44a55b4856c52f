use nezha_cyber::tools::executor::{
    create_directory_message, ensure_safe, list_directory_message, read_file_message,
    resolve_target, sort_texts, tool_kind, unknown_tool_message, write_file_message, ToolKind,
};
use nezha_cyber::tools::path::{is_under, normal_path_components, path_components, starts_with_path};

#[test]
fn tool_names_select_tools() {
    assert_eq!(tool_kind("write_file"), Some(ToolKind::WriteFile));
    assert_eq!(tool_kind("read_file"), Some(ToolKind::ReadFile));
    assert_eq!(tool_kind("create_directory"), Some(ToolKind::CreateDirectory));
    assert_eq!(tool_kind("list_directory"), Some(ToolKind::ListDirectory));
    assert_eq!(tool_kind("rm_rf"), None);
    assert_eq!(unknown_tool_message("rm_rf"), "未知工具: rm_rf");
}

#[test]
fn write_report_counts_lines_and_bytes() {
    assert_eq!(write_file_message("a.txt", "一\ntwo\n"), "已写入 a.txt (2 行, 8 字节)");
    assert_eq!(write_file_message("e", ""), "已写入 e (0 行, 0 字节)");
}

#[test]
fn read_report_fences_and_truncates() {
    assert_eq!(read_file_message("a.rs", "fn main() {}"), "```a.rs\nfn main() {}\n```");
    let long: Vec<String> = (0..250).map(|i| i.to_string()).collect();
    let text = long.join("\n");
    let expected = format!("```b\n{}\n... (已截断，共 250 行)\n```", long[..200].join("\n"));
    assert_eq!(read_file_message("b", &text), expected);
}

#[test]
fn directory_reports() {
    assert_eq!(create_directory_message("src/x"), "已创建目录: src/x");
    let entries = vec![("b.txt".to_string(), false), ("a".to_string(), true), ("C".to_string(), false)];
    assert_eq!(list_directory_message(None, &entries), ". (3 项):\n  C\n  a/\n  b.txt");
    assert_eq!(list_directory_message(Some("src"), &vec![]), "src (0 项):\n");
}

#[test]
fn sorting_matches_std() {
    let items = vec!["b".to_string(), "ab".to_string(), "a".to_string(), "中".to_string(), "Z".to_string(), "a".to_string()];
    let mut expected = items.clone();
    expected.sort();
    assert_eq!(sort_texts(items), expected);
}

#[test]
fn path_components_follow_std() {
    for p in ["/a//b/./c/", "./x/../y", ".", "a/b", "", "//", "../..", "./", "a/."] {
        let expected: Vec<String> = std::path::Path::new(p)
            .components()
            .map(|c| c.as_os_str().to_string_lossy().into_owned())
            .collect();
        assert_eq!(path_components(p), expected, "path {:?}", p);
    }
}

#[test]
fn prefix_by_components() {
    assert!(starts_with_path("/home/u/proj/a", "/home/u/proj"));
    assert!(starts_with_path("/home/u/proj", "/home/u/proj/"));
    assert!(!starts_with_path("/home/u/project", "/home/u/proj"));
    assert!(starts_with_path("/home/u/proj/../etc", "/home/u/proj"));
}

#[test]
fn sandbox_decision() {
    let base = "/work";
    let resolved = resolve_target(base, "notes/a.md");
    assert_eq!(resolved, "/work/notes/a.md");
    assert_eq!(resolve_target(base, "/etc/passwd"), "/etc/passwd");
    assert_eq!(ensure_safe(base, &resolved, 2, "/work"), Ok("/work/notes/a.md".to_string()));
    assert_eq!(ensure_safe(base, &resolved, 4, "/work/notes/a.md"), Ok("/work/notes/a.md".to_string()));
    assert_eq!(ensure_safe(base, "/work/link", 3, "/etc/shadow"), Err("路径越界: /work/link".to_string()));
    assert_eq!(ensure_safe(base, "/work/notes", 7, "/work/notes"), Err("路径越界: /work/notes".to_string()));
    assert_eq!(ensure_safe(base, "/work/notes", 0, ""), Err("路径越界: /work/notes".to_string()));
}

#[test]
fn normal_form_works_out_dots() {
    assert_eq!(normal_path_components("/b/../x"), vec!["/", "x"]);
    assert_eq!(normal_path_components("/a/./b/../c"), vec!["/", "a", "c"]);
    assert_eq!(normal_path_components("/../.."), vec!["/"]);
    assert_eq!(normal_path_components("../a/../../b"), vec!["..", "..", "b"]);
    assert!(is_under("/home/u/proj/a/../b", "/home/u/proj"));
    assert!(!is_under("/home/u/proj/../etc", "/home/u/proj"));
    assert!(!is_under("/home/u/proj/..", "/home/u/proj"));
}

#[test]
fn sandbox_refuses_parent_escape_of_missing_target() {
    assert_eq!(ensure_safe("/b", "/b/../x", 2, "/b"), Err("路径越界: /b/../x".to_string()));
    let resolved = resolve_target("/work", "../secret.txt");
    assert_eq!(resolved, "/work/../secret.txt");
    assert_eq!(ensure_safe("/work", &resolved, 3, "/"), Err("路径越界: /work/../secret.txt".to_string()));
    let inner = resolve_target("/work", "a/../b.txt");
    assert_eq!(ensure_safe("/work", &inner, 2, "/work"), Err("路径越界: /work/a/../b.txt".to_string()));
    assert_eq!(ensure_safe("/work", "/work/a/../b.txt", 4, "/work"), Ok("/work/a/../b.txt".to_string()));
}

#[test]
fn sandbox_refuses_new_file_under_outside_link() {
    // `/work/link` exists and is a link to `/etc`; `new` does not exist yet.
    assert_eq!(ensure_safe("/work", "/work/link/new", 3, "/etc"), Err("路径越界: /work/link/new".to_string()));
    // `/work/dir` is a real directory inside.
    assert_eq!(ensure_safe("/work", "/work/dir/new", 3, "/work/dir"), Ok("/work/dir/new".to_string()));
}

#[test]
fn file_tools_table() {
    let tools = nezha_cyber::tools::executor::file_tools();
    let names: Vec<&str> = tools.iter().map(|t| t.name.as_str()).collect();
    assert_eq!(names, vec!["write_file", "read_file", "create_directory", "list_directory"]);
    for t in &tools {
        assert_eq!(nezha_cyber::tools::executor::tool_kind(&t.name), Some(t.kind));
    }
    assert_eq!(tools[0].parameters.len(), 2);
    assert_eq!(tools[0].parameters[1].name, "content");
    assert!(tools[0].parameters[1].required);
    assert_eq!(tools[3].parameters[0].name, "path");
    assert!(!tools[3].parameters[0].required);
    assert_eq!(tools[1].description, "读取文件内容，传入 path。需要用户确认。");
}
