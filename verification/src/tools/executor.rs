//! The file tools the model may call: `write_file`, `read_file`,
//! `create_directory` and `list_directory`, confined to the working
//! directory. The library decides and reports; the caller touches the disk.

use vstd::prelude::*;
use crate::text::{
    concat, decimal, lemma_text_le_total, lemma_text_le_trans, lines, owned, push_all,
    push_decimal, split_lines, str_eq, text_le, text_le_exec, text_order, lemma_text_order_total, join, join_prefix,
};
use crate::tools::ocr::{truncate_lines, truncated};
use crate::tools::path::{is_inside, join_path, join_paths, stays_inside};

verus! {

/// The tools the executor knows.
#[derive(Debug, Clone, Copy, PartialEq, Eq, Structural)]
pub enum ToolKind {
    WriteFile,
    ReadFile,
    CreateDirectory,
    ListDirectory,
}

/// The tool a name selects, if any.
pub open spec fn tool_kind_of(name: Seq<char>) -> Option<ToolKind> {
    if name == "write_file"@ {
        Some(ToolKind::WriteFile)
    } else if name == "read_file"@ {
        Some(ToolKind::ReadFile)
    } else if name == "create_directory"@ {
        Some(ToolKind::CreateDirectory)
    } else if name == "list_directory"@ {
        Some(ToolKind::ListDirectory)
    } else {
        None
    }
}

/// The tool a name selects, if any.
pub fn tool_kind(name: &str) -> (k: Option<ToolKind>)
    ensures
        k == tool_kind_of(name@),
{
    if str_eq(name, "write_file") {
        Some(ToolKind::WriteFile)
    } else if str_eq(name, "read_file") {
        Some(ToolKind::ReadFile)
    } else if str_eq(name, "create_directory") {
        Some(ToolKind::CreateDirectory)
    } else if str_eq(name, "list_directory") {
        Some(ToolKind::ListDirectory)
    } else {
        None
    }
}

/// The name under which the model calls a tool.
pub open spec fn tool_name(k: ToolKind) -> Seq<char> {
    match k {
        ToolKind::WriteFile => "write_file"@,
        ToolKind::ReadFile => "read_file"@,
        ToolKind::CreateDirectory => "create_directory"@,
        ToolKind::ListDirectory => "list_directory"@,
    }
}

/// Each tool's name selects it.
pub proof fn law_tool_name_selects(k: ToolKind)
    ensures
        tool_kind_of(tool_name(k)) == Some(k),
{
    reveal_strlit("write_file");
    reveal_strlit("read_file");
    reveal_strlit("create_directory");
    reveal_strlit("list_directory");
    assert("write_file"@.len() == 10);
    assert("read_file"@.len() == 9);
    assert("create_directory"@.len() == 16);
    assert("list_directory"@.len() == 14);
}

/// A string parameter of a tool, as its JSON schema lists it.
#[derive(Debug, Clone)]
pub struct ToolParameter {
    pub name: String,
    pub description: String,
    pub required: bool,
}

/// How a file tool is offered to the model: its name, what it does, and
/// its string parameters.
#[derive(Debug, Clone)]
pub struct FileToolSpec {
    pub kind: ToolKind,
    pub name: String,
    pub description: String,
    pub parameters: Vec<ToolParameter>,
}

/// The parameters of a tool: a path for each, and the content to write for
/// `write_file`; the path of `list_directory` may be left out.
pub open spec fn tool_parameters(k: ToolKind) -> Seq<(Seq<char>, Seq<char>, bool)> {
    match k {
        ToolKind::WriteFile => seq![("path"@, "文件相对路径"@, true), ("content"@, "文件内容"@, true)],
        ToolKind::ReadFile => seq![("path"@, "文件相对路径"@, true)],
        ToolKind::CreateDirectory => seq![("path"@, "目录相对路径"@, true)],
        ToolKind::ListDirectory => seq![("path"@, "目录相对路径"@, false)],
    }
}

/// What the model is told a tool does.
pub open spec fn tool_description(k: ToolKind) -> Seq<char> {
    match k {
        ToolKind::WriteFile => "创建或覆写一个文件，传入 path 和 content。需要用户确认。"@,
        ToolKind::ReadFile => "读取文件内容，传入 path。需要用户确认。"@,
        ToolKind::CreateDirectory => "创建目录（含父目录），传入 path。"@,
        ToolKind::ListDirectory => "列出目录内容，传入可选 path，默认当前目录。"@,
    }
}

/// The order in which the file tools are offered.
pub open spec fn offered_kinds() -> Seq<ToolKind> {
    seq![ToolKind::WriteFile, ToolKind::ReadFile, ToolKind::CreateDirectory, ToolKind::ListDirectory]
}

/// `t` offers tool `k` as the model sees it.
pub open spec fn offers(t: FileToolSpec, k: ToolKind) -> bool {
    &&& t.kind == k
    &&& t.name@ == tool_name(k)
    &&& t.description@ == tool_description(k)
    &&& t.parameters@.len() == tool_parameters(k).len()
    &&& forall|j: int|
        0 <= j < t.parameters@.len() ==> (#[trigger] t.parameters@[j]).name@ == tool_parameters(k)[j].0
            && t.parameters@[j].description@ == tool_parameters(k)[j].1 && t.parameters@[j].required
            == tool_parameters(k)[j].2
}

fn parameter(name: &str, description: &str, required: bool) -> (p: ToolParameter)
    ensures
        p.name@ == name@,
        p.description@ == description@,
        p.required == required,
{
    ToolParameter { name: owned(name), description: owned(description), required }
}

/// The file tools offered to the model, in order: `write_file`,
/// `read_file`, `create_directory`, `list_directory`; the name of each
/// selects it.
pub fn file_tools() -> (r: Vec<FileToolSpec>)
    ensures
        r@.len() == offered_kinds().len(),
        forall|i: int| 0 <= i < r@.len() ==> offers(#[trigger] r@[i], offered_kinds()[i]),
        forall|i: int| 0 <= i < r@.len() ==> tool_kind_of((#[trigger] r@[i]).name@) == Some(r@[i].kind),
{
    let mut r: Vec<FileToolSpec> = Vec::new();
    let mut ps: Vec<ToolParameter> = Vec::new();
    ps.push(parameter("path", "文件相对路径", true));
    ps.push(parameter("content", "文件内容", true));
    r.push(FileToolSpec {
        kind: ToolKind::WriteFile,
        name: owned("write_file"),
        description: owned("创建或覆写一个文件，传入 path 和 content。需要用户确认。"),
        parameters: ps,
    });
    let mut ps: Vec<ToolParameter> = Vec::new();
    ps.push(parameter("path", "文件相对路径", true));
    r.push(FileToolSpec {
        kind: ToolKind::ReadFile,
        name: owned("read_file"),
        description: owned("读取文件内容，传入 path。需要用户确认。"),
        parameters: ps,
    });
    let mut ps: Vec<ToolParameter> = Vec::new();
    ps.push(parameter("path", "目录相对路径", true));
    r.push(FileToolSpec {
        kind: ToolKind::CreateDirectory,
        name: owned("create_directory"),
        description: owned("创建目录（含父目录），传入 path。"),
        parameters: ps,
    });
    let mut ps: Vec<ToolParameter> = Vec::new();
    ps.push(parameter("path", "目录相对路径", false));
    r.push(FileToolSpec {
        kind: ToolKind::ListDirectory,
        name: owned("list_directory"),
        description: owned("列出目录内容，传入可选 path，默认当前目录。"),
        parameters: ps,
    });
    proof {
        assert forall|i: int| 0 <= i < r@.len() implies tool_kind_of((#[trigger] r@[i]).name@) == Some(
            r@[i].kind,
        ) by {
            law_tool_name_selects(r@[i].kind);
        }
    }
    r
}

/// The answer to a call of an unknown tool.
pub fn unknown_tool_message(name: &str) -> (r: String)
    ensures
        r@ == "未知工具: "@ + name@,
{
    concat("未知工具: ", name)
}

/// The absolute form of a tool's path argument: `Path::join` of the
/// canonical base and the path.
pub fn resolve_target(canonical_base: &str, target: &str) -> (r: String)
    ensures
        r@ == join_path(canonical_base@, target@),
{
    join_paths(canonical_base, target)
}

/// The sandbox decision of the file tools. `resolved` is the target joined
/// to the canonical base; its first `existing` components name something
/// on disk, and `canonical` is the canonical form of that part (the whole
/// target's, when it exists). The target is accepted, as `resolved`, when
/// it stays inside the base: the canonical part lies under the base and
/// none of the components still to be created is `".."`. Otherwise the
/// refusal names the target.
pub fn ensure_safe(canonical_base: &str, resolved: &str, existing: usize, canonical: &str) -> (r: Result<
    String,
    String,
>)
    ensures
        match r {
            Ok(p) => stays_inside(canonical_base@, resolved@, existing as nat, canonical@) && p@ == resolved@,
            Err(e) => !stays_inside(canonical_base@, resolved@, existing as nat, canonical@) && e@ == "路径越界: "@
                + resolved@,
        },
{
    if !is_inside(canonical_base, resolved, existing, canonical) {
        return Err(concat("路径越界: ", resolved));
    }
    Ok(owned(resolved))
}

/// The write report: the path, the number of lines and of bytes written.
pub open spec fn write_report(path: Seq<char>, content: Seq<char>, bytes: nat) -> Seq<char> {
    "已写入 "@ + path + " ("@ + decimal(lines(content).len()) + " 行, "@ + decimal(bytes) + " 字节)"@
}

/// The report after `content` was written to `path`; the byte count is
/// `str::len` of the content.
pub fn write_file_message(path: &str, content: &str) -> (r: String)
    ensures
        r@ == write_report(path@, content@, content.len() as nat),
{
    let ls = split_lines(content);
    let bytes = content.len();
    let mut r = owned("已写入 ");
    push_all(&mut r, path);
    push_all(&mut r, " (");
    push_decimal(&mut r, ls.len() as u64);
    push_all(&mut r, " 行, ");
    push_decimal(&mut r, bytes as u64);
    push_all(&mut r, " 字节)");
    r
}

/// The most lines `read_file` returns.
pub open spec fn max_read_lines() -> nat {
    200
}

/// The read report: the file, cut after 200 lines, fenced and labelled with
/// its path.
pub open spec fn read_report(path: Seq<char>, content: Seq<char>) -> Seq<char> {
    "```"@ + path + "\n"@ + truncated(content, max_read_lines(), "已截断，共 "@) + "\n```"@
}

/// The report after reading `content` from `path`.
pub fn read_file_message(path: &str, content: &str) -> (r: String)
    ensures
        r@ == read_report(path@, content@),
{
    let t = truncate_lines(content, 200, "已截断，共 ");
    let mut r = owned("```");
    push_all(&mut r, path);
    push_all(&mut r, "\n");
    push_all(&mut r, t.as_str());
    push_all(&mut r, "\n```");
    r
}

/// The report after creating the directory `path`.
pub fn create_directory_message(path: &str) -> (r: String)
    ensures
        r@ == "已创建目录: "@ + path@,
{
    concat("已创建目录: ", path)
}

/// The views of a list of strings.
pub open spec fn texts(v: Seq<String>) -> Seq<Seq<char>> {
    v.map_values(|s: String| s@)
}

/// The texts are in the order of `str::cmp`.
pub open spec fn is_sorted_texts(s: Seq<Seq<char>>) -> bool {
    forall|a: int, b: int| 0 <= a < b < s.len() ==> text_le(#[trigger] s[a], #[trigger] s[b])
}

/// Sorts strings in the order of `str::cmp`, keeping each one.
pub fn sort_texts(items: Vec<String>) -> (r: Vec<String>)
    ensures
        is_sorted_texts(texts(r@)),
        texts(r@).to_multiset() == texts(items@).to_multiset(),
        texts(r@) == texts(items@).sort_by(text_order()),
{
    broadcast use vstd::seq_lib::group_to_multiset_ensures, vstd::multiset::group_multiset_axioms;

    let mut r: Vec<String> = Vec::new();
    let mut rest = items;
    let ghost orig = texts(rest@);
    assert(texts(r@) =~= Seq::<Seq<char>>::empty());
    assert(texts(r@).to_multiset().add(texts(rest@).to_multiset()) =~= orig.to_multiset());
    while rest.len() > 0
        invariant
            is_sorted_texts(texts(r@)),
            texts(r@).to_multiset().add(texts(rest@).to_multiset()) == orig.to_multiset(),
        decreases rest@.len(),
    {
        let ghost before_rest = texts(rest@);
        let x = rest.pop().unwrap();
        proof {
            assert(before_rest =~= texts(rest@).push(x@));
            vstd::seq_lib::to_multiset_build(texts(rest@), x@);
        }
        let mut p: usize = 0;
        while p < r.len() && text_le_exec(r[p].as_str(), x.as_str())
            invariant
                p <= r@.len(),
                forall|j: int| 0 <= j < p ==> text_le(#[trigger] r@[j]@, x@),
            decreases r@.len() - p,
        {
            p = p + 1;
        }
        let ghost old_r = texts(r@);
        r.insert(p, x);
        proof {
            let tr = texts(r@);
            assert(tr =~= old_r.insert(p as int, x@));
            vstd::seq_lib::to_multiset_insert(old_r, p as int, x@);
            assert forall|a: int, b: int| 0 <= a < b < tr.len() implies text_le(
                #[trigger] tr[a],
                #[trigger] tr[b],
            ) by {
                if b == p {
                    assert(tr[a] == old_r[a]);
                    assert(old_r[a] == r@[a]@) by {
                        assert(tr[a] == r@[a]@);
                    }
                } else if a == p {
                    assert(tr[b] == old_r[b - 1]);
                    assert(p < old_r.len());
                    lemma_text_le_total(old_r[p as int], x@);
                    if b - 1 > p {
                        assert(text_le(old_r[p as int], old_r[b - 1]));
                        lemma_text_le_trans(x@, old_r[p as int], old_r[b - 1]);
                    }
                } else if a < p && b > p {
                    assert(tr[a] == old_r[a]);
                    assert(tr[b] == old_r[b - 1]);
                    assert(text_le(old_r[a], old_r[b - 1]));
                } else if b < p {
                    assert(tr[a] == old_r[a]);
                    assert(tr[b] == old_r[b]);
                } else {
                    assert(tr[a] == old_r[a - 1]);
                    assert(tr[b] == old_r[b - 1]);
                    assert(text_le(old_r[a - 1], old_r[b - 1]));
                }
            }
            assert(tr.to_multiset().add(texts(rest@).to_multiset()) =~= orig.to_multiset());
        }
    }
    proof {
        assert(texts(rest@) =~= Seq::<Seq<char>>::empty());
        assert(texts(r@).to_multiset().add(texts(rest@).to_multiset()) =~= texts(r@).to_multiset());
        lemma_text_order_total();
        orig.lemma_sort_by_ensures(text_order());
        assert(vstd::relations::sorted_by(texts(r@), text_order()));
        vstd::seq_lib::lemma_sorted_unique(texts(r@), orig.sort_by(text_order()), text_order());
    }
    r
}

/// One line of a directory listing: the name, indented, with a slash after
/// a directory.
pub open spec fn entry_line(name: Seq<char>, is_dir: bool) -> Seq<char> {
    "  "@ + name + if is_dir {
        "/"@
    } else {
        Seq::empty()
    }
}

/// The listing lines of the entries, in directory order.
pub open spec fn entry_lines(entries: Seq<(String, bool)>) -> Seq<Seq<char>> {
    entries.map_values(|e: (String, bool)| entry_line(e.0@, e.1))
}

/// The listing report: the directory (`.` when none was named), the number
/// of entries, then the entry lines sorted.
pub open spec fn list_report(path: Option<Seq<char>>, entries: Seq<(String, bool)>) -> Seq<char> {
    let label = match path {
        Some(p) => p,
        None => "."@,
    };
    label + " ("@ + decimal(entries.len()) + " 项):\n"@ + join(
        entry_lines(entries).sort_by(text_order()),
        "\n"@,
    )
}

/// The report listing a directory's entries, each a name and whether it is
/// a directory.
pub fn list_directory_message(path: Option<&str>, entries: &Vec<(String, bool)>) -> (r: String)
    ensures
        r@ == list_report(
            match path {
                Some(p) => Some(p@),
                None => None,
            },
            entries@,
        ),
{
    let mut items: Vec<String> = Vec::new();
    let n = entries.len();
    for i in 0..n
        invariant
            n == entries@.len(),
            items@.len() == i,
            forall|j: int| 0 <= j < i ==> #[trigger] items@[j]@ == entry_line(entries@[j].0@, entries@[j].1),
    {
        let mut line = owned("  ");
        push_all(&mut line, entries[i].0.as_str());
        if entries[i].1 {
            push_all(&mut line, "/");
        } else {
            assert(line@ =~= line@ + Seq::<char>::empty());
        }
        items.push(line);
    }
    assert(texts(items@) =~= entry_lines(entries@));
    let sorted = sort_texts(items);
    let mut r = match path {
        Some(p) => owned(p),
        None => owned("."),
    };
    push_all(&mut r, " (");
    push_decimal(&mut r, n as u64);
    push_all(&mut r, " 项):\n");
    let body = join_prefix(&sorted, sorted.len(), "\n");
    proof {
        assert(sorted@.take(sorted@.len() as int) =~= sorted@);
    }
    push_all(&mut r, body.as_str());
    r
}

} // verus!
