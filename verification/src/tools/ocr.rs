//! Text extraction from referenced files, and the `@file` reference syntax
//! of the input line.

use vstd::prelude::*;
use crate::text::{chars_of, decimal, is_whitespace, is_ws, join, join_prefix, lines, lowercase, owned, push_all, push_char, push_decimal, split_lines, str_eq, string_from_range, to_lowercase, trim, trimmed};
use crate::tools::path::{components, is_inside, path_components, stays_inside};

verus! {

/// The index of the first `'"'` of `c` at or after `i`, or `c.len()`.
pub open spec fn quote_from(c: Seq<char>, i: int) -> int
    decreases c.len() - i,
{
    if i < 0 || i >= c.len() {
        c.len() as int
    } else if c[i] == '"' {
        i
    } else {
        quote_from(c, i + 1)
    }
}

/// The index of the first white space of `c` at or after `i`, or `c.len()`.
pub open spec fn space_from(c: Seq<char>, i: int) -> int
    decreases c.len() - i,
{
    if i < 0 || i >= c.len() {
        c.len() as int
    } else if is_ws(c[i]) {
        i
    } else {
        space_from(c, i + 1)
    }
}

/// Where `quote_from` points.
pub proof fn lemma_quote_from(c: Seq<char>, i: int)
    requires
        0 <= i,
    ensures
        i <= quote_from(c, i) || quote_from(c, i) == c.len(),
        quote_from(c, i) <= c.len(),
        quote_from(c, i) < c.len() ==> c[quote_from(c, i)] == '"',
    decreases c.len() - i,
{
    if i < c.len() && c[i] != '"' {
        lemma_quote_from(c, i + 1);
    }
}

/// Where `space_from` points.
pub proof fn lemma_space_from(c: Seq<char>, i: int)
    requires
        0 <= i,
    ensures
        i <= space_from(c, i) || space_from(c, i) == c.len(),
        space_from(c, i) <= c.len(),
        forall|j: int| i <= j < space_from(c, i) ==> !is_ws(c[j]),
    decreases c.len() - i,
{
    if i < c.len() && !is_ws(c[i]) {
        lemma_space_from(c, i + 1);
    }
}

/// The input from index `i` on, split into the text that stays and the
/// referenced files. A reference is `@` followed by a non-space: either
/// `@"path"` up to the next quote, when one follows, or `@path` up to the
/// next white space. References are removed from the text; an empty quoted
/// path is dropped.
pub open spec fn scan_refs(c: Seq<char>, i: int) -> (Seq<char>, Seq<Seq<char>>)
    decreases c.len() - i,
{
    if i < 0 || i >= c.len() {
        (Seq::empty(), Seq::empty())
    } else if c[i] == '@' && i + 1 < c.len() && !is_ws(c[i + 1]) {
        let q = quote_from(c, i + 2);
        proof {
            lemma_quote_from(c, i + 2);
            lemma_space_from(c, i + 1);
        }
        if c[i + 1] == '"' && q < c.len() {
            let f = c.subrange(i + 2, q);
            let rest = scan_refs(c, q + 1);
            (rest.0, if f.len() > 0 {
                seq![f] + rest.1
            } else {
                rest.1
            })
        } else {
            let e = space_from(c, i + 1);
            let rest = scan_refs(c, e);
            (rest.0, seq![c.subrange(i + 1, e)] + rest.1)
        }
    } else {
        let rest = scan_refs(c, i + 1);
        (seq![c[i]] + rest.0, rest.1)
    }
}

proof fn lemma_space_at(c: Seq<char>, k: int, e: int)
    requires
        0 <= k <= e <= c.len(),
        forall|j: int| k <= j < e ==> !is_ws(#[trigger] c[j]),
        e == c.len() || is_ws(c[e]),
    ensures
        space_from(c, k) == e,
    decreases e - k,
{
    if k < e {
        lemma_space_at(c, k + 1, e);
    }
}

/// An unquoted reference takes the whole run of non-space characters
/// after its `@`: when `@` at `i` is followed by a character that is
/// neither white space nor a quote, and `e` ends the run of non-space
/// characters that starts there, the first file referenced from `i` on is
/// the text from `i + 1` to `e`, and none of it stays in the text.
pub proof fn law_unquoted_reference_runs_to_space(c: Seq<char>, i: int, e: int)
    requires
        0 <= i,
        i + 1 < e <= c.len(),
        c[i] == '@',
        c[i + 1] != '"',
        forall|j: int| i + 1 <= j < e ==> !is_ws(#[trigger] c[j]),
        e == c.len() || is_ws(c[e]),
    ensures
        scan_refs(c, i).1.len() > 0,
        scan_refs(c, i).1[0] == c.subrange(i + 1, e),
        scan_refs(c, i).1.drop_first() == scan_refs(c, e).1,
        scan_refs(c, i).0 == scan_refs(c, e).0,
{
    lemma_space_at(c, i + 1, e);
    assert(!is_ws(c[i + 1]));
    let rest = scan_refs(c, e);
    assert((seq![c.subrange(i + 1, e)] + rest.1).drop_first() =~= rest.1);
}

/// A quoted reference takes the text up to the next quote: when `@"` at
/// `i` is followed by a closing quote at `q`, with none between, the text
/// between the quotes is the first file referenced from `i` on when it is
/// not empty, and the whole reference leaves the text.
pub proof fn law_quoted_reference_runs_to_quote(c: Seq<char>, i: int, q: int)
    requires
        0 <= i,
        i + 2 <= q < c.len(),
        c[i] == '@',
        c[i + 1] == '"',
        c[q] == '"',
        forall|j: int| i + 2 <= j < q ==> #[trigger] c[j] != '"',
    ensures
        scan_refs(c, i).0 == scan_refs(c, q + 1).0,
        q > i + 2 ==> scan_refs(c, i).1 == seq![c.subrange(i + 2, q)] + scan_refs(c, q + 1).1,
        q == i + 2 ==> scan_refs(c, i).1 == scan_refs(c, q + 1).1,
{
    lemma_quote_at(c, i + 2, q);
    assert(!is_ws(c[i + 1])) by {
        reveal_strlit("\"");
    }
}

/// A character that starts no reference stays in the text, in place: when
/// `c[i]` is not `@`, or is an `@` followed by white space or by nothing,
/// the text from `i` on begins with it and the references are those after
/// it.
pub proof fn law_plain_char_stays(c: Seq<char>, i: int)
    requires
        0 <= i < c.len(),
        c[i] != '@' || i + 1 == c.len() || is_ws(c[i + 1]),
    ensures
        scan_refs(c, i).0 == seq![c[i]] + scan_refs(c, i + 1).0,
        scan_refs(c, i).1 == scan_refs(c, i + 1).1,
{
}

proof fn lemma_quote_at(c: Seq<char>, k: int, q: int)
    requires
        0 <= k <= q < c.len(),
        forall|j: int| k <= j < q ==> #[trigger] c[j] != '"',
        c[q] == '"',
    ensures
        quote_from(c, k) == q,
    decreases q - k,
{
    if k < q {
        lemma_quote_at(c, k + 1, q);
    }
}

/// Splits the input into its text without the references, and the files
/// it references with `@path` or `@"path with spaces"`, in order.
pub fn parse_at_references(input: &str) -> (r: (String, Vec<String>))
    ensures
        r.0@ == scan_refs(input@, 0).0,
        r.1@.len() == scan_refs(input@, 0).1.len(),
        forall|k: int| 0 <= k < r.1@.len() ==> #[trigger] r.1@[k]@ == scan_refs(input@, 0).1[k],
{
    let c = chars_of(input);
    let len = c.len();
    let mut cleaned = String::new();
    let mut files: Vec<String> = Vec::new();
    let ghost all = scan_refs(c@, 0);
    let ghost mut fdone: Seq<Seq<char>> = Seq::empty();
    let mut i: usize = 0;
    while i < len
        invariant
            len == c@.len(),
            c@ == input@,
            i <= len,
            all == scan_refs(c@, 0),
            cleaned@ + scan_refs(c@, i as int).0 == all.0,
            fdone + scan_refs(c@, i as int).1 == all.1,
            files@.len() == fdone.len(),
            forall|k: int| 0 <= k < files@.len() ==> #[trigger] files@[k]@ == fdone[k],
        decreases len - i,
    {
        if c[i] == '@' && i + 1 < len && !is_whitespace(c[i + 1]) {
            let start = i + 1;
            if c[i + 1] == '"' {
                let content_start = i + 2;
                let mut j = content_start;
                while j < len && c[j] != '"'
                    invariant
                        content_start <= j <= len == c@.len(),
                        quote_from(c@, content_start as int) == quote_from(c@, j as int),
                    decreases len - j,
                {
                    j = j + 1;
                }
                if j < len {
                    let filepath = string_from_range(c.as_slice(), content_start, j);
                    proof {
                        assert(scan_refs(c@, i as int).0 == scan_refs(c@, j + 1).0);
                    }
                    if !filepath.as_str().is_empty() {
                        files.push(filepath);
                        proof {
                            let f = c@.subrange(content_start as int, j as int);
                            assert(fdone + scan_refs(c@, i as int).1 =~= fdone.push(f) + scan_refs(c@, j + 1).1);
                            fdone = fdone.push(f);
                        }
                    }
                    i = j + 1;
                    continue;
                }
            }
            let mut j = start;
            while j < len && !is_whitespace(c[j])
                invariant
                    start <= j <= len == c@.len(),
                    space_from(c@, start as int) == space_from(c@, j as int),
                decreases len - j,
            {
                j = j + 1;
            }
            proof {
                lemma_quote_from(c@, i + 2);
            }
            let filepath = string_from_range(c.as_slice(), start, j);
            if !filepath.as_str().is_empty() {
                files.push(filepath);
                proof {
                    let f = c@.subrange(start as int, j as int);
                    assert(fdone + scan_refs(c@, i as int).1 =~= fdone.push(f) + scan_refs(c@, j as int).1);
                    fdone = fdone.push(f);
                }
            } else {
                assert(j == start);
                assert(false);
            }
            i = j;
            continue;
        }
        let ghost before = cleaned@;
        push_char(&mut cleaned, c[i]);
        proof {
            assert(before + scan_refs(c@, i as int).0 =~= cleaned@ + scan_refs(c@, i + 1).0);
        }
        i = i + 1;
    }
    assert(scan_refs(c@, len as int).0 =~= Seq::<char>::empty());
    assert(cleaned@ =~= all.0);
    (cleaned, files)
}


/// The final component of a path when it is a name, as `Path::file_name`
/// gives it.
pub open spec fn file_name(p: Seq<char>) -> Option<Seq<char>> {
    let c = components(p);
    if c.len() == 0 || c.last() == "/"@ || c.last() == "."@ || c.last() == ".."@ {
        None
    } else {
        Some(c.last())
    }
}

/// The index of the last `'.'` of `f`, or -1.
pub open spec fn last_dot(f: Seq<char>) -> int
    decreases f.len(),
{
    if f.len() == 0 {
        -1
    } else if f.last() == '.' {
        f.len() - 1
    } else {
        last_dot(f.drop_last())
    }
}

/// The extension of a path, as `Path::extension` gives it: the text after
/// the last dot of the file name, unless the name has no dot or its only
/// dot comes first.
pub open spec fn extension(p: Seq<char>) -> Option<Seq<char>> {
    match file_name(p) {
        Some(f) => if last_dot(f) <= 0 {
            None
        } else {
            Some(f.subrange(last_dot(f) + 1, f.len() as int))
        },
        None => None,
    }
}

proof fn lemma_last_dot(f: Seq<char>)
    ensures
        -1 <= last_dot(f) < f.len(),
        last_dot(f) >= 0 ==> f[last_dot(f)] == '.',
        forall|j: int| last_dot(f) < j < f.len() ==> f[j] != '.',
    decreases f.len(),
{
    if f.len() > 0 && f.last() != '.' {
        lemma_last_dot(f.drop_last());
        assert forall|j: int| last_dot(f) < j < f.len() implies f[j] != '.' by {
            if j < f.len() - 1 {
                assert(f.drop_last()[j] == f[j]);
            }
        }
    }
}

/// The lowercase extension of a path, or the empty text when it has none.
pub fn extension_of(path: &str) -> (r: String)
    ensures
        r@ == lowercase(
            match extension(path@) {
                Some(e) => e,
                None => Seq::empty(),
            },
        ),
{
    let comps = path_components(path);
    let n = comps.len();
    proof {
        reveal_strlit("/");
        reveal_strlit(".");
        reveal_strlit("..");
        reveal_strlit("");
        assert(""@ =~= Seq::<char>::empty());
        if n > 0 {
            assert(components(path@).last() == comps@[n - 1]@);
        }
    }
    if n == 0 || str_eq(comps[n - 1].as_str(), "/") || str_eq(comps[n - 1].as_str(), ".") || str_eq(
        comps[n - 1].as_str(),
        "..",
    ) {
        return to_lowercase("");
    }
    let f = chars_of(comps[n - 1].as_str());
    let mut i = f.len();
    assert(f@.subrange(0, i as int) =~= f@);
    while i > 0 && f[i - 1] != '.'
        invariant
            i <= f@.len(),
            last_dot(f@) == last_dot(f@.subrange(0, i as int)),
        decreases i,
    {
        assert(f@.subrange(0, i as int).drop_last() =~= f@.subrange(0, i - 1));
        i = i - 1;
    }
    proof {
        assert(f@.subrange(0, f@.len() as int) =~= f@);
        if i > 0 {
            assert(f@.subrange(0, i as int).last() == '.');
        }
        assert(last_dot(f@) == i - 1);
    }
    assert(file_name(path@) == Some(f@));
    if i <= 1 {
        return to_lowercase("");
    }
    let e = string_from_range(f.as_slice(), i, f.len());
    to_lowercase(e.as_str())
}

/// The image formats read by OCR.
pub open spec fn is_image_extension(e: Seq<char>) -> bool {
    e == "png"@ || e == "jpg"@ || e == "jpeg"@ || e == "bmp"@ || e == "webp"@ || e == "tiff"@ || e
        == "gif"@ || e == "tif"@
}

/// Whether `ext` names an image format read by OCR.
pub fn is_image_ext(ext: &str) -> (b: bool)
    ensures
        b == is_image_extension(ext@),
{
    str_eq(ext, "png") || str_eq(ext, "jpg") || str_eq(ext, "jpeg") || str_eq(ext, "bmp") || str_eq(
        ext,
        "webp",
    ) || str_eq(ext, "tiff") || str_eq(ext, "gif") || str_eq(ext, "tif")
}

/// The plain-text formats read directly.
pub open spec fn is_text_extension(e: Seq<char>) -> bool {
    ||| e == "txt"@ || e == "md"@ || e == "rs"@ || e == "py"@ || e == "js"@ || e == "ts"@
    ||| e == "go"@ || e == "java"@ || e == "c"@ || e == "cpp"@ || e == "h"@ || e == "hpp"@
    ||| e == "toml"@ || e == "yaml"@ || e == "yml"@ || e == "json"@ || e == "xml"@ || e == "html"@
    ||| e == "css"@ || e == "sh"@ || e == "bash"@ || e == "zsh"@ || e == "sql"@ || e == "r"@
    ||| e == "swift"@ || e == "kt"@ || e == "env"@ || e == "cfg"@ || e == "ini"@ || e == "log"@
    ||| e == "csv"@ || e == "vue"@ || e == "svelte"@ || e == "tf"@ || e == "proto"@ || e == "lua"@
    ||| e == "rb"@ || e == "php"@ || e == "scala"@ || e == "clj"@ || e == "ex"@ || e == "exs"@
    ||| e == "dart"@ || e == "nim"@ || e == "zig"@
}

/// Whether `ext` names a plain-text format read directly.
pub fn is_text_ext(ext: &str) -> (b: bool)
    ensures
        b == is_text_extension(ext@),
{
    (str_eq(ext, "txt") || str_eq(ext, "md") || str_eq(ext, "rs") || str_eq(ext, "py") || str_eq(
        ext,
        "js",
    ) || str_eq(ext, "ts")) || (str_eq(ext, "go") || str_eq(ext, "java") || str_eq(ext, "c")
        || str_eq(ext, "cpp") || str_eq(ext, "h") || str_eq(ext, "hpp")) || (str_eq(ext, "toml")
        || str_eq(ext, "yaml") || str_eq(ext, "yml") || str_eq(ext, "json") || str_eq(ext, "xml")
        || str_eq(ext, "html")) || (str_eq(ext, "css") || str_eq(ext, "sh") || str_eq(ext, "bash")
        || str_eq(ext, "zsh") || str_eq(ext, "sql") || str_eq(ext, "r")) || (str_eq(ext, "swift")
        || str_eq(ext, "kt") || str_eq(ext, "env") || str_eq(ext, "cfg") || str_eq(ext, "ini")
        || str_eq(ext, "log")) || (str_eq(ext, "csv") || str_eq(ext, "vue") || str_eq(ext, "svelte")
        || str_eq(ext, "tf") || str_eq(ext, "proto") || str_eq(ext, "lua")) || (str_eq(ext, "rb")
        || str_eq(ext, "php") || str_eq(ext, "scala") || str_eq(ext, "clj") || str_eq(ext, "ex")
        || str_eq(ext, "exs")) || (str_eq(ext, "dart") || str_eq(ext, "nim") || str_eq(ext, "zig"))
}

/// The most lines a referenced file contributes.
pub open spec fn max_extract_lines() -> nat {
    500
}

/// `text` cut after `max` lines, with a note of the full line count, or
/// unchanged when it has no more lines than that.
pub open spec fn truncated(text: Seq<char>, max: nat, note: Seq<char>) -> Seq<char> {
    let ls = lines(text);
    if ls.len() > max {
        join(ls.take(max as int), "\n"@) + "\n... ("@ + note + decimal(ls.len()) + " 行)"@
    } else {
        text
    }
}

pub(crate) fn truncate_lines(text: &str, max: usize, note: &str) -> (r: String)
    ensures
        r@ == truncated(text@, max as nat, note@),
{
    let ls = split_lines(text);
    if ls.len() > max {
        let mut r = join_prefix(&ls, max, "\n");
        proof {
            assert(ls@.take(max as int).map_values(|l: String| l@) =~= lines(text@).take(max as int));
        }
        push_all(&mut r, "\n... (");
        push_all(&mut r, note);
        push_decimal(&mut r, ls.len() as u64);
        push_all(&mut r, " 行)");
        r
    } else {
        owned(text)
    }
}

/// Extracted text, cut after 500 lines with a note of the full line count.
pub fn truncate_content(text: &str) -> (r: String)
    ensures
        r@ == truncated(text@, max_extract_lines(), "已截断，原始 "@),
{
    truncate_lines(text, 500, "已截断，原始 ")
}

/// How a referenced file is read, by its extension.
#[derive(Debug, Clone, Copy, PartialEq, Eq, Structural)]
pub enum ExtractionKind {
    /// A PDF document.
    Pdf,
    /// An image, read by OCR.
    Image,
    /// A plain-text file, or a file without extension.
    Text,
    /// Anything else: read as text if it holds no NUL character.
    Probe,
}

/// The reading strategy for a file with lowercase extension `ext`.
pub open spec fn extraction_kind_of(ext: Seq<char>) -> ExtractionKind {
    if ext == "pdf"@ {
        ExtractionKind::Pdf
    } else if is_image_extension(ext) {
        ExtractionKind::Image
    } else if is_text_extension(ext) || ext.len() == 0 {
        ExtractionKind::Text
    } else {
        ExtractionKind::Probe
    }
}

/// The reading strategy for a file with lowercase extension `ext`.
pub fn extraction_kind(ext: &str) -> (k: ExtractionKind)
    ensures
        k == extraction_kind_of(ext@),
{
    if str_eq(ext, "pdf") {
        ExtractionKind::Pdf
    } else if is_image_ext(ext) {
        ExtractionKind::Image
    } else if is_text_ext(ext) || ext.is_empty() {
        ExtractionKind::Text
    } else {
        ExtractionKind::Probe
    }
}

/// What a probed file gives: its text, cut, when it holds no NUL
/// character; otherwise the report that the format is not supported.
pub fn probe_result(content: &str, ext: &str) -> (r: Result<String, String>)
    ensures
        match r {
            Ok(t) => !content@.contains('\0') && t@ == truncated(content@, max_extract_lines(), "已截断，原始 "@),
            Err(e) => content@.contains('\0') && e@ == "不支持的文件格式: "@ + ext@,
        },
{
    let v = chars_of(content);
    let n = v.len();
    for i in 0..n
        invariant
            n == v@.len(),
            v@ == content@,
            forall|j: int| 0 <= j < i ==> v@[j] != '\0',
    {
        if v[i] == '\0' {
            let mut e = owned("不支持的文件格式: ");
            push_all(&mut e, ext);
            return Err(e);
        }
    }
    Ok(truncate_content(content))
}

/// What OCR output gives: its text, cut, unless it is blank.
pub fn ocr_result(text: &str) -> (r: Result<String, String>)
    ensures
        match r {
            Ok(t) => trim(text@).len() > 0 && t@ == truncated(text@, max_extract_lines(), "已截断，原始 "@),
            Err(e) => trim(text@).len() == 0 && e@ == "OCR 未识别到文字"@,
        },
{
    let t = trimmed(text);
    if t.as_str().is_empty() {
        Err(owned("OCR 未识别到文字"))
    } else {
        Ok(truncate_content(text))
    }
}


/// The sandbox decision for referenced files. `resolved` is the path joined
/// to the canonical working directory; its first `existing` components name
/// something on disk, and `canonical` is the canonical form of that part.
/// The path is accepted, as `resolved`, when it stays inside the directory
/// (`stays_inside`); the refusal names `resolved`.
pub fn is_safe_path(canonical_base: &str, resolved: &str, existing: usize, canonical: &str) -> (r: Result<
    String,
    String,
>)
    ensures
        match r {
            Ok(p) => stays_inside(canonical_base@, resolved@, existing as nat, canonical@) && p@ == resolved@,
            Err(e) => !stays_inside(canonical_base@, resolved@, existing as nat, canonical@) && e@ == "路径越界: "@
                + resolved@,
        },
{
    if !is_inside(canonical_base, resolved, existing, canonical) {
        let mut e = owned("路径越界: ");
        push_all(&mut e, resolved);
        return Err(e);
    }
    Ok(owned(resolved))
}

/// With no `@` in the input, nothing is referenced and the text stays whole.
pub proof fn law_no_reference_keeps_text(c: Seq<char>, i: int)
    requires
        0 <= i,
        forall|j: int| 0 <= j < c.len() ==> c[j] != '@',
    ensures
        scan_refs(c, i).0 == (if i < c.len() {
            c.subrange(i, c.len() as int)
        } else {
            Seq::empty()
        }),
        scan_refs(c, i).1.len() == 0,
    decreases c.len() - i,
{
    if i < c.len() {
        law_no_reference_keeps_text(c, i + 1);
        assert(seq![c[i]] + (if i + 1 < c.len() {
            c.subrange(i + 1, c.len() as int)
        } else {
            Seq::empty()
        }) =~= c.subrange(i, c.len() as int));
    }
}

} // verus!
