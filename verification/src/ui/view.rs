//! The text of each screen area, computed from the application state: the
//! wrapped message list and its scroll window, the status bar, the command
//! palette list, the tab bar and the agent list. Drawing it is left to the
//! terminal backend.

use vstd::prelude::*;
use crate::text::{concat, decimal, lines, owned, push_all, push_char, push_decimal, split_lines};
use crate::api::types::{Message, Role, ToolCall, Usage};
use crate::app::{calls_of, App, Tab, ToolCallStatus, ToolCallTable};
use crate::text::{lowercase, to_lowercase, chars_of, str_eq};

verus! {

/// What `UnicodeWidthChar::width` returns for a character: its display
/// width in columns, or `None` for a control character.
pub uninterp spec fn char_width(c: char) -> Option<nat>;

/// Calls `unicode_width::UnicodeWidthChar::width`. Trusted, as the crate's
/// source shows: ASCII from space to tilde is one column wide, the other
/// characters below U+00A0 are control characters without a width, and
/// every width is a table entry of at most 255. The table is left unstated.
#[verifier::external_body]
fn width_of_char(c: char) -> (w: Option<usize>)
    ensures
        match w {
            Some(n) => char_width(c) == Some(n as nat),
            None => char_width(c) is None,
        },
        ' ' <= c < '\u{7F}' ==> w == Some(1usize),
        c < ' ' || ('\u{7F}' <= c < '\u{A0}') ==> w is None,
        w matches Some(n) ==> n <= 255,
{
    unicode_width::UnicodeWidthChar::width(c)
}

/// The column width a character takes when wrapping: zero for a control
/// character.
pub open spec fn wrap_width(c: char) -> nat {
    match char_width(c) {
        Some(w) => w,
        None => 0,
    }
}

/// The wrapping of the first `i` characters of `text` at `max` columns:
/// the finished lines, the line being filled and its width. A character
/// that would overflow a non-empty line starts a new one.
pub open spec fn wrap_state(text: Seq<char>, max: nat, i: int) -> (Seq<Seq<char>>, Seq<char>, nat)
    decreases i,
{
    if i <= 0 {
        (Seq::empty(), Seq::empty(), 0)
    } else {
        let (done, cur, w) = wrap_state(text, max, i - 1);
        let c = text[i - 1];
        if w + wrap_width(c) > max && cur.len() > 0 {
            (done.push(cur), seq![c], wrap_width(c))
        } else {
            (done, cur.push(c), w + wrap_width(c))
        }
    }
}

/// `text` wrapped at `max` columns, every line after the first prefixed
/// with `indent`. An empty text, or a width of zero, gives the text as it
/// is.
pub open spec fn wrapped(text: Seq<char>, max: nat, indent: Seq<char>) -> Seq<Seq<char>> {
    if max == 0 || text.len() == 0 {
        seq![text]
    } else {
        let (done, cur, _w) = wrap_state(text, max, text.len() as int);
        let ls = if cur.len() > 0 {
            done.push(cur)
        } else {
            done
        };
        if ls.len() == 0 {
            seq![text]
        } else {
            seq![ls[0]] + ls.drop_first().map_values(|l: Seq<char>| indent + l)
        }
    }
}

/// The concatenation of a sequence of texts.
pub open spec fn flatten_texts(ls: Seq<Seq<char>>) -> Seq<char>
    decreases ls.len(),
{
    if ls.len() == 0 {
        Seq::empty()
    } else {
        flatten_texts(ls.drop_last()) + ls.last()
    }
}

/// The display width of a text, counting control characters as zero.
pub open spec fn text_width(s: Seq<char>) -> nat
    decreases s.len(),
{
    if s.len() == 0 {
        0
    } else {
        text_width(s.drop_last()) + wrap_width(s.last())
    }
}

/// Wrapping loses and reorders nothing, and respects the width: the
/// finished lines and the line being filled spell out the characters read
/// so far; every line is non-empty and fits in `max` columns unless it is a
/// single character wider than that; the recorded width is the width of the
/// line being filled.
pub proof fn law_wrap_keeps_text(text: Seq<char>, max: nat, i: int)
    requires
        0 <= i <= text.len(),
    ensures
        flatten_texts(wrap_state(text, max, i).0) + wrap_state(text, max, i).1 == text.take(i),
        forall|k: int| 0 <= k < wrap_state(text, max, i).0.len() ==> #[trigger] wrap_state(text, max, i).0[k].len() > 0,
        forall|k: int| 0 <= k < wrap_state(text, max, i).0.len() ==> text_width(#[trigger] wrap_state(text, max, i).0[k])
            <= max || wrap_state(text, max, i).0[k].len() == 1,
        wrap_state(text, max, i).2 == text_width(wrap_state(text, max, i).1),
        text_width(wrap_state(text, max, i).1) <= max || wrap_state(text, max, i).1.len() <= 1,
    decreases i,
{
    if i > 0 {
        law_wrap_keeps_text(text, max, i - 1);
        let (done, cur, w) = wrap_state(text, max, i - 1);
        let c = text[i - 1];
        assert(text.take(i) =~= text.take(i - 1).push(c));
        if w + wrap_width(c) > max && cur.len() > 0 {
            assert(done.push(cur).drop_last() =~= done);
            assert(flatten_texts(done.push(cur)) + seq![c] =~= flatten_texts(done) + cur + seq![c]);
            assert(seq![c].drop_last() =~= Seq::<char>::empty());
            assert(seq![c].last() == c);
            assert(text_width(Seq::<char>::empty()) == 0);
            assert(text_width(seq![c]) == wrap_width(c));
            assert forall|k: int| 0 <= k < done.push(cur).len() implies text_width(#[trigger] done.push(cur)[k]) <= max
                || done.push(cur)[k].len() == 1 by {
                if k < done.len() {
                    assert(done.push(cur)[k] == done[k]);
                }
            }
        } else {
            assert(flatten_texts(done) + cur.push(c) =~= flatten_texts(done) + cur + seq![c]);
            assert(cur.push(c).drop_last() =~= cur);
            assert(cur.push(c).last() == c);
            assert(text_width(cur.push(c)) == text_width(cur) + wrap_width(c));
        }
    }
}

/// Wraps `text` at `max_width` columns, indenting continuation lines.
pub fn wrap_text(text: &str, max_width: usize, indent: &str) -> (r: Vec<String>)
    ensures
        r@.len() == wrapped(text@, max_width as nat, indent@).len(),
        forall|k: int| 0 <= k < r@.len() ==> #[trigger] r@[k]@ == wrapped(text@, max_width as nat, indent@)[k],
{
    let chars = crate::text::chars_of(text);
    if max_width == 0 || chars.len() == 0 {
        let mut r: Vec<String> = Vec::new();
        r.push(owned(text));
        return r;
    }
    let mut result: Vec<String> = Vec::new();
    let mut current = String::new();
    let mut current_width: usize = 0;
    let n = chars.len();
    for i in 0..n
        invariant
            n == chars@.len() == text@.len(),
            chars@ == text@,
            max_width > 0,
            ({
                let (done, cur, w) = wrap_state(text@, max_width as nat, i as int);
                &&& result@.len() == done.len()
                &&& forall|k: int| 0 <= k < done.len() ==> #[trigger] result@[k]@ == done[k]
                &&& current@ == cur
                &&& current_width == w
            }),
            current_width <= max_width || current_width <= 255,
    {
        let ch = chars[i];
        let ch_width: usize = match width_of_char(ch) {
            Some(w) => w,
            None => 0,
        };
        let overflow = if current_width > max_width {
            true
        } else {
            ch_width > max_width - current_width
        };
        if overflow && !current.as_str().is_empty() {
            let ghost done = wrap_state(text@, max_width as nat, i as int).0;
            let finished = current;
            result.push(finished);
            current = String::new();
            current_width = 0;
            proof {
                assert(result@.len() == done.len() + 1);
            }
        }
        push_char(&mut current, ch);
        current_width = current_width + ch_width;
        proof {
            let (done, cur, w) = wrap_state(text@, max_width as nat, i + 1);
            assert(current@ =~= cur);
        }
    }
    let ghost ws = wrap_state(text@, max_width as nat, n as int);
    if !current.as_str().is_empty() {
        result.push(current);
    }
    let ghost ls = if ws.1.len() > 0 {
        ws.0.push(ws.1)
    } else {
        ws.0
    };
    assert(result@.len() == ls.len());
    if result.len() == 0 {
        let mut r: Vec<String> = Vec::new();
        r.push(owned(text));
        return r;
    }
    let mut out: Vec<String> = Vec::new();
    out.push(result[0].clone());
    let m = result.len();
    for k in 1..m
        invariant
            m == result@.len() == ls.len(),
            m > 0,
            forall|j: int| 0 <= j < m ==> #[trigger] result@[j]@ == ls[j],
            out@.len() == k,
            out@[0]@ == ls[0],
            forall|j: int| 1 <= j < k ==> #[trigger] out@[j]@ == indent@ + ls[j],
    {
        out.push(concat(indent, result[k].as_str()));
    }
    proof {
        let w = wrapped(text@, max_width as nat, indent@);
        assert(w == seq![ls[0]] + ls.drop_first().map_values(|l: Seq<char>| indent@ + l));
        assert forall|j: int| 0 <= j < out@.len() implies #[trigger] out@[j]@ == w[j] by {
            if j > 0 {
                assert(ls.drop_first()[j - 1] == ls[j]);
            }
        }
    }
    out
}


/// How a line of the message list is drawn.
#[derive(Debug, Clone, Copy, PartialEq, Eq, Structural)]
pub enum LineStyle {
    /// The animated placeholder of an answer not yet begun.
    Thinking,
    /// The label that opens a message of the given role.
    Label(Role),
    /// A line of message text.
    Body,
    /// A line describing a tool call.
    ToolCall,
    /// The empty line after a message.
    Blank,
}

/// One line of the message list.
#[derive(Debug, Clone)]
pub struct ScreenLine {
    pub text: String,
    pub style: LineStyle,
}

/// A screen line by its text.
pub open spec fn line_view(l: ScreenLine) -> (Seq<char>, LineStyle) {
    (l.text@, l.style)
}

/// Screen lines by their text.
pub open spec fn line_views(s: Seq<ScreenLine>) -> Seq<(Seq<char>, LineStyle)> {
    s.map_values(|l: ScreenLine| line_view(l))
}

/// The label of a message of role `r`.
pub open spec fn role_label(r: Role) -> Seq<char> {
    match r {
        Role::User => "[你]"@,
        Role::Assistant => "[哪吒]"@,
        Role::System => "[系统]"@,
        Role::Tool => "[工具]"@,
    }
}

/// The animation dots after "正在思考": none to three, by tick.
pub open spec fn dots(ticks: u64) -> Seq<char> {
    if ticks % 4 == 0 {
        Seq::empty()
    } else if ticks % 4 == 1 {
        "."@
    } else if ticks % 4 == 2 {
        ".."@
    } else {
        "..."@
    }
}

/// The mark of a tool call by its recorded status: OK, ERR, or "..." while
/// it is pending, running or unknown.
pub open spec fn status_mark(pending: Map<Seq<char>, ToolCallStatus>, id: Seq<char>) -> Seq<char> {
    if pending.contains_key(id) {
        match pending[id] {
            ToolCallStatus::Success { .. } => "OK"@,
            ToolCallStatus::Failed { .. } => "ERR"@,
            _ => "..."@,
        }
    } else {
        "..."@
    }
}

/// How a tool call is described, by its recorded status: "  [OK] " for a
/// call that succeeded, "  [ERR] " for one that failed (a refused call
/// among them), and "  [...] " otherwise, then its name and arguments.
pub proof fn law_call_marks(pending: Map<Seq<char>, ToolCallStatus>, tc: ToolCall)
    ensures
        ({
            let rest = tc.function.name@ + "("@ + tc.function.arguments@ + ")"@;
            let id = tc.id@;
            &&& (pending.contains_key(id) && pending[id] is Success) ==> call_text(pending, tc) == "  [OK] "@
                + rest
            &&& (pending.contains_key(id) && pending[id] is Failed) ==> call_text(pending, tc) == "  [ERR] "@
                + rest
            &&& !(pending.contains_key(id) && (pending[id] is Success || pending[id] is Failed)) ==> call_text(
                pending,
                tc,
            ) == "  [...] "@ + rest
        }),
{
    reveal_strlit("  [");
    reveal_strlit("] ");
    reveal_strlit("OK");
    reveal_strlit("ERR");
    reveal_strlit("...");
    reveal_strlit("  [OK] ");
    reveal_strlit("  [ERR] ");
    reveal_strlit("  [...] ");
    let rest = tc.function.name@ + "("@ + tc.function.arguments@ + ")"@;
    let m = status_mark(pending, tc.id@);
    assert(call_text(pending, tc) =~= "  ["@ + m + "] "@ + rest);
    if m == "OK"@ {
        assert("  ["@ + m + "] "@ + rest =~= "  [OK] "@ + rest);
    } else if m == "ERR"@ {
        assert("  ["@ + m + "] "@ + rest =~= "  [ERR] "@ + rest);
    } else {
        assert("  ["@ + m + "] "@ + rest =~= "  [...] "@ + rest);
    }
}

/// A call the user refused is shown as failed: after `RejectToolCall` for
/// call `c` of an existing tab, that tab marks `c` "ERR".
pub proof fn law_refused_call_marked_err(a0: App, t: usize, c: String, a1: App, r: bool)
    requires
        a0.wf(),
        t < a0.tabs@.len(),
        crate::app::update_spec(a0, crate::action::Action::RejectToolCall { tab_id: t, call_id: c }, a1, r),
    ensures
        status_mark(a1.tabs@[t as int].pending_tool_calls@, c@) == "ERR"@,
{
    reveal(crate::app::update_spec);
}

/// The texts `ls`, all drawn in style `st`.
pub open spec fn styled(ls: Seq<Seq<char>>, st: LineStyle) -> Seq<(Seq<char>, LineStyle)> {
    ls.map_values(|l: Seq<char>| (l, st))
}

/// The body lines of a text: each of its lines wrapped with a two-space
/// indent.
pub open spec fn body_lines(ls: Seq<Seq<char>>, w: nat) -> Seq<(Seq<char>, LineStyle)>
    decreases ls.len(),
{
    if ls.len() == 0 {
        Seq::empty()
    } else {
        body_lines(ls.drop_last(), w) + styled(wrapped(ls.last(), w, "  "@), LineStyle::Body)
    }
}

/// The text describing a tool call: "  [mark] name(arguments)".
pub open spec fn call_text(pending: Map<Seq<char>, ToolCallStatus>, tc: ToolCall) -> Seq<char> {
    "  ["@ + status_mark(pending, tc.id@) + "] "@ + tc.function.name@ + "("@ + tc.function.arguments@
        + ")"@
}

/// The lines describing tool calls, each wrapped with a four-space indent.
pub open spec fn call_lines(pending: Map<Seq<char>, ToolCallStatus>, calls: Seq<ToolCall>, w: nat) -> Seq<(Seq<char>, LineStyle)>
    decreases calls.len(),
{
    if calls.len() == 0 {
        Seq::empty()
    } else {
        call_lines(pending, calls.drop_last(), w) + styled(
            wrapped(call_text(pending, calls.last()), w, "    "@),
            LineStyle::ToolCall,
        )
    }
}

/// The lines of one message: the thinking placeholder for the last,
/// still-empty answer; otherwise its label, its wrapped text, its tool
/// calls, and an empty line.
pub open spec fn message_block(m: Message, is_last: bool, ticks: u64, pending: Map<Seq<char>, ToolCallStatus>, w: nat) -> Seq<(Seq<char>, LineStyle)> {
    if is_last && m.role == Role::Assistant && m.content@.len() == 0 {
        seq![("[哪吒] 正在思考"@ + dots(ticks), LineStyle::Thinking), (Seq::empty(), LineStyle::Blank)]
    } else {
        seq![(role_label(m.role), LineStyle::Label(m.role))] + (if m.content@.len() > 0 {
            body_lines(lines(m.content@), w)
        } else {
            Seq::empty()
        }) + call_lines(pending, calls_of(m), w) + seq![(Seq::empty(), LineStyle::Blank)]
    }
}

/// The lines of the first `k` messages of a tab.
pub open spec fn tab_lines(t: Tab, k: int, w: nat) -> Seq<(Seq<char>, LineStyle)>
    decreases k,
{
    if k <= 0 {
        Seq::empty()
    } else {
        tab_lines(t, k - 1, w) + message_block(
            t.messages@[k - 1],
            k - 1 == t.messages@.len() - 1,
            t.thinking_ticks,
            t.pending_tool_calls@,
            w,
        )
    }
}

proof fn lemma_line_views_push(s: Seq<ScreenLine>, x: ScreenLine)
    ensures
        line_views(s.push(x)) == line_views(s).push(line_view(x)),
{
    assert(line_views(s.push(x)) =~= line_views(s).push(line_view(x)));
}

fn push_styled(out: &mut Vec<ScreenLine>, ls: Vec<String>, style: LineStyle)
    ensures
        line_views(final(out)@) == line_views(old(out)@) + styled(
            ls@.map_values(|l: String| l@),
            style,
        ),
{
    let ghost start = line_views(out@);
    let n = ls.len();
    let mut k: usize = 0;
    let mut ls = ls;
    let ghost orig = ls@;
    while k < n
        invariant
            n == orig.len(),
            k <= n,
            ls@ == orig,
            line_views(out@) == start + styled(orig.take(k as int).map_values(|l: String| l@), style),
        decreases n - k,
    {
        let ghost prev = out@;
        out.push(ScreenLine { text: ls[k].clone(), style });
        proof {
            lemma_line_views_push(prev, out@.last());
            assert(out@ == prev.push(out@.last()));
            assert(styled(orig.take(k + 1).map_values(|l: String| l@), style) =~= styled(
                orig.take(k as int).map_values(|l: String| l@),
                style,
            ).push((orig[k as int]@, style)));
            assert(line_views(out@) =~= start + styled(orig.take(k + 1).map_values(|l: String| l@), style));
        }
        k = k + 1;
    }
    assert(orig.take(n as int) =~= orig);
}

fn push_wrapped(out: &mut Vec<ScreenLine>, text: &str, w: usize, indent: &str, style: LineStyle)
    ensures
        line_views(final(out)@) == line_views(old(out)@) + styled(wrapped(text@, w as nat, indent@), style),
{
    let ls = wrap_text(text, w, indent);
    proof {
        assert(ls@.map_values(|l: String| l@) =~= wrapped(text@, w as nat, indent@));
    }
    push_styled(out, ls, style);
}

fn thinking_text(ticks: u64) -> (s: String)
    ensures
        s@ == "[哪吒] 正在思考"@ + dots(ticks),
{
    let mut s = owned("[哪吒] 正在思考");
    let d = ticks % 4;
    if d == 0 {
        assert(s@ =~= s@ + Seq::<char>::empty());
    } else if d == 1 {
        push_all(&mut s, ".");
    } else if d == 2 {
        push_all(&mut s, "..");
    } else {
        push_all(&mut s, "...");
    }
    s
}

fn label_text(r: Role) -> (s: &'static str)
    ensures
        s@ == role_label(r),
{
    match r {
        Role::User => "[你]",
        Role::Assistant => "[哪吒]",
        Role::System => "[系统]",
        Role::Tool => "[工具]",
    }
}

fn mark_text(pending: &ToolCallTable, id: &str) -> (s: &'static str)
    ensures
        s@ == status_mark(pending@, id@),
{
    match pending.get(id) {
        Some(ToolCallStatus::Success { .. }) => "OK",
        Some(ToolCallStatus::Failed { .. }) => "ERR",
        _ => "...",
    }
}

fn push_body_lines(out: &mut Vec<ScreenLine>, content: &str, w: usize)
    ensures
        line_views(final(out)@) == line_views(old(out)@) + body_lines(lines(content@), w as nat),
{
    let ghost start = line_views(out@);
    let ls = split_lines(content);
    let ghost lv = lines(content@);
    let n = ls.len();
    assert(start =~= start + body_lines(lv.take(0), w as nat));
    for j in 0..n
        invariant
            n == ls@.len() == lv.len(),
            lv == lines(content@),
            forall|q: int| 0 <= q < n ==> #[trigger] ls@[q]@ == lv[q],
            line_views(out@) == start + body_lines(lv.take(j as int), w as nat),
    {
        push_wrapped(out, ls[j].as_str(), w, "  ", LineStyle::Body);
        proof {
            assert(lv.take(j + 1).drop_last() =~= lv.take(j as int));
            assert(line_views(out@) =~= start + body_lines(lv.take(j + 1), w as nat));
        }
    }
    assert(lv.take(n as int) =~= lv);
}

fn push_call_lines(out: &mut Vec<ScreenLine>, pending: &ToolCallTable, calls: &Vec<ToolCall>, w: usize)
    ensures
        line_views(final(out)@) == line_views(old(out)@) + call_lines(pending@, calls@, w as nat),
{
    let ghost start = line_views(out@);
    let n = calls.len();
    assert(start =~= start + call_lines(pending@, calls@.take(0), w as nat));
    for j in 0..n
        invariant
            n == calls@.len(),
            line_views(out@) == start + call_lines(pending@, calls@.take(j as int), w as nat),
    {
        let tc = &calls[j];
        let mut line = owned("  [");
        push_all(&mut line, mark_text(pending, tc.id.as_str()));
        push_all(&mut line, "] ");
        push_all(&mut line, tc.function.name.as_str());
        push_all(&mut line, "(");
        push_all(&mut line, tc.function.arguments.as_str());
        push_all(&mut line, ")");
        push_wrapped(out, line.as_str(), w, "    ", LineStyle::ToolCall);
        proof {
            assert(calls@.take(j + 1).drop_last() =~= calls@.take(j as int));
            assert(line@ =~= call_text(pending@, calls@[j as int]));
            assert(line_views(out@) =~= start + call_lines(pending@, calls@.take(j + 1), w as nat));
        }
    }
    assert(calls@.take(n as int) =~= calls@);
}

fn push_message_block(out: &mut Vec<ScreenLine>, tab: &Tab, k: usize, w: usize)
    requires
        k < tab.messages@.len(),
    ensures
        line_views(final(out)@) == line_views(old(out)@) + message_block(
            tab.messages@[k as int],
            k == tab.messages@.len() - 1,
            tab.thinking_ticks,
            tab.pending_tool_calls@,
            w as nat,
        ),
{
    let msg = &tab.messages[k];
    let is_last = k == tab.messages.len() - 1;
    let ghost start = line_views(out@);
    if is_last && msg.role == Role::Assistant && msg.content.as_str().is_empty() {
        let ghost p0 = out@;
        out.push(ScreenLine { text: thinking_text(tab.thinking_ticks), style: LineStyle::Thinking });
        let ghost p1 = out@;
        out.push(ScreenLine { text: String::new(), style: LineStyle::Blank });
        proof {
            lemma_line_views_push(p0, p1.last());
            lemma_line_views_push(p1, out@.last());
            assert(p1 == p0.push(p1.last()));
            assert(out@ == p1.push(out@.last()));
        }
        assert(line_views(out@) =~= start + message_block(
            tab.messages@[k as int],
            k == tab.messages@.len() - 1,
            tab.thinking_ticks,
            tab.pending_tool_calls@,
            w as nat,
        ));
        return;
    }
    let ghost prev0 = out@;
    out.push(ScreenLine { text: owned(label_text(msg.role)), style: LineStyle::Label(msg.role) });
    proof {
        lemma_line_views_push(prev0, out@.last());
        assert(out@ == prev0.push(out@.last()));
    }
    let ghost after_label = line_views(out@);
    if !msg.content.as_str().is_empty() {
        push_body_lines(out, msg.content.as_str(), w);
    } else {
        assert(after_label =~= after_label + Seq::<(Seq<char>, LineStyle)>::empty());
    }
    let ghost after_body = line_views(out@);
    match &msg.tool_calls {
        Some(tcs) => {
            push_call_lines(out, &tab.pending_tool_calls, tcs, w);
        },
        None => {
            assert(after_body =~= after_body + call_lines(tab.pending_tool_calls@, calls_of(*msg), w as nat));
        },
    }
    let ghost prev1 = out@;
    out.push(ScreenLine { text: String::new(), style: LineStyle::Blank });
    proof {
        lemma_line_views_push(prev1, out@.last());
        assert(out@ == prev1.push(out@.last()));
    }
    assert(line_views(out@) =~= start + message_block(
        tab.messages@[k as int],
        k == tab.messages@.len() - 1,
        tab.thinking_ticks,
        tab.pending_tool_calls@,
        w as nat,
    ));
}

/// All lines of a tab's message list at `max_width` columns.
pub fn message_lines(tab: &Tab, max_width: usize) -> (r: Vec<ScreenLine>)
    ensures
        line_views(r@) == tab_lines(*tab, tab.messages@.len() as int, max_width as nat),
{
    let mut out: Vec<ScreenLine> = Vec::new();
    let n = tab.messages.len();
    assert(line_views(out@) =~= tab_lines(*tab, 0, max_width as nat));
    for k in 0..n
        invariant
            n == tab.messages@.len(),
            line_views(out@) == tab_lines(*tab, k as int, max_width as nat),
    {
        push_message_block(&mut out, tab, k, max_width);
    }
    out
}


/// The first line shown of a list of `total` lines in a window of
/// `visible`: the end of the list when following the newest message and the
/// list overflows the window; otherwise the scroll offset, kept within the
/// list.
pub open spec fn scroll_start(total: nat, visible: nat, auto_scroll: bool, offset: nat) -> nat {
    let max_offset: nat = if total > visible {
        (total - visible) as nat
    } else {
        0
    };
    if auto_scroll && total > visible {
        max_offset
    } else if offset < max_offset {
        offset
    } else {
        max_offset
    }
}

/// The index of the first line shown in the message window.
pub fn visible_start(total: usize, visible: usize, auto_scroll: bool, scroll_offset: usize) -> (r: usize)
    ensures
        r == scroll_start(total as nat, visible as nat, auto_scroll, scroll_offset as nat),
        r <= total,
        total > visible ==> r + visible <= total,
        total <= visible ==> r == 0,
        auto_scroll && total > visible ==> r + visible == total,
{
    let max_offset = if total > visible {
        total - visible
    } else {
        0
    };
    if auto_scroll && total > visible {
        max_offset
    } else if scroll_offset < max_offset {
        scroll_offset
    } else {
        max_offset
    }
}

/// What `UnicodeWidthStr::width` returns for a text: its display width in
/// columns.
pub uninterp spec fn str_width(s: Seq<char>) -> nat;

/// Calls `unicode_width::UnicodeWidthStr::width`. Trusted: the result is
/// `str_width` of the text; the width tables are left unstated.
#[verifier::external_body]
fn display_width(s: &str) -> (w: usize)
    ensures
        w == str_width(s@),
{
    unicode_width::UnicodeWidthStr::width(s)
}

/// The right part of the status bar: model, theme, and the active tab's
/// position among the tabs.
pub open spec fn status_right(model: Seq<char>, theme: Seq<char>, active: nat, n: nat) -> Seq<char> {
    " 模型: "@ + model + " | 主题: "@ + theme + " | Tab "@ + decimal(active + 1) + "/"@ + decimal(n)
        + " "@
}

/// The status bar of a window `width` columns wide: the status message
/// with a space on each side, the spaces that fill the bar (none when the
/// texts, each counted two columns wider, do not fit), and the right part.
pub open spec fn status_bar_spec(app: App, width: nat, r: (String, usize, String)) -> bool {
    let right = status_right(
        app.tabs@[app.active_tab as int].model@,
        app.theme@,
        app.active_tab as nat,
        app.tabs@.len(),
    );
    let used = str_width(app.status_message@) + 2 + str_width(right) + 2;
    &&& r.0@ == " "@ + app.status_message@ + " "@
    &&& r.1 == (if width > used {
        (width - used) as nat
    } else {
        0
    })
    &&& r.2@ == right
}

/// The status bar texts of a window `width` columns wide.
pub fn status_bar(app: &App, width: u16) -> (r: (String, usize, String))
    requires
        app.wf(),
    ensures
        status_bar_spec(*app, width as nat, r),
{
    let mut left = owned(" ");
    push_all(&mut left, app.status_message.as_str());
    push_all(&mut left, " ");
    let mut right = owned(" 模型: ");
    push_all(&mut right, app.tabs[app.active_tab].model.as_str());
    push_all(&mut right, " | 主题: ");
    push_all(&mut right, app.theme.as_str());
    push_all(&mut right, " | Tab ");
    assert(app.active_tab < app.tabs.len());
    push_decimal(&mut right, (app.active_tab + 1) as u64);
    push_all(&mut right, "/");
    push_decimal(&mut right, app.tabs.len() as u64);
    push_all(&mut right, " ");
    let lw = display_width(app.status_message.as_str()) as u128 + 2;
    let rw = display_width(right.as_str()) as u128 + 2;
    let used = lw + rw;
    let padding: usize = if (width as u128) > used {
        (width as u128 - used) as usize
    } else {
        0
    };
    (left, padding, right)
}

/// The commands the palette lists, with their descriptions.
pub open spec fn palette_commands() -> Seq<(Seq<char>, Seq<char>)> {
    seq![
        ("/model"@, "切换模型  —  /model deepseek-v4-pro"@),
        ("/theme"@, "切换主题  —  /theme dracula|gruvbox|nord|monokai|tokyo-night|catppuccin|one-dark|everforest|daylight"@),
        ("/agent"@, "切换智能体  —  /agent 哪吒"@),
        ("/save"@, "保存当前对话到记忆库"@),
        ("/load"@, "从记忆库加载对话  —  /load <id>"@),
        ("/history"@, "列出已保存的对话"@),
        ("/new"@, "新建标签页"@),
        ("/close"@, "关闭当前标签页"@),
        ("Ctrl+N"@, "新建标签页 (快捷键)"@),
        ("Ctrl+B"@, "折叠侧边栏 (快捷键)"@),
        ("Ctrl+K"@, "切换命令面板 (快捷键)"@),
        ("Ctrl+1/2/3"@, "侧边栏切换 Agent (快捷键)"@),
        ("Ctrl+Tab"@, "循环切换下一个 Agent"@),
    ]
}

fn palette_command_list() -> (r: Vec<(&'static str, &'static str)>)
    ensures
        r@.len() == palette_commands().len(),
        forall|i: int| 0 <= i < r@.len() ==> (#[trigger] r@[i]).0@ == palette_commands()[i].0 && r@[i].1@
            == palette_commands()[i].1,
{
    let mut r: Vec<(&'static str, &'static str)> = Vec::new();
    r.push(("/model", "切换模型  —  /model deepseek-v4-pro"));
    r.push(("/theme", "切换主题  —  /theme dracula|gruvbox|nord|monokai|tokyo-night|catppuccin|one-dark|everforest|daylight"));
    r.push(("/agent", "切换智能体  —  /agent 哪吒"));
    r.push(("/save", "保存当前对话到记忆库"));
    r.push(("/load", "从记忆库加载对话  —  /load <id>"));
    r.push(("/history", "列出已保存的对话"));
    r.push(("/new", "新建标签页"));
    r.push(("/close", "关闭当前标签页"));
    r.push(("Ctrl+N", "新建标签页 (快捷键)"));
    r.push(("Ctrl+B", "折叠侧边栏 (快捷键)"));
    r.push(("Ctrl+K", "切换命令面板 (快捷键)"));
    r.push(("Ctrl+1/2/3", "侧边栏切换 Agent (快捷键)"));
    r.push(("Ctrl+Tab", "循环切换下一个 Agent"));
    r
}

/// `needle` occurs in `hay`.
pub open spec fn contains_text(hay: Seq<char>, needle: Seq<char>) -> bool {
    exists|i: int| 0 <= i <= hay.len() - needle.len() && #[trigger] hay.subrange(i, i + needle.len()) == needle
}

fn contains_exec(hay: &str, needle: &str) -> (b: bool)
    ensures
        b == contains_text(hay@, needle@),
{
    let h = chars_of(hay);
    let n = chars_of(needle);
    if n.len() > h.len() {
        return false;
    }
    if n.len() == 0 {
        assert(hay@.subrange(0int, 0int + needle@.len()) =~= needle@);
        return true;
    }
    let last = h.len() - n.len();
    let mut i: usize = 0;
    while i <= last
        invariant
            h@ == hay@,
            n@ == needle@,
            last == h@.len() - n@.len(),
            n@.len() > 0,
            h@.len() == h.len(),
            i <= last + 1,
            forall|j: int| 0 <= j < i ==> #[trigger] h@.subrange(j, j + n@.len()) != n@,
        decreases last + 1 - i,
    {
        let mut k: usize = 0;
        let mut same = true;
        while k < n.len()
            invariant
                h@ == hay@,
                n@ == needle@,
                i <= last,
                last == h@.len() - n@.len(),
                h@.len() == h.len(),
                k <= n@.len(),
                same == (forall|q: int| 0 <= q < k ==> h@[i + q] == n@[q]),
            decreases n@.len() - k,
        {
            if h[i + k] != n[k] {
                same = false;
            }
            k = k + 1;
        }
        if same {
            assert(hay@.subrange(i as int, i + needle@.len()) =~= needle@);
            return true;
        }
        assert(h@.subrange(i as int, i + n@.len()) != n@) by {
            let q = choose|q: int| 0 <= q < n@.len() && h@[i + q] != n@[q];
            assert(h@.subrange(i as int, i + n@.len())[q] != n@[q]);
        }
        i = i + 1;
    }
    false
}

/// A command is listed for a lowercase filter when the filter is empty or
/// occurs in the lowercase text "command description".
pub open spec fn command_shown(c: (Seq<char>, Seq<char>), filter: Seq<char>) -> bool {
    filter.len() == 0 || contains_text(lowercase(c.0 + " "@ + c.1), filter)
}

/// The commands listed for palette input `input`, in order.
pub open spec fn shown_commands(input: Seq<char>) -> Seq<(Seq<char>, Seq<char>)> {
    palette_commands().filter(|c: (Seq<char>, Seq<char>)| command_shown(c, lowercase(input)))
}

/// The commands the palette lists for its input, matched without regard
/// to case.
pub fn filter_commands(input: &str) -> (r: Vec<(&'static str, &'static str)>)
    ensures
        r@.len() == shown_commands(input@).len(),
        forall|i: int| 0 <= i < r@.len() ==> (#[trigger] r@[i]).0@ == shown_commands(input@)[i].0 && r@[i].1@
            == shown_commands(input@)[i].1,
{
    let all = palette_command_list();
    let filter = to_lowercase(input);
    let ghost cmds = palette_commands();
    let ghost f = lowercase(input@);
    let ghost pred = |c: (Seq<char>, Seq<char>)| command_shown(c, f);
    let mut r: Vec<(&'static str, &'static str)> = Vec::new();
    let n = all.len();
    for i in 0..n
        invariant
            n == all@.len() == cmds.len(),
            cmds == palette_commands(),
            filter@ == f,
            pred == (|c: (Seq<char>, Seq<char>)| command_shown(c, f)),
            forall|j: int| 0 <= j < n ==> (#[trigger] all@[j]).0@ == cmds[j].0 && all@[j].1@ == cmds[j].1,
            r@.len() == cmds.take(i as int).filter(pred).len(),
            forall|j: int| 0 <= j < r@.len() ==> (#[trigger] r@[j]).0@ == cmds.take(i as int).filter(pred)[j].0
                && r@[j].1@ == cmds.take(i as int).filter(pred)[j].1,
    {
        let (cmd, desc) = all[i];
        let mut combined = owned(cmd);
        push_all(&mut combined, " ");
        push_all(&mut combined, desc);
        let lower = to_lowercase(combined.as_str());
        let keep = filter.as_str().is_empty() || contains_exec(lower.as_str(), filter.as_str());
        proof {
            assert(cmds.take(i + 1).drop_last() =~= cmds.take(i as int));
            assert(cmds.take(i + 1).last() == cmds[i as int]);
            reveal(Seq::filter);
            assert(cmds.take(i + 1) =~= cmds.take(i as int).push(cmds[i as int]));
            assert(keep == pred(cmds[i as int]));
        }
        if keep {
            r.push((cmd, desc));
        }
    }
    assert(cmds.take(n as int) =~= cmds);
    r
}

/// A row of the command palette's list.
#[derive(Debug, Clone, PartialEq, Eq)]
pub enum PaletteRow {
    /// A listed command: its name after a space, and its description.
    Command { name: String, description: String },
    /// The single row shown when no command matches.
    NoMatch(String),
}

/// The row shown when no command matches the palette input.
pub open spec fn no_match_text() -> Seq<char> {
    " 无匹配命令"@
}

/// The palette's input line: a prompt before the input.
pub open spec fn palette_input_line(input: Seq<char>) -> Seq<char> {
    "> "@ + input
}

/// `rows` is the palette list for `input`: one row per command listed, in
/// order, or the single no-match row when none is.
pub open spec fn palette_rows_for(input: Seq<char>, rows: Seq<PaletteRow>) -> bool {
    let shown = shown_commands(input);
    if shown.len() == 0 {
        rows.len() == 1 && (rows[0] matches PaletteRow::NoMatch(t) && t@ == no_match_text())
    } else {
        &&& rows.len() == shown.len()
        &&& forall|i: int|
            0 <= i < rows.len() ==> (#[trigger] rows[i] matches PaletteRow::Command { name, description }
                && name@ == " "@ + shown[i].0 && description@ == shown[i].1)
    }
}

/// What the command palette draws for its input: the input line, then the
/// list of matching commands or the no-match row.
pub fn palette_view(input: &str) -> (r: (String, Vec<PaletteRow>))
    ensures
        r.0@ == palette_input_line(input@),
        palette_rows_for(input@, r.1@),
{
    let line = concat("> ", input);
    let cmds = filter_commands(input);
    let mut rows: Vec<PaletteRow> = Vec::new();
    if cmds.len() == 0 {
        rows.push(PaletteRow::NoMatch(owned(" 无匹配命令")));
        return (line, rows);
    }
    let n = cmds.len();
    let ghost shown = shown_commands(input@);
    for i in 0..n
        invariant
            n == cmds@.len() == shown.len(),
            shown == shown_commands(input@),
            forall|j: int| 0 <= j < n ==> (#[trigger] cmds@[j]).0@ == shown[j].0 && cmds@[j].1@ == shown[j].1,
            rows@.len() == i,
            forall|j: int|
                0 <= j < i ==> (#[trigger] rows@[j] matches PaletteRow::Command { name, description }
                    && name@ == " "@ + shown[j].0 && description@ == shown[j].1),
    {
        let (cmd, desc) = cmds[i];
        rows.push(PaletteRow::Command { name: concat(" ", cmd), description: owned(desc) });
    }
    (line, rows)
}

/// The label of a tab in the tab bar: its title with a space on each side.
pub open spec fn tab_label(t: Tab) -> Seq<char> {
    " "@ + t.title@ + " "@
}

/// The tab bar: each tab's label, and whether it is the active tab.
pub fn tab_labels(app: &App) -> (r: Vec<(String, bool)>)
    ensures
        r@.len() == app.tabs@.len(),
        forall|i: int| 0 <= i < r@.len() ==> (#[trigger] r@[i]).0@ == tab_label(app.tabs@[i]) && r@[i].1 == (i
            == app.active_tab),
{
    let mut r: Vec<(String, bool)> = Vec::new();
    let n = app.tabs.len();
    for i in 0..n
        invariant
            n == app.tabs@.len(),
            r@.len() == i,
            forall|j: int| 0 <= j < i ==> (#[trigger] r@[j]).0@ == tab_label(app.tabs@[j]) && r@[j].1 == (j
                == app.active_tab),
    {
        let mut label = owned(" ");
        push_all(&mut label, app.tabs[i].title.as_str());
        push_all(&mut label, " ");
        r.push((label, i == app.active_tab));
    }
    r
}

/// A line of the agent list: a marker for the active tab's agent, the
/// agent's position from one otherwise, then its name.
pub open spec fn agent_line(name: Seq<char>, index: nat, active: bool) -> Seq<char> {
    "  "@ + (if active {
        "▶"@
    } else {
        decimal(index + 1)
    }) + " "@ + name
}

/// The agent list of the sidebar: each agent's line, and whether it is the
/// active tab's agent.
pub fn agent_lines(app: &App) -> (r: Vec<(String, bool)>)
    requires
        app.wf(),
    ensures
        r@.len() == app.agents@.len(),
        forall|i: int| 0 <= i < r@.len() ==> {
            let active = app.agents@[i].name@ == app.tabs@[app.active_tab as int].agent_name@;
            &&& (#[trigger] r@[i]).1 == active
            &&& r@[i].0@ == agent_line(app.agents@[i].name@, i as nat, active)
        },
{
    let current = app.tabs[app.active_tab].agent_name.as_str();
    let mut r: Vec<(String, bool)> = Vec::new();
    let n = app.agents.len();
    for i in 0..n
        invariant
            n == app.agents@.len(),
            current@ == app.tabs@[app.active_tab as int].agent_name@,
            r@.len() == i,
            forall|j: int| 0 <= j < i ==> {
                let active = app.agents@[j].name@ == current@;
                &&& (#[trigger] r@[j]).1 == active
                &&& r@[j].0@ == agent_line(app.agents@[j].name@, j as nat, active)
            },
    {
        let name = app.agents[i].name.as_str();
        let active = str_eq(name, current);
        let mut line = owned("  ");
        if active {
            push_all(&mut line, "▶");
        } else {
            push_decimal(&mut line, i as u64 + 1);
        }
        push_all(&mut line, " ");
        push_all(&mut line, name);
        r.push((line, active));
    }
    r
}


/// The token lines of the sidebar: prompt, completion and total counts.
pub open spec fn usage_texts(u: Usage) -> Seq<Seq<char>> {
    seq![
        "  提示: "@ + decimal(u.prompt_tokens as nat),
        "  生成: "@ + decimal(u.completion_tokens as nat),
        "  总计: "@ + decimal(u.total_tokens as nat),
    ]
}

/// The token lines of the sidebar for a tab's usage.
pub fn usage_lines(u: &Usage) -> (r: Vec<String>)
    ensures
        r@.len() == 3,
        forall|i: int| 0 <= i < 3 ==> #[trigger] r@[i]@ == usage_texts(*u)[i],
{
    let mut a = owned("  提示: ");
    push_decimal(&mut a, u.prompt_tokens);
    let mut b = owned("  生成: ");
    push_decimal(&mut b, u.completion_tokens);
    let mut c = owned("  总计: ");
    push_decimal(&mut c, u.total_tokens);
    let mut r: Vec<String> = Vec::new();
    r.push(a);
    r.push(b);
    r.push(c);
    r
}

} // verus!
