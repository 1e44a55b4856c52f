//! The DeepSeek chat client: its configuration, the request it builds, and
//! the decoding of the server-sent event stream it receives.

use vstd::prelude::*;
use crate::action::Action;
use crate::api::types::{PendingToolCall, StreamChoice, StreamResponse, StreamToolCallDelta, Usage};
use crate::app::has_prefix;
use crate::text::{starts_with, chars_of, lines, owned, push_all, split_lines, str_eq, string_from_range, trim, trimmed};

verus! {

/// Connection settings of the client.
#[derive(Debug, Clone)]
pub struct DeepSeekConfig {
    pub api_base: String,
    pub api_key: String,
    pub model: String,
}

/// The chat client. It holds the settings from which every request is built;
/// the HTTP transport itself belongs to the program that drives the library.
#[derive(Debug, Clone)]
pub struct DeepSeekClient {
    config: DeepSeekConfig,
}

impl DeepSeekClient {
    /// The model that requests use.
    pub closed spec fn model_spec(&self) -> Seq<char> {
        self.config.model@
    }

    /// The API key sent with requests.
    pub closed spec fn api_key_spec(&self) -> Seq<char> {
        self.config.api_key@
    }

    /// The base URL of the API.
    pub closed spec fn api_base_spec(&self) -> Seq<char> {
        self.config.api_base@
    }

    /// A client with the given settings.
    pub fn new(config: DeepSeekConfig) -> (c: DeepSeekClient)
        ensures
            c.model_spec() == config.model@,
            c.api_key_spec() == config.api_key@,
            c.api_base_spec() == config.api_base@,
    {
        DeepSeekClient { config }
    }

    /// The model that requests use.
    pub fn model(&self) -> (s: &str)
        ensures
            s@ == self.model_spec(),
    {
        self.config.model.as_str()
    }

    /// Replaces the model; the other settings stay.
    pub fn set_model(&mut self, model: String)
        ensures
            final(self).model_spec() == model@,
            final(self).api_key_spec() == old(self).api_key_spec(),
            final(self).api_base_spec() == old(self).api_base_spec(),
    {
        self.config.model = model;
    }

    /// The API key sent with requests.
    pub fn api_key(&self) -> (s: &str)
        ensures
            s@ == self.api_key_spec(),
    {
        self.config.api_key.as_str()
    }

    /// The base URL of the API.
    pub fn api_base(&self) -> (s: &str)
        ensures
            s@ == self.api_base_spec(),
    {
        self.config.api_base.as_str()
    }
}


/// What parsing a text as JSON and writing the value back gives: the
/// compact form of the value, or `null` when the text is not JSON.
pub uninterp spec fn json_normalized(text: Seq<char>) -> Seq<char>;

/// Parses `text` with `serde_json::from_str` into a `serde_json::Value`,
/// taking `Value::Null` when parsing fails, and writes the value back with
/// `serde_json::to_string`. Trusted: the result is `json_normalized` of the
/// text; the JSON grammar and the writer's layout are left unstated.
#[verifier::external_body]
fn normalize_json(text: &str) -> (r: String)
    ensures
        r@ == json_normalized(text@),
{
    let v: serde_json::Value = serde_json::from_str(text).unwrap_or(serde_json::Value::Null);
    serde_json::to_string(&v).unwrap_or_default()
}

/// A tool call being assembled, by its text: identifier, name, arguments.
pub open spec fn pending_view(p: PendingToolCall) -> (Seq<char>, Seq<char>, Seq<char>) {
    (p.id@, p.name@, p.arguments@)
}

/// The texts of a list of pending tool calls.
pub open spec fn pending_views(s: Seq<PendingToolCall>) -> Seq<(Seq<char>, Seq<char>, Seq<char>)> {
    s.map_values(|p: PendingToolCall| pending_view(p))
}

/// The text of an optional fragment; empty when absent.
pub open spec fn opt_text(o: Option<String>) -> Seq<char> {
    match o {
        Some(s) => s@,
        None => Seq::empty(),
    }
}

/// `s` padded with empty calls up to length `n`.
pub open spec fn grow(s: Seq<(Seq<char>, Seq<char>, Seq<char>)>, n: nat) -> Seq<(Seq<char>, Seq<char>, Seq<char>)> {
    if s.len() >= n {
        s
    } else {
        s + Seq::new((n - s.len()) as nat, |i: int| (Seq::<char>::empty(), Seq::<char>::empty(), Seq::<char>::empty()))
    }
}

/// A call after one fragment: a new identifier replaces the old one; name
/// and argument fragments are appended.
pub open spec fn merge_delta(e: (Seq<char>, Seq<char>, Seq<char>), d: StreamToolCallDelta) -> (Seq<char>, Seq<char>, Seq<char>) {
    let id = match d.id {
        Some(i) => i@,
        None => e.0,
    };
    match d.function {
        Some(f) => (id, e.1 + opt_text(f.name), e.2 + opt_text(f.arguments)),
        None => (id, e.1, e.2),
    }
}

/// The calls after fragment `d`, which addresses call `d.index`.
pub open spec fn apply_delta_view(s: Seq<(Seq<char>, Seq<char>, Seq<char>)>, d: StreamToolCallDelta) -> Seq<(Seq<char>, Seq<char>, Seq<char>)> {
    let g = grow(s, (d.index + 1) as nat);
    g.update(d.index as int, merge_delta(g[d.index as int], d))
}

/// A call with an identifier, a name and arguments can be requested.
pub open spec fn is_complete(e: (Seq<char>, Seq<char>, Seq<char>)) -> bool {
    e.0.len() > 0 && e.1.len() > 0 && e.2.len() > 0
}

/// `a` requests, for tab `tab_id`, the call `e` with its arguments
/// normalized as JSON.
pub open spec fn is_tool_request(a: Action, tab_id: usize, e: (Seq<char>, Seq<char>, Seq<char>)) -> bool {
    match a {
        Action::ToolCallRequest { tab_id: t, call_id, name, args } => t == tab_id && call_id@ == e.0
            && name@ == e.1 && args@ == json_normalized(e.2),
        _ => false,
    }
}

/// Accumulates a streamed tool-call fragment into `pending`, creating empty
/// calls up to its index. When the addressed call then has an identifier,
/// a name and arguments, returns the request for it.
pub fn apply_tool_call_delta(tab_id: usize, pending: &mut Vec<PendingToolCall>, delta: &StreamToolCallDelta) -> (r: Option<Action>)
    requires
        delta.index < usize::MAX,
    ensures
        pending_views(final(pending)@) == apply_delta_view(pending_views(old(pending)@), *delta),
        ({
            let e = pending_views(final(pending)@)[delta.index as int];
            match r {
                Some(a) => is_complete(e) && is_tool_request(a, tab_id, e),
                None => !is_complete(e),
            }
        }),
{
    let ghost old_v = pending_views(pending@);
    while pending.len() <= delta.index
        invariant
            delta.index < usize::MAX,
            pending@.len() >= old_v.len(),
            pending@.len() == old_v.len() || pending@.len() <= delta.index + 1,
            pending_views(pending@) == grow(old_v, pending@.len()),
        decreases delta.index + 1 - pending@.len(),
    {
        let ghost before = pending_views(pending@);
        pending.push(PendingToolCall::new(String::new()));
        assert(pending_views(pending@) =~= grow(old_v, pending@.len())) by {
            assert(pending_views(pending@) =~= before.push((Seq::<char>::empty(), Seq::<char>::empty(), Seq::<char>::empty())));
        }
    }
    let i = delta.index;
    let ghost g = pending_views(pending@);
    assert(g =~= grow(old_v, (i + 1) as nat));
    match &delta.id {
        Some(id) => {
            pending[i].id = id.clone();
        },
        None => {},
    }
    match &delta.function {
        Some(func) => {
            match &func.name {
                Some(name) => {
                    push_all(&mut pending[i].name, name.as_str());
                },
                None => {
                    assert(pending@[i as int].name@ =~= pending@[i as int].name@ + Seq::<char>::empty());
                },
            }
            match &func.arguments {
                Some(args) => {
                    push_all(&mut pending[i].arguments, args.as_str());
                },
                None => {
                    assert(pending@[i as int].arguments@ =~= pending@[i as int].arguments@ + Seq::<char>::empty());
                },
            }
        },
        None => {},
    }
    assert(pending_views(pending@) =~= g.update(i as int, merge_delta(g[i as int], *delta)));
    let entry = &pending[i];
    if !entry.name.as_str().is_empty() && !entry.id.as_str().is_empty() && !entry.arguments.as_str().is_empty() {
        Some(Action::ToolCallRequest {
            tab_id,
            call_id: entry.id.clone(),
            name: entry.name.clone(),
            args: normalize_json(entry.arguments.as_str()),
        })
    } else {
        None
    }
}


/// What the stream reports to the application, by its text.
pub enum StreamEventView {
    /// A piece of the answer.
    Chunk(Seq<char>),
    /// A complete tool call: identifier, name, arguments.
    Call((Seq<char>, Seq<char>, Seq<char>)),
}

/// The calls after the fragments `ds`, in order.
pub open spec fn deltas_apply(s: Seq<(Seq<char>, Seq<char>, Seq<char>)>, ds: Seq<StreamToolCallDelta>) -> Seq<(Seq<char>, Seq<char>, Seq<char>)>
    decreases ds.len(),
{
    if ds.len() == 0 {
        s
    } else {
        apply_delta_view(deltas_apply(s, ds.drop_last()), ds.last())
    }
}

/// The calls that the fragments `ds` complete, one after each fragment that
/// leaves its call complete.
pub open spec fn deltas_events(s: Seq<(Seq<char>, Seq<char>, Seq<char>)>, ds: Seq<StreamToolCallDelta>) -> Seq<(Seq<char>, Seq<char>, Seq<char>)>
    decreases ds.len(),
{
    if ds.len() == 0 {
        Seq::empty()
    } else {
        let after = deltas_apply(s, ds);
        let prev = deltas_events(s, ds.drop_last());
        let e = after[ds.last().index as int];
        if is_complete(e) {
            prev.push(e)
        } else {
            prev
        }
    }
}

/// The calls after one streamed choice.
pub open spec fn choice_pending(s: Seq<(Seq<char>, Seq<char>, Seq<char>)>, c: StreamChoice) -> Seq<(Seq<char>, Seq<char>, Seq<char>)> {
    match c.delta.tool_calls {
        Some(ds) => deltas_apply(s, ds@),
        None => s,
    }
}

/// What one streamed choice reports: its text, then the calls it completes.
pub open spec fn choice_events(s: Seq<(Seq<char>, Seq<char>, Seq<char>)>, c: StreamChoice) -> Seq<StreamEventView> {
    let chunk = match c.delta.content {
        Some(t) => seq![StreamEventView::Chunk(t@)],
        None => Seq::empty(),
    };
    let calls = match c.delta.tool_calls {
        Some(ds) => deltas_events(s, ds@).map_values(|e: (Seq<char>, Seq<char>, Seq<char>)| StreamEventView::Call(e)),
        None => Seq::empty(),
    };
    chunk + calls
}

/// `a` is the action reporting `ev` for message `message_id` of tab
/// `tab_id`.
pub open spec fn is_event_action(a: Action, ev: StreamEventView, tab_id: usize, message_id: u128) -> bool {
    match ev {
        StreamEventView::Chunk(t) => match a {
            Action::StreamChunk { tab_id: at, message_id: am, chunk } => at == tab_id && am == message_id
                && chunk@ == t,
            _ => false,
        },
        StreamEventView::Call(e) => is_tool_request(a, tab_id, e),
    }
}

/// The actions report the events, one for one, in order.
pub open spec fn actions_report(acts: Seq<Action>, evs: Seq<StreamEventView>, tab_id: usize, message_id: u128) -> bool {
    acts.len() == evs.len() && forall|i: int| 0 <= i < acts.len() ==> is_event_action(#[trigger] acts[i], evs[i], tab_id, message_id)
}

/// Every fragment of the choice addresses a call index below the largest.
pub open spec fn choice_indices_bounded(c: StreamChoice) -> bool {
    match c.delta.tool_calls {
        Some(ds) => forall|i: int| 0 <= i < ds@.len() ==> #[trigger] ds@[i].index < usize::MAX,
        None => true,
    }
}

/// Handles one streamed choice: its text is appended to the answer and
/// reported, then its tool-call fragments are accumulated and every call
/// they complete is requested.
pub fn process_stream_choice(
    tab_id: usize,
    message_id: u128,
    choice: &StreamChoice,
    content_buffer: &mut String,
    pending_tool_calls: &mut Vec<PendingToolCall>,
) -> (r: Vec<Action>)
    requires
        choice_indices_bounded(*choice),
    ensures
        final(content_buffer)@ == old(content_buffer)@ + opt_text(choice.delta.content),
        pending_views(final(pending_tool_calls)@) == choice_pending(pending_views(old(pending_tool_calls)@), *choice),
        actions_report(r@, choice_events(pending_views(old(pending_tool_calls)@), *choice), tab_id, message_id),
{
    let ghost s0 = pending_views(pending_tool_calls@);
    let mut actions: Vec<Action> = Vec::new();
    match &choice.delta.content {
        Some(content) => {
            push_all(content_buffer, content.as_str());
            actions.push(Action::StreamChunk { tab_id, message_id, chunk: content.clone() });
        },
        None => {
            assert(content_buffer@ =~= content_buffer@ + Seq::<char>::empty());
        },
    }
    let ghost chunk_evs = choice_events(s0, *choice).take(
        if choice.delta.content is Some {
            1int
        } else {
            0int
        },
    );
    assert(actions_report(actions@, chunk_evs, tab_id, message_id));
    match &choice.delta.tool_calls {
        Some(deltas) => {
            let n = deltas.len();
            let base = actions.len();
            for k in 0..n
                invariant
                    n == deltas@.len(),
                    base == chunk_evs.len(),
                    forall|i: int| 0 <= i < deltas@.len() ==> #[trigger] deltas@[i].index < usize::MAX,
                    pending_views(pending_tool_calls@) == deltas_apply(s0, deltas@.take(k as int)),
                    actions_report(
                        actions@,
                        chunk_evs + deltas_events(s0, deltas@.take(k as int)).map_values(
                            |e: (Seq<char>, Seq<char>, Seq<char>)| StreamEventView::Call(e),
                        ),
                        tab_id,
                        message_id,
                    ),
            {
                let ghost prev_evs = chunk_evs + deltas_events(s0, deltas@.take(k as int)).map_values(
                    |e: (Seq<char>, Seq<char>, Seq<char>)| StreamEventView::Call(e),
                );
                assert(deltas@.take(k + 1).drop_last() =~= deltas@.take(k as int));
                assert(deltas@.take(k + 1).last() == deltas@[k as int]);
                let ev = apply_tool_call_delta(tab_id, pending_tool_calls, &deltas[k]);
                let ghost next_evs = chunk_evs + deltas_events(s0, deltas@.take(k + 1)).map_values(
                    |e: (Seq<char>, Seq<char>, Seq<char>)| StreamEventView::Call(e),
                );
                match ev {
                    Some(a) => {
                        actions.push(a);
                        assert(next_evs =~= prev_evs.push(StreamEventView::Call(pending_views(pending_tool_calls@)[deltas@[k as int].index as int])));
                    },
                    None => {
                        assert(next_evs =~= prev_evs);
                    },
                }
                assert(actions_report(actions@, next_evs, tab_id, message_id));
            }
            assert(deltas@.take(n as int) =~= deltas@);
        },
        None => {
            assert(chunk_evs + Seq::<StreamEventView>::empty() =~= chunk_evs);
        },
    }
    actions
}


/// The calls after a sequence of choices.
pub open spec fn choices_pending(s: Seq<(Seq<char>, Seq<char>, Seq<char>)>, cs: Seq<StreamChoice>) -> Seq<(Seq<char>, Seq<char>, Seq<char>)>
    decreases cs.len(),
{
    if cs.len() == 0 {
        s
    } else {
        choice_pending(choices_pending(s, cs.drop_last()), cs.last())
    }
}

/// What a sequence of choices reports, in order.
pub open spec fn choices_events(s: Seq<(Seq<char>, Seq<char>, Seq<char>)>, cs: Seq<StreamChoice>) -> Seq<StreamEventView>
    decreases cs.len(),
{
    if cs.len() == 0 {
        Seq::empty()
    } else {
        choices_events(s, cs.drop_last()) + choice_events(choices_pending(s, cs.drop_last()), cs.last())
    }
}

/// The text a sequence of choices adds to the answer.
pub open spec fn choices_text(cs: Seq<StreamChoice>) -> Seq<char>
    decreases cs.len(),
{
    if cs.len() == 0 {
        Seq::empty()
    } else {
        choices_text(cs.drop_last()) + opt_text(cs.last().delta.content)
    }
}

/// Every fragment of the response addresses a call index below the largest.
pub open spec fn response_indices_bounded(resp: StreamResponse) -> bool {
    forall|i: int| 0 <= i < resp.choices@.len() ==> choice_indices_bounded(#[trigger] resp.choices@[i])
}

/// Handles one decoded chunk of the stream: its usage, when present, is
/// kept, and its choices are handled in order.
pub fn absorb_stream_response(
    tab_id: usize,
    message_id: u128,
    response: &StreamResponse,
    content_buffer: &mut String,
    pending_tool_calls: &mut Vec<PendingToolCall>,
    final_usage: &mut Option<Usage>,
) -> (r: Vec<Action>)
    requires
        response_indices_bounded(*response),
    ensures
        *final(final_usage) == (if response.usage is Some {
            response.usage
        } else {
            *old(final_usage)
        }),
        final(content_buffer)@ == old(content_buffer)@ + choices_text(response.choices@),
        pending_views(final(pending_tool_calls)@) == choices_pending(pending_views(old(pending_tool_calls)@), response.choices@),
        actions_report(r@, choices_events(pending_views(old(pending_tool_calls)@), response.choices@), tab_id, message_id),
{
    match response.usage {
        Some(u) => {
            *final_usage = Some(u);
        },
        None => {},
    }
    let ghost s0 = pending_views(pending_tool_calls@);
    let ghost c0 = content_buffer@;
    let mut actions: Vec<Action> = Vec::new();
    let n = response.choices.len();
    for k in 0..n
        invariant
            n == response.choices@.len(),
            response_indices_bounded(*response),
            content_buffer@ == c0 + choices_text(response.choices@.take(k as int)),
            pending_views(pending_tool_calls@) == choices_pending(s0, response.choices@.take(k as int)),
            actions_report(actions@, choices_events(s0, response.choices@.take(k as int)), tab_id, message_id),
    {
        let ghost cs = response.choices@.take(k + 1);
        assert(cs.drop_last() =~= response.choices@.take(k as int));
        assert(cs.last() == response.choices@[k as int]);
        let ghost prev_actions = actions@;
        let more = process_stream_choice(tab_id, message_id, &response.choices[k], content_buffer, pending_tool_calls);
        let ghost more_v = more@;
        let mut more = more;
        actions.append(&mut more);
        proof {
            assert(actions@ =~= prev_actions + more_v);
            let evs = choices_events(s0, cs);
            let pe = choices_events(s0, response.choices@.take(k as int));
            assert(evs =~= pe + choice_events(choices_pending(s0, response.choices@.take(k as int)), response.choices@[k as int]));
            assert forall|i: int| 0 <= i < actions@.len() implies is_event_action(#[trigger] actions@[i], evs[i], tab_id, message_id) by {
                if i < prev_actions.len() {
                    assert(actions@[i] == prev_actions[i]);
                } else {
                    assert(actions@[i] == more_v[i - prev_actions.len()]);
                }
            }
            assert(content_buffer@ =~= c0 + choices_text(cs));
        }
    }
    assert(response.choices@.take(n as int) =~= response.choices@);
    actions
}

/// The data payload of one line of the event stream: the trimmed line
/// after "data: ", unless the line is blank or "data: [DONE]".
pub open spec fn sse_payload(line: Seq<char>) -> Option<Seq<char>> {
    let t = trim(line);
    if t.len() == 0 || t == "data: [DONE]"@ {
        None
    } else if has_prefix(t, "data: "@) {
        Some(t.subrange(6, t.len() as int))
    } else {
        None
    }
}

/// The payloads of a sequence of lines, in order.
pub open spec fn sse_payloads_of(ls: Seq<Seq<char>>) -> Seq<Seq<char>>
    decreases ls.len(),
{
    if ls.len() == 0 {
        Seq::empty()
    } else {
        let prev = sse_payloads_of(ls.drop_last());
        match sse_payload(ls.last()) {
            Some(p) => prev.push(p),
            None => prev,
        }
    }
}

/// The data payloads of the lines of one received chunk of the stream.
pub fn sse_payloads(chunk_text: &str) -> (r: Vec<String>)
    ensures
        r@.len() == sse_payloads_of(lines(chunk_text@)).len(),
        forall|i: int| 0 <= i < r@.len() ==> #[trigger] r@[i]@ == sse_payloads_of(lines(chunk_text@))[i],
{
    proof {
        reveal_strlit("data: ");
    }
    let ls = split_lines(chunk_text);
    let ghost lv = lines(chunk_text@);
    let mut r: Vec<String> = Vec::new();
    let n = ls.len();
    for k in 0..n
        invariant
            n == ls@.len() == lv.len(),
            lv == lines(chunk_text@),
            forall|i: int| 0 <= i < ls@.len() ==> #[trigger] ls@[i]@ == lv[i],
            r@.len() == sse_payloads_of(lv.take(k as int)).len(),
            forall|i: int| 0 <= i < r@.len() ==> #[trigger] r@[i]@ == sse_payloads_of(lv.take(k as int))[i],
    {
        assert(lv.take(k + 1).drop_last() =~= lv.take(k as int));
        assert(lv.take(k + 1).last() == lv[k as int]);
        proof {
            reveal_strlit("data: ");
        }
        let line = trimmed(ls[k].as_str());
        if line.as_str().is_empty() || str_eq(line.as_str(), "data: [DONE]") {
        } else if starts_with(line.as_str(), "data: ") {
            let v = chars_of(line.as_str());
            let data = string_from_range(v.as_slice(), 6, v.len());
            r.push(data);
        }
    }
    assert(lv.take(n as int) =~= lv);
    r
}

/// The payload of one line of the event stream (`sse_payload`).
pub fn line_payload(line: &str) -> (r: Option<String>)
    ensures
        match r {
            Some(p) => sse_payload(line@) == Some(p@),
            None => sse_payload(line@) is None,
        },
{
    proof {
        reveal_strlit("data: ");
    }
    let t = trimmed(line);
    if t.as_str().is_empty() || str_eq(t.as_str(), "data: [DONE]") {
        None
    } else if starts_with(t.as_str(), "data: ") {
        let v = chars_of(t.as_str());
        Some(string_from_range(v.as_slice(), 6, v.len()))
    } else {
        None
    }
}

/// The text of bytes read as UTF-8, each invalid sequence replaced by
/// U+FFFD, as `String::from_utf8_lossy` gives it.
pub uninterp spec fn utf8_lossy(b: Seq<u8>) -> Seq<char>;

/// `String::from_utf8_lossy`, owned. Trusted: the text is `utf8_lossy` of
/// the bytes, which the standard library defines by the bytes alone; what
/// that text is, is not stated here.
#[verifier::external_body]
fn decode_utf8_lossy(b: &[u8]) -> (s: String)
    ensures
        s@ == utf8_lossy(b@),
{
    String::from_utf8_lossy(b).into_owned()
}

/// Reading the bytes `b` after an unfinished line `tail`: each newline
/// ends the current line, any other byte extends it. The result is the
/// lines ended, without their newlines, and the unfinished line left.
pub open spec fn feed_bytes(tail: Seq<u8>, b: Seq<u8>) -> (Seq<Seq<u8>>, Seq<u8>)
    decreases b.len(),
{
    if b.len() == 0 {
        (Seq::empty(), tail)
    } else {
        let prev = feed_bytes(tail, b.drop_last());
        if b.last() == 10u8 {
            (prev.0.push(prev.1), Seq::empty())
        } else {
            (prev.0, prev.1.push(b.last()))
        }
    }
}

/// The texts of lines of bytes.
pub open spec fn line_texts(ls: Seq<Seq<u8>>) -> Seq<Seq<char>> {
    ls.map_values(|l: Seq<u8>| utf8_lossy(l))
}

/// The payloads of the lines that reading `b` after `tail` ends.
pub open spec fn fed_payloads(tail: Seq<u8>, b: Seq<u8>) -> Seq<Seq<char>> {
    sse_payloads_of(line_texts(feed_bytes(tail, b).0))
}

/// The views of a list of strings.
pub open spec fn string_views(v: Seq<String>) -> Seq<Seq<char>> {
    v.map_values(|s: String| s@)
}

/// Reads one received piece of the event stream. `carry` holds the bytes
/// of the line left unfinished by the pieces before; the payloads of the
/// lines this piece ends are returned, and `carry` keeps the new unfinished
/// line. A line is decoded only once it is whole, so neither a line nor a
/// character split between pieces is lost.
pub fn sse_feed(carry: &mut Vec<u8>, piece: &[u8]) -> (r: Vec<String>)
    ensures
        final(carry)@ == feed_bytes(old(carry)@, piece@).1,
        string_views(r@) == fed_payloads(old(carry)@, piece@),
{
    let ghost c0 = carry@;
    let mut r: Vec<String> = Vec::new();
    let n = piece.len();
    assert(piece@.take(0) =~= Seq::<u8>::empty());
    assert(string_views(r@) =~= Seq::<Seq<char>>::empty());
    for k in 0..n
        invariant
            n == piece@.len(),
            carry@ == feed_bytes(c0, piece@.take(k as int)).1,
            string_views(r@) == fed_payloads(c0, piece@.take(k as int)),
    {
        let b = piece[k];
        let ghost pk = piece@.take(k + 1);
        proof {
            assert(pk.drop_last() =~= piece@.take(k as int));
            assert(pk.last() == b);
        }
        if b == 10u8 {
            let text = decode_utf8_lossy(carry.as_slice());
            let ghost before = string_views(r@);
            let ghost ls = feed_bytes(c0, piece@.take(k as int)).0;
            proof {
                assert(line_texts(ls.push(carry@)) =~= line_texts(ls).push(utf8_lossy(carry@)));
                assert(line_texts(ls.push(carry@)).drop_last() =~= line_texts(ls));
            }
            match line_payload(text.as_str()) {
                Some(p) => {
                    r.push(p);
                    assert(string_views(r@) =~= before.push(p@));
                },
                None => {},
            }
            carry.clear();
            assert(carry@ =~= Seq::<u8>::empty());
        } else {
            carry.push(b);
        }
    }
    assert(piece@.take(n as int) =~= piece@);
    r
}

/// The payload of the line left unfinished when the stream ends, if any.
pub fn sse_finish(carry: &Vec<u8>) -> (r: Option<String>)
    ensures
        match r {
            Some(p) => carry@.len() > 0 && sse_payload(utf8_lossy(carry@)) == Some(p@),
            None => carry@.len() == 0 || sse_payload(utf8_lossy(carry@)) is None,
        },
{
    if carry.len() == 0 {
        return None;
    }
    let text = decode_utf8_lossy(carry.as_slice());
    line_payload(text.as_str())
}

/// The bytes of the pieces, in order.
pub open spec fn joined_bytes(pieces: Seq<Seq<u8>>) -> Seq<u8>
    decreases pieces.len(),
{
    if pieces.len() == 0 {
        Seq::empty()
    } else {
        joined_bytes(pieces.drop_last()) + pieces.last()
    }
}

/// Reading the pieces one after another from an empty line, each after the
/// line the one before left: the unfinished line left at the end, and the
/// payloads returned, in order.
pub open spec fn feed_pieces(pieces: Seq<Seq<u8>>) -> (Seq<u8>, Seq<Seq<char>>)
    decreases pieces.len(),
{
    if pieces.len() == 0 {
        (Seq::empty(), Seq::empty())
    } else {
        let prev = feed_pieces(pieces.drop_last());
        (feed_bytes(prev.0, pieces.last()).1, prev.1 + fed_payloads(prev.0, pieces.last()))
    }
}

proof fn lemma_feed_append(t: Seq<u8>, a: Seq<u8>, c: Seq<u8>)
    ensures
        feed_bytes(t, a + c) == (
            feed_bytes(t, a).0 + feed_bytes(feed_bytes(t, a).1, c).0,
            feed_bytes(feed_bytes(t, a).1, c).1,
        ),
    decreases c.len(),
{
    if c.len() == 0 {
        assert(a + c =~= a);
        assert(feed_bytes(t, a).0 + Seq::<Seq<u8>>::empty() =~= feed_bytes(t, a).0);
    } else {
        assert((a + c).drop_last() =~= a + c.drop_last());
        assert((a + c).last() == c.last());
        lemma_feed_append(t, a, c.drop_last());
        let m = feed_bytes(t, a);
        let q = feed_bytes(m.1, c.drop_last());
        assert((m.0 + q.0).push(q.1) =~= m.0 + q.0.push(q.1));
    }
}

proof fn lemma_payloads_append(a: Seq<Seq<char>>, b: Seq<Seq<char>>)
    ensures
        sse_payloads_of(a + b) == sse_payloads_of(a) + sse_payloads_of(b),
    decreases b.len(),
{
    if b.len() == 0 {
        assert(a + b =~= a);
        assert(sse_payloads_of(a) + Seq::<Seq<char>>::empty() =~= sse_payloads_of(a));
    } else {
        assert((a + b).drop_last() =~= a + b.drop_last());
        assert((a + b).last() == b.last());
        lemma_payloads_append(a, b.drop_last());
        let pa = sse_payloads_of(a);
        let pb = sse_payloads_of(b.drop_last());
        match sse_payload(b.last()) {
            Some(p) => {
                assert((pa + pb).push(p) =~= pa + pb.push(p));
            },
            None => {},
        }
    }
}

/// Streaming by pieces: however the body of the event stream is cut into
/// received pieces, reading them one after another with `sse_feed` returns
/// the payloads of the whole body's lines, in order, and leaves the same
/// unfinished last line, as reading the whole body at once.
pub proof fn law_sse_any_split(pieces: Seq<Seq<u8>>)
    ensures
        feed_pieces(pieces).0 == feed_bytes(Seq::empty(), joined_bytes(pieces)).1,
        feed_pieces(pieces).1 == fed_payloads(Seq::empty(), joined_bytes(pieces)),
    decreases pieces.len(),
{
    if pieces.len() == 0 {
        assert(line_texts(Seq::<Seq<u8>>::empty()) =~= Seq::<Seq<char>>::empty());
    } else {
        let init = pieces.drop_last();
        law_sse_any_split(init);
        let a = joined_bytes(init);
        let c = pieces.last();
        lemma_feed_append(Seq::empty(), a, c);
        let m = feed_bytes(Seq::empty(), a);
        let q = feed_bytes(m.1, c);
        assert(line_texts(m.0 + q.0) =~= line_texts(m.0) + line_texts(q.0));
        lemma_payloads_append(line_texts(m.0), line_texts(q.0));
    }
}

/// The action that ends a stream: the whole answer and the last usage the
/// stream reported, or no usage.
pub fn stream_done_action(tab_id: usize, message_id: u128, content: String, final_usage: Option<Usage>) -> (a: Action)
    ensures
        a == (Action::StreamDone {
            tab_id,
            message_id,
            content,
            usage: match final_usage {
                Some(u) => u,
                None => Usage { prompt_tokens: 0, completion_tokens: 0, total_tokens: 0 },
            },
        }),
{
    let usage = match final_usage {
        Some(u) => u,
        None => Usage::zero(),
    };
    Action::StreamDone { tab_id, message_id, content, usage }
}

} // verus!
