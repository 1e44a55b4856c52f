//! The life of one streamed request, as decisions: what the transport
//! reports comes in as a `StreamEvent`, and the step says which actions to
//! hand to `update` and where the stream stands. The program performs the
//! request, reads the body and feeds each outcome back.

use vstd::prelude::*;
use crate::action::Action;
use crate::api::deepseek::stream_done_action;
use crate::api::types::Usage;
use crate::text::{decimal, owned, push_all, push_decimal};

verus! {

/// Where a streamed request stands.
#[derive(Debug, Clone, Copy, PartialEq, Eq, Structural)]
pub enum StreamPhase {
    /// The request is on its way; no answer yet.
    Connecting,
    /// The server refused with this HTTP status; its body is being read.
    Refused(u16),
    /// The body is arriving.
    Receiving,
    /// The stream has ended, well or not.
    Closed,
}

/// What the transport reports about a streamed request.
#[derive(Debug)]
pub enum StreamEvent {
    /// The request could not be sent.
    SendFailed(String),
    /// The response began with this HTTP status.
    Responded(u16),
    /// The body of a refused response.
    RefusalBody(String),
    /// A piece of the body could not be read.
    ReadFailed(String),
    /// The actions decoded from a piece of the body.
    Decoded(Vec<Action>),
    /// The body ended; the answer and the last usage reported.
    Ended { content: String, usage: Option<Usage> },
}

/// The part an action plays in the life of a stream.
#[derive(Debug, Clone, Copy, PartialEq, Eq, Structural)]
pub enum StreamRole {
    Start,
    End,
    Body,
}

/// The part `a` plays: `StreamStart` opens a stream, `StreamDone` and
/// `StreamError` end it, anything else is part of its body.
pub open spec fn stream_role(a: Action) -> StreamRole {
    match a {
        Action::StreamStart { .. } => StreamRole::Start,
        Action::StreamDone { .. } => StreamRole::End,
        Action::StreamError { .. } => StreamRole::End,
        _ => StreamRole::Body,
    }
}

/// HTTP reports success with a status from 200 to 299.
pub open spec fn is_success(status: u16) -> bool {
    200 <= status < 300
}

/// The error text of a request that could not be sent.
pub open spec fn send_error(e: Seq<char>) -> Seq<char> {
    "HTTP 请求失败: "@ + e
}

/// The error text of a refused request: its status and its body.
pub open spec fn refusal_error(status: u16, body: Seq<char>) -> Seq<char> {
    "API 返回错误 "@ + decimal(status as nat) + ": "@ + body
}

/// The error text of a body that could not be read.
pub open spec fn read_error(e: Seq<char>) -> Seq<char> {
    "流读取错误: "@ + e
}

/// The phase after `ev` in phase `p`. An event that does not fit the phase
/// changes nothing.
pub open spec fn next_phase(p: StreamPhase, ev: StreamEvent) -> StreamPhase {
    match (p, ev) {
        (StreamPhase::Connecting, StreamEvent::SendFailed(_)) => StreamPhase::Closed,
        (StreamPhase::Connecting, StreamEvent::Responded(s)) => if is_success(s) {
            StreamPhase::Receiving
        } else {
            StreamPhase::Refused(s)
        },
        (StreamPhase::Refused(_), StreamEvent::RefusalBody(_)) => StreamPhase::Closed,
        (StreamPhase::Receiving, StreamEvent::ReadFailed(_)) => StreamPhase::Closed,
        (StreamPhase::Receiving, StreamEvent::Ended { .. }) => StreamPhase::Closed,
        _ => p,
    }
}

/// `a` is the error action of message `id` in tab `tab` with text `e`.
pub open spec fn is_error_action(a: Action, tab: usize, id: u128, e: Seq<char>) -> bool {
    a matches Action::StreamError { tab_id, message_id, error } && tab_id == tab && message_id == id
        && error@ == e
}

/// `acts` are the actions for `ev` in phase `p`: an error when the request
/// cannot be sent, is refused or cannot be read; the start when it is
/// accepted; the body actions as decoded, without any that would open or
/// end a stream; the done action when the body ends; nothing otherwise.
pub open spec fn step_actions(p: StreamPhase, ev: StreamEvent, tab: usize, id: u128, acts: Seq<Action>) -> bool {
    match (p, ev) {
        (StreamPhase::Connecting, StreamEvent::SendFailed(e)) => acts.len() == 1 && is_error_action(
            acts[0],
            tab,
            id,
            send_error(e@),
        ),
        (StreamPhase::Connecting, StreamEvent::Responded(s)) => if is_success(s) {
            acts == seq![Action::StreamStart { tab_id: tab, message_id: id }]
        } else {
            acts.len() == 0
        },
        (StreamPhase::Refused(s), StreamEvent::RefusalBody(b)) => acts.len() == 1 && is_error_action(
            acts[0],
            tab,
            id,
            refusal_error(s, b@),
        ),
        (StreamPhase::Receiving, StreamEvent::ReadFailed(e)) => acts.len() == 1 && is_error_action(
            acts[0],
            tab,
            id,
            read_error(e@),
        ),
        (StreamPhase::Receiving, StreamEvent::Decoded(v)) => acts == v@.filter(
            |a: Action| stream_role(a) == StreamRole::Body,
        ),
        (StreamPhase::Receiving, StreamEvent::Ended { content, usage }) => acts == seq![
            Action::StreamDone {
                tab_id: tab,
                message_id: id,
                content,
                usage: match usage {
                    Some(u) => u,
                    None => Usage { prompt_tokens: 0, completion_tokens: 0, total_tokens: 0 },
                },
            },
        ],
        _ => acts.len() == 0,
    }
}

fn error_action(tab_id: usize, message_id: u128, prefix: &str, text: &str) -> (a: Action)
    ensures
        is_error_action(a, tab_id, message_id, prefix@ + text@),
{
    let mut error = owned(prefix);
    push_all(&mut error, text);
    Action::StreamError { tab_id, message_id, error }
}

/// One step of a streamed request for message `message_id` of tab
/// `tab_id`: the phase after `event`, and the actions to apply.
pub fn stream_step(phase: StreamPhase, tab_id: usize, message_id: u128, event: StreamEvent) -> (r: (
    StreamPhase,
    Vec<Action>,
))
    ensures
        r.0 == next_phase(phase, event),
        step_actions(phase, event, tab_id, message_id, r.1@),
{
    let mut acts: Vec<Action> = Vec::new();
    match phase {
        StreamPhase::Connecting => match event {
            StreamEvent::SendFailed(e) => {
                acts.push(error_action(tab_id, message_id, "HTTP 请求失败: ", e.as_str()));
                (StreamPhase::Closed, acts)
            },
            StreamEvent::Responded(s) => {
                if 200 <= s && s < 300 {
                    acts.push(Action::StreamStart { tab_id, message_id });
                    (StreamPhase::Receiving, acts)
                } else {
                    (StreamPhase::Refused(s), acts)
                }
            },
            _ => (phase, acts),
        },
        StreamPhase::Refused(s) => match event {
            StreamEvent::RefusalBody(b) => {
                let mut prefix = owned("API 返回错误 ");
                push_decimal(&mut prefix, s as u64);
                push_all(&mut prefix, ": ");
                let a = error_action(tab_id, message_id, prefix.as_str(), b.as_str());
                proof {
                    assert(prefix@ + b@ =~= refusal_error(s, b@));
                }
                acts.push(a);
                (StreamPhase::Closed, acts)
            },
            _ => (phase, acts),
        },
        StreamPhase::Receiving => match event {
            StreamEvent::ReadFailed(e) => {
                acts.push(error_action(tab_id, message_id, "流读取错误: ", e.as_str()));
                (StreamPhase::Closed, acts)
            },
            StreamEvent::Decoded(v) => {
                let ghost body = |a: Action| stream_role(a) == StreamRole::Body;
                let n = v.len();
                let mut rest = v;
                let ghost all = rest@;
                let mut k: usize = 0;
                let mut out: Vec<Action> = Vec::new();
                while rest.len() > 0
                    invariant
                        body == (|a: Action| stream_role(a) == StreamRole::Body),
                        all.len() == n,
                        k + rest@.len() == n,
                        rest@ == all.subrange(k as int, n as int),
                        out@ == all.take(k as int).filter(body),
                    decreases rest@.len(),
                {
                        let a = rest.remove(0);
                    proof {
                        assert(a == all[k as int]);
                        assert(rest@ =~= all.subrange(k + 1, n as int));
                        reveal(Seq::filter);
                        assert(all.take(k + 1) =~= all.take(k as int).push(a));
                        assert(all.take(k + 1).drop_last() =~= all.take(k as int));
                    }
                    let keep = match &a {
                        Action::StreamStart { .. } => false,
                        Action::StreamDone { .. } => false,
                        Action::StreamError { .. } => false,
                        _ => true,
                    };
                    if keep {
                        out.push(a);
                    }
                    k = k + 1;
                }
                proof {
                    assert(all.take(n as int) =~= all);
                }
                (StreamPhase::Receiving, out)
            },
            StreamEvent::Ended { content, usage } => {
                acts.push(stream_done_action(tab_id, message_id, content, usage));
                (StreamPhase::Closed, acts)
            },
            _ => (phase, acts),
        },
        StreamPhase::Closed => (phase, acts),
    }
}

/// The actions of a run of steps, in order.
pub open spec fn joined(outs: Seq<Seq<Action>>) -> Seq<Action>
    decreases outs.len(),
{
    if outs.len() == 0 {
        Seq::empty()
    } else {
        joined(outs.drop_last()) + outs.last()
    }
}

/// `log` is what a stream has reported so far, standing in phase `p`: at
/// most one start, and only first; at most one end, and only last; the
/// stream is closed exactly when it has ended; a log that does not open
/// with the start is a single error; before the response nothing is
/// reported, and while the body arrives the log opened with the start.
pub open spec fn stream_log(log: Seq<Action>, p: StreamPhase) -> bool {
    &&& forall|i: int| 0 < i < log.len() ==> stream_role(#[trigger] log[i]) != StreamRole::Start
    &&& forall|i: int| 0 <= i < log.len() - 1 ==> stream_role(#[trigger] log[i]) != StreamRole::End
    &&& (p == StreamPhase::Closed) == (log.len() > 0 && stream_role(log.last()) == StreamRole::End)
    &&& (log.len() > 0 && stream_role(log[0]) != StreamRole::Start) ==> log.len() == 1
    &&& (p matches StreamPhase::Connecting || p matches StreamPhase::Refused(_)) ==> log.len() == 0
    &&& p == StreamPhase::Receiving ==> log.len() > 0 && stream_role(log[0]) == StreamRole::Start
}

/// Every stream reports one start, then its body, then exactly one end
/// (done or error), and nothing after; or, when the request fails before
/// an answer, a single error. This holds after any run of events from the
/// moment the request is sent, whatever the transport reports and in
/// whatever order.
pub proof fn law_stream_reports_once(
    phases: Seq<StreamPhase>,
    events: Seq<StreamEvent>,
    outs: Seq<Seq<Action>>,
    tab_id: usize,
    message_id: u128,
)
    requires
        phases.len() == events.len() + 1,
        outs.len() == events.len(),
        phases[0] == StreamPhase::Connecting,
        forall|i: int|
            0 <= i < events.len() ==> phases[i + 1] == next_phase(#[trigger] phases[i], events[i])
                && step_actions(phases[i], events[i], tab_id, message_id, outs[i]),
    ensures
        stream_log(joined(outs), phases.last()),
    decreases events.len(),
{
    broadcast use vstd::seq_lib::group_filter_ensures;

    if events.len() == 0 {
        assert(joined(outs) =~= Seq::<Action>::empty());
    } else {
        let n = events.len() - 1;
        let ps = phases.drop_last();
        let es = events.drop_last();
        let os = outs.drop_last();
        assert forall|i: int| 0 <= i < es.len() implies ps[i + 1] == next_phase(#[trigger] ps[i], es[i])
            && step_actions(ps[i], es[i], tab_id, message_id, os[i]) by {
            assert(ps[i] == phases[i]);
            assert(ps[i + 1] == phases[i + 1]);
            assert(es[i] == events[i]);
            assert(os[i] == outs[i]);
        }
        law_stream_reports_once(ps, es, os, tab_id, message_id);
        let log0 = joined(os);
        let p = phases[n];
        assert(ps.last() == p);
        let acts = outs[n];
        assert(phases[n + 1] == next_phase(p, events[n]));
        assert(step_actions(p, events[n], tab_id, message_id, acts));
        let log = joined(outs);
        assert(log == log0 + acts);
        assert(phases.last() == phases[n + 1]);
        match (p, events[n]) {
            (StreamPhase::Receiving, StreamEvent::Decoded(v)) => {
                let pred = |a: Action| stream_role(a) == StreamRole::Body;
                assert forall|j: int| 0 <= j < acts.len() implies stream_role(#[trigger] acts[j])
                    == StreamRole::Body by {
                    assert(pred(acts[j]));
                }
                assert forall|i: int| 0 <= i < log.len() - 1 implies stream_role(#[trigger] log[i])
                    != StreamRole::End by {
                    if i >= log0.len() {
                        assert(log[i] == acts[i - log0.len()]);
                    } else {
                        assert(log[i] == log0[i]);
                    }
                }
                assert forall|i: int| 0 < i < log.len() implies stream_role(#[trigger] log[i])
                    != StreamRole::Start by {
                    if i >= log0.len() {
                        assert(log[i] == acts[i - log0.len()]);
                    } else {
                        assert(log[i] == log0[i]);
                    }
                }
                if acts.len() > 0 {
                    assert(log.last() == acts.last());
                    assert(stream_role(acts[acts.len() - 1]) == StreamRole::Body);
                } else {
                    assert(log =~= log0);
                }
                assert(log[0] == log0[0]);
            },
            _ => {
                if acts.len() == 0 {
                    assert(log =~= log0);
                } else {
                    assert(acts.len() == 1);
                    assert(log.last() == acts[0]);
                    assert forall|i: int| 0 <= i < log.len() - 1 implies stream_role(#[trigger] log[i])
                        != StreamRole::End by {
                        assert(log[i] == log0[i]);
                    }
                    assert forall|i: int| 0 < i < log.len() implies stream_role(#[trigger] log[i])
                        != StreamRole::Start by {
                        if i < log0.len() {
                            assert(log[i] == log0[i]);
                        }
                    }
                    if log0.len() > 0 {
                        assert(log[0] == log0[0]);
                    }
                }
            },
        }
    }
}

} // verus!
