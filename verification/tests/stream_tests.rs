use nezha_cyber::action::Action;
use nezha_cyber::api::stream::{stream_step, StreamEvent, StreamPhase};
use nezha_cyber::api::deepseek::{sse_feed, sse_finish};
use nezha_cyber::api::deepseek::{
    absorb_stream_response, apply_tool_call_delta, process_stream_choice, sse_payloads,
    stream_done_action, DeepSeekClient, DeepSeekConfig,
};
use nezha_cyber::api::types::{
    PendingToolCall, StreamChoice, StreamDelta, StreamFunctionDelta, StreamResponse,
    StreamToolCallDelta, Usage,
};

fn delta(index: usize, id: Option<&str>, name: Option<&str>, args: Option<&str>) -> StreamToolCallDelta {
    StreamToolCallDelta {
        index,
        id: id.map(|s| s.to_string()),
        function: Some(StreamFunctionDelta {
            name: name.map(|s| s.to_string()),
            arguments: args.map(|s| s.to_string()),
        }),
    }
}

fn choice(content: Option<&str>, calls: Option<Vec<StreamToolCallDelta>>) -> StreamChoice {
    StreamChoice {
        index: 0,
        delta: StreamDelta { role: None, content: content.map(|s| s.to_string()), tool_calls: calls },
        finish_reason: None,
    }
}

#[test]
fn sse_lines_give_data_payloads() {
    let text = "data: {\"a\":1}\r\n\n  data: [DONE]\nevent: x\ndata: tail";
    assert_eq!(sse_payloads(text), vec!["{\"a\":1}".to_string(), "tail".to_string()]);
}

#[test]
fn sse_blank_chunk_gives_nothing() {
    assert!(sse_payloads("\n\n   \n").is_empty());
}

#[test]
fn tool_call_delta_accumulates_and_requests() {
    let mut pending: Vec<PendingToolCall> = Vec::new();
    let r = apply_tool_call_delta(3, &mut pending, &delta(1, Some("call_9"), Some("read_"), None));
    assert!(r.is_none());
    assert_eq!(pending.len(), 2);
    assert_eq!(pending[0].id, "");
    let r = apply_tool_call_delta(3, &mut pending, &delta(1, None, Some("file"), Some("{\"path\":")));
    assert!(r.is_some());
    let r = apply_tool_call_delta(3, &mut pending, &delta(1, None, None, Some(" \"a.txt\"}")));
    match r {
        Some(Action::ToolCallRequest { tab_id, call_id, name, args }) => {
            assert_eq!(tab_id, 3);
            assert_eq!(call_id, "call_9");
            assert_eq!(name, "read_file");
            assert_eq!(args, "{\"path\":\"a.txt\"}");
        }
        other => panic!("unexpected {:?}", other),
    }
    assert_eq!(pending[1].arguments, "{\"path\": \"a.txt\"}");
}

#[test]
fn incomplete_json_arguments_become_null() {
    let mut pending: Vec<PendingToolCall> = Vec::new();
    let r = apply_tool_call_delta(0, &mut pending, &delta(0, Some("c"), Some("n"), Some("{\"x\"")));
    match r {
        Some(Action::ToolCallRequest { args, .. }) => assert_eq!(args, "null"),
        other => panic!("unexpected {:?}", other),
    }
}

#[test]
fn choice_with_content_reports_chunk() {
    let mut content = String::from("前");
    let mut pending: Vec<PendingToolCall> = Vec::new();
    let acts = process_stream_choice(0, 7, &choice(Some("文"), None), &mut content, &mut pending);
    assert_eq!(content, "前文");
    assert_eq!(acts.len(), 1);
    match &acts[0] {
        Action::StreamChunk { tab_id, message_id, chunk } => {
            assert_eq!(*tab_id, 0);
            assert_eq!(*message_id, 7);
            assert_eq!(chunk, "文");
        }
        other => panic!("unexpected {:?}", other),
    }
}

#[test]
fn response_absorbs_usage_and_choices() {
    let resp = StreamResponse {
        id: "r".into(),
        object: "chat.completion.chunk".into(),
        created: 1,
        model: "m".into(),
        choices: vec![
            choice(Some("a"), None),
            choice(None, Some(vec![delta(0, Some("id1"), Some("list_directory"), Some("{}"))])),
        ],
        usage: Some(Usage { prompt_tokens: 5, completion_tokens: 6, total_tokens: 11 }),
    };
    let mut content = String::new();
    let mut pending: Vec<PendingToolCall> = Vec::new();
    let mut usage: Option<Usage> = None;
    let acts = absorb_stream_response(1, 2, &resp, &mut content, &mut pending, &mut usage);
    assert_eq!(content, "a");
    assert_eq!(acts.len(), 2);
    assert_eq!(usage, Some(Usage { prompt_tokens: 5, completion_tokens: 6, total_tokens: 11 }));
    assert!(matches!(&acts[1], Action::ToolCallRequest { name, .. } if name == "list_directory"));
}

#[test]
fn stream_done_without_usage_reports_zero() {
    match stream_done_action(1, 2, "x".into(), None) {
        Action::StreamDone { usage, content, .. } => {
            assert_eq!(usage, Usage::default());
            assert_eq!(content, "x");
        }
        other => panic!("unexpected {:?}", other),
    }
}

#[test]
fn client_model_can_change() {
    let mut c = DeepSeekClient::new(DeepSeekConfig {
        api_base: "b".into(),
        api_key: "k".into(),
        model: "m1".into(),
    });
    c.set_model("m2".into());
    assert_eq!(c.model(), "m2");
    assert_eq!(c.api_key(), "k");
    assert_eq!(c.api_base(), "b");
}

#[test]
fn stream_step_send_failure_is_one_error() {
    let (p, acts) = stream_step(StreamPhase::Connecting, 0, 7, StreamEvent::SendFailed("timeout".into()));
    assert_eq!(p, StreamPhase::Closed);
    assert_eq!(acts.len(), 1);
    match &acts[0] {
        Action::StreamError { tab_id, message_id, error } => {
            assert_eq!((*tab_id, *message_id), (0, 7));
            assert_eq!(error, "HTTP 请求失败: timeout");
        }
        other => panic!("unexpected {:?}", other),
    }
    let (p, acts) = stream_step(p, 0, 7, StreamEvent::Ended { content: "x".into(), usage: None });
    assert_eq!(p, StreamPhase::Closed);
    assert!(acts.is_empty());
}

#[test]
fn stream_step_refusal_reads_the_body() {
    let (p, acts) = stream_step(StreamPhase::Connecting, 1, 2, StreamEvent::Responded(401));
    assert_eq!(p, StreamPhase::Refused(401));
    assert!(acts.is_empty());
    let (p, acts) = stream_step(p, 1, 2, StreamEvent::RefusalBody("bad key".into()));
    assert_eq!(p, StreamPhase::Closed);
    match &acts[..] {
        [Action::StreamError { error, .. }] => assert_eq!(error, "API 返回错误 401: bad key"),
        other => panic!("unexpected {:?}", other),
    }
}

#[test]
fn stream_step_success_path() {
    let (p, acts) = stream_step(StreamPhase::Connecting, 0, 3, StreamEvent::Responded(200));
    assert_eq!(p, StreamPhase::Receiving);
    assert!(matches!(&acts[..], [Action::StreamStart { tab_id: 0, message_id: 3 }]));
    let decoded = vec![
        Action::StreamChunk { tab_id: 0, message_id: 3, chunk: "你".into() },
        Action::StreamStart { tab_id: 0, message_id: 3 },
        Action::StreamChunk { tab_id: 0, message_id: 3, chunk: "好".into() },
    ];
    let (p, acts) = stream_step(p, 0, 3, StreamEvent::Decoded(decoded));
    assert_eq!(p, StreamPhase::Receiving);
    assert_eq!(acts.len(), 2);
    assert!(matches!(&acts[1], Action::StreamChunk { chunk, .. } if chunk == "好"));
    let (p, acts) = stream_step(p, 0, 3, StreamEvent::ReadFailed("reset".into()));
    assert_eq!(p, StreamPhase::Closed);
    assert!(matches!(&acts[..], [Action::StreamError { error, .. }] if error == "流读取错误: reset"));
    let (p2, acts) = stream_step(StreamPhase::Receiving, 0, 3, StreamEvent::Ended { content: "你好".into(), usage: None });
    assert_eq!(p2, StreamPhase::Closed);
    assert!(matches!(&acts[..], [Action::StreamDone { content, usage, .. }] if content == "你好" && usage.total_tokens == 0));
    let (_, acts) = stream_step(p, 0, 3, StreamEvent::Responded(200));
    assert!(acts.is_empty());
}

fn feed_all(pieces: &[&[u8]]) -> (Vec<String>, Option<String>) {
    let mut carry: Vec<u8> = Vec::new();
    let mut out = Vec::new();
    for p in pieces {
        out.extend(sse_feed(&mut carry, p));
    }
    let last = sse_finish(&carry);
    (out, last)
}

#[test]
fn sse_any_split_gives_the_same_payloads() {
    let body = "data: {\"a\":\"你好\"}\n\ndata: {\"b\":1}\r\ndata: [DONE]\n".as_bytes();
    let whole = feed_all(&[body]);
    assert_eq!(whole.0, vec!["{\"a\":\"你好\"}".to_string(), "{\"b\":1}".to_string()]);
    assert_eq!(whole.1, None);
    for cut in 0..=body.len() {
        let (a, b) = body.split_at(cut);
        assert_eq!(feed_all(&[a, b]), whole, "cut at {}", cut);
    }
    let bytes: Vec<&[u8]> = body.chunks(1).collect();
    assert_eq!(feed_all(&bytes), whole);
}

#[test]
fn sse_unfinished_last_line_is_read_at_the_end() {
    let (out, last) = feed_all(&[b"data: x\nda", b"ta: y"]);
    assert_eq!(out, vec!["x".to_string()]);
    assert_eq!(last, Some("y".to_string()));
    let (out, last) = feed_all(&[b"", b""]);
    assert!(out.is_empty());
    assert_eq!(last, None);
}
