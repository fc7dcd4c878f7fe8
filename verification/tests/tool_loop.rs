use nagent::json;
use nagent::json::Json;
use nagent::sse::{parse_sse_frame, SseBuffer, SseEvent, SseFrame};
use nagent::tool_loop::{
    forward_event, sse_error_event, sse_tool_call_event, sse_tool_result_event, tool_call_names,
    Forward, Happened, Next, Out, PendingToolCall, RoundOutcome, ToolCallAccumulator, ToolLoop,
};
use serde_json::Value;

fn value(s: &str) -> Json {
    json::parse(s).unwrap()
}

fn tc(name: Option<&str>) -> PendingToolCall {
    PendingToolCall {
        id: "call_x".into(),
        name: name.map(str::to_owned),
        arguments: "{}".into(),
    }
}

#[test]
fn tool_call_names_joins_known_names() {
    let calls = vec![tc(Some("web_fetch")), tc(Some("web_search"))];
    assert_eq!(tool_call_names(&calls), "web_fetch, web_search");
}

#[test]
fn tool_call_names_marks_missing_name_as_unknown() {
    let calls = vec![tc(Some("web_fetch")), tc(None), tc(Some("weather"))];
    assert_eq!(tool_call_names(&calls), "web_fetch, <unknown>, weather");
}

#[test]
fn tool_call_names_handles_empty_input() {
    assert_eq!(tool_call_names(&[]), "");
}

const ROUND_ONE: &str = "event: message\ndata: {\"id\":\"1\",\"object\":\"chat.completion.chunk\",\"choices\":[{\"index\":0,\"delta\":{\"role\":\"assistant\",\"content\":\"Let me fetch that for you.\\n\"},\"finish_reason\":null}]}\n\nevent: message\ndata: {\"id\":\"1\",\"object\":\"chat.completion.chunk\",\"choices\":[{\"index\":0,\"delta\":{\"tool_calls\":[{\"index\":0,\"id\":\"call_x\",\"type\":\"function\",\"function\":{\"name\":\"web_fetch\",\"arguments\":\"\"}}]},\"finish_reason\":null}]}\n\nevent: message\ndata: {\"id\":\"1\",\"object\":\"chat.completion.chunk\",\"choices\":[{\"index\":0,\"delta\":{\"tool_calls\":[{\"index\":0,\"function\":{\"arguments\":\"{\\\"url\\\":\"}}]},\"finish_reason\":null}]}\n\nevent: message\ndata: {\"id\":\"1\",\"object\":\"chat.completion.chunk\",\"choices\":[{\"index\":0,\"delta\":{\"tool_calls\":[{\"index\":0,\"function\":{\"arguments\":\"\\\"http://example.com\\\"}\"}}]},\"finish_reason\":null}]}\n\nevent: message\ndata: {\"id\":\"1\",\"object\":\"chat.completion.chunk\",\"choices\":[{\"index\":0,\"delta\":{},\"finish_reason\":\"tool_calls\"}]}\n\ndata: [DONE]\n\n";

const ROUND_TWO: &str = "event: message\ndata: {\"id\":\"1\",\"object\":\"chat.completion.chunk\",\"choices\":[{\"index\":0,\"delta\":{\"role\":\"assistant\",\"content\":\"Done.\"},\"finish_reason\":null}]}\n\nevent: message\ndata: {\"id\":\"1\",\"object\":\"chat.completion.chunk\",\"choices\":[{\"index\":0,\"delta\":{},\"finish_reason\":\"stop\"}]}\n\ndata: [DONE]\n\n";

/// Read a stream of the model, handing on what the client gets.
fn drain(stream: &str, chunk: usize, client: &mut String) -> Happened {
    let mut buf = SseBuffer::new();
    let mut round = RoundOutcome::new();
    for piece in stream.as_bytes().chunks(chunk) {
        buf.push(piece);
    }
    while let Some(f) = buf.next_event() {
        match forward_event(&f) {
            Forward::Finished => break,
            Forward::Send(bytes) => {
                client.push_str(std::str::from_utf8(&bytes).unwrap());
                round.absorb(&f.event);
            }
        }
    }
    let (text, calls) = round.into_parts();
    Happened::Drained { text, calls }
}

fn send(out: Vec<Out>, client: &mut String) {
    for o in out {
        match o {
            Out::Frame(f) => client.push_str(&f),
            Out::Fail(e) => panic!("failed: {e}"),
        }
    }
}

#[test]
fn tool_loop_dispatches_and_completes() {
    let body = value(
        r#"{"messages":[{"role":"user","content":"fetch example.com"}],"stream":true,"model":"llama3.1"}"#,
    );
    let mut lp = ToolLoop::new(body, vec!["web_fetch".into()], 4);
    let mut client = String::new();
    let (out, next) = lp.step(Happened::Begin);
    send(out, &mut client);
    assert!(matches!(next, Next::Drain));
    let (out, next) = lp.step(drain(ROUND_ONE, 7, &mut client));
    send(out, &mut client);
    match next {
        Next::Invoke { name, args } => {
            assert_eq!(name, "web_fetch");
            assert_eq!(args.get("url").unwrap().as_str(), Some("http://example.com"));
        }
        other => panic!("unexpected {other:?}"),
    }
    let (out, next) = lp.step(Happened::Invoked(Err("sandbox denied: no".into())));
    send(out, &mut client);
    let second: Value = match next {
        Next::Open(text) => serde_json::from_str(&text).unwrap(),
        other => panic!("unexpected {other:?}"),
    };
    let (out, next) = lp.step(Happened::Connected);
    send(out, &mut client);
    assert!(matches!(next, Next::Drain));
    let (out, next) = lp.step(drain(ROUND_TWO, 1000, &mut client));
    send(out, &mut client);
    assert!(matches!(next, Next::Stop));

    assert!(client.contains("event: tool_call"));
    assert!(client.contains("\"name\":\"web_fetch\""));
    assert!(client.contains("event: tool_result"));
    assert!(client.contains("\"id\":\"call_x\""));
    let tool_result_pos = client.find("event: tool_result").unwrap();
    let first_done_pos = client.find("data: [DONE]").unwrap();
    assert!(first_done_pos > tool_result_pos);
    assert_eq!(client.matches("data: [DONE]").count(), 1);
    assert!(client.ends_with("data: [DONE]\n\n"));

    let messages = second["messages"].as_array().unwrap();
    assert!(messages
        .iter()
        .any(|m| m["role"] == "tool" && m["tool_call_id"] == "call_x"));
    assert!(messages.iter().any(|m| m["role"] == "assistant"
        && m["content"] == "Let me fetch that for you.\n"
        && m["tool_calls"][0]["id"] == "call_x"
        && m["tool_calls"][0]["function"]["arguments"] == "{\"url\":\"http://example.com\"}"));
    assert_eq!(messages[2]["content"], "[error] sandbox denied: no");
}

#[test]
fn tool_loop_aborts_after_max_rounds() {
    let stream = "event: message\ndata: {\"choices\":[{\"index\":0,\"delta\":{\"role\":\"assistant\",\"tool_calls\":[{\"index\":0,\"id\":\"call_y\",\"type\":\"function\",\"function\":{\"name\":\"web_fetch\",\"arguments\":\"{}\"}}]},\"finish_reason\":\"tool_calls\"}]}\n\ndata: [DONE]\n\n";
    let body = value(r#"{"messages":[{"role":"user","content":"x"}]}"#);
    let mut lp = ToolLoop::new(body, vec!["web_fetch".into()], 2);
    let mut client = String::new();
    let (out, mut next) = lp.step(Happened::Begin);
    send(out, &mut client);
    let mut asked = 0;
    loop {
        let ev = match next {
            Next::Drain => {
                asked += 1;
                drain(stream, 64, &mut client)
            }
            Next::Open(_) => Happened::Connected,
            Next::Invoke { .. } => Happened::Invoked(Ok("{}".into())),
            Next::Stop => break,
        };
        let (out, n) = lp.step(ev);
        send(out, &mut client);
        next = n;
    }
    assert_eq!(asked, 2);
    assert!(client.contains("event: error") && client.contains("agent loop exceeded"));
    assert!(client.contains("max tool rounds (2) reached"));
    assert!(client.ends_with("data: [DONE]\n\n"));
}

#[test]
fn calls_of_unknown_agents_are_answered_at_once() {
    let body = value(r#"{"messages":[]}"#);
    let mut lp = ToolLoop::new(body, vec![], 3);
    lp.step(Happened::Begin);
    let calls = vec![tc(None), tc(Some("nope"))];
    let (out, next) = lp.step(Happened::Drained { text: "".into(), calls });
    let mut client = String::new();
    send(out, &mut client);
    assert!(client.contains("tool call arrived without a function name"));
    assert!(client.contains("unknown agent: `nope`"));
    match next {
        Next::Open(text) => {
            let v: Value = serde_json::from_str(&text).unwrap();
            assert_eq!(v["messages"].as_array().unwrap().len(), 3);
        }
        other => panic!("unexpected {other:?}"),
    }
}

#[test]
fn failures_of_the_loop() {
    let fresh = || {
        let mut lp = ToolLoop::new(value(r#"{"messages":[]}"#), vec![], 3);
        lp.step(Happened::Begin);
        lp
    };
    let (out, next) = fresh().step(Happened::ReadFailed("e".into()));
    assert_eq!(out, vec![Out::Fail("upstream read failed: e".into())]);
    assert!(matches!(next, Next::Stop));
    let (out, _) = fresh().step(Happened::ConnectFailed("e".into()));
    assert_eq!(out, vec![Out::Fail("upstream connect failed: e".into())]);
    let (out, _) = fresh().step(Happened::Refused { status: 404, body: "b".into() });
    let mut client = String::new();
    send(out, &mut client);
    assert!(client.contains("status 404 Not Found: b"), "{client}");
    assert!(client.ends_with("data: [DONE]\n\n"));
    let mut lp = ToolLoop::new(value("{}"), vec![], 3);
    lp.step(Happened::Begin);
    let (out, _) = lp.step(Happened::Drained { text: "".into(), calls: vec![tc(None)] });
    assert_eq!(out, vec![Out::Fail("internal: body has no messages array".into())]);
}

#[test]
fn deltas_are_put_together_by_index() {
    let mut acc = ToolCallAccumulator::new();
    for raw in [
        r#"{"index":1,"id":"b","function":{"name":"two","arguments":"{"}}"#,
        r#"{"index":0,"id":"a","function":{"name":"one","arguments":"[]"}}"#,
        r#"{"index":1,"function":{"arguments":"}"}}"#,
    ] {
        acc.apply_delta(&value(&format!("[{raw}]")));
        acc.apply_delta(&value(raw));
    }
    let calls = acc.into_sorted();
    assert_eq!(calls.len(), 2);
    assert_eq!((calls[0].id.as_str(), calls[0].arguments.as_str()), ("a", "[]"));
    assert_eq!((calls[1].id.as_str(), calls[1].arguments.as_str()), ("b", "{}"));
    assert_eq!(calls[1].name.as_deref(), Some("two"));
}

fn data_of(frame: &str) -> Value {
    let line = frame.lines().find(|l| l.starts_with("data: ")).unwrap();
    serde_json::from_str(&line[6..]).unwrap()
}

#[test]
fn events_for_the_browser() {
    let call = PendingToolCall {
        id: "c".into(),
        name: Some("n".into()),
        arguments: "{\"a\":1}".into(),
    };
    let frame = sse_tool_call_event(&call, "n", 2);
    assert!(frame.starts_with("event: tool_call\ndata: ") && frame.ends_with("\n\n"));
    let d = data_of(&frame);
    assert_eq!(d["args"]["a"], 1);
    assert_eq!(d["arguments_raw"], "{\"a\":1}");
    assert_eq!(d["index"], 2);
    let d = data_of(&sse_tool_result_event("c", "n", true, r#"{"summary":"s"}"#));
    assert_eq!(d["summary"], "s");
    assert_eq!(d["ok"], true);
    let d = data_of(&sse_tool_result_event("c", "n", true, &"y".repeat(200)));
    assert_eq!(d["summary"], "y".repeat(80));
    let d = data_of(&sse_tool_result_event("c", "n", false, &"y".repeat(200)));
    assert_eq!(d["summary"], "y".repeat(160));
    let d = data_of(&sse_error_event("r", "d"));
    assert_eq!(d["error"], "r");
    assert_eq!(d["detail"], "d");
}

#[test]
fn events_are_split_at_blank_lines() {
    let mut buf = SseBuffer::new();
    buf.push(b"event: a\ndata: 1\nda");
    assert!(buf.next_event().is_none());
    buf.push(b"ta: 2\n\ndata: 3\r\n\r\nleft");
    let f = buf.next_event().unwrap();
    assert_eq!(f.event, SseEvent { name: Some("a".into()), data: "1\n2".into() });
    assert_eq!(f.raw, b"event: a\ndata: 1\ndata: 2\n\n");
    let f = buf.next_event().unwrap();
    assert_eq!(f.event, SseEvent { name: None, data: "3".into() });
    assert_eq!(f.raw, b"data: 3\r\n\r\n");
    assert!(buf.next_event().is_none());
    let f = buf.finish().unwrap();
    assert_eq!(f.raw, b"left\n\n");
    assert!(buf.finish().is_none());
    let ev = parse_sse_frame("data: x\n: comment\nevent: e");
    assert_eq!(ev, SseEvent { name: Some("e".into()), data: "x".into() });
}

#[test]
fn bytes_that_are_no_text_are_marked_but_forwarded() {
    let mut buf = SseBuffer::new();
    buf.push(b"data: a\xff\n\n");
    let f = buf.next_event().unwrap();
    assert_eq!(f.event.data, "a\u{fffd}");
    assert_eq!(forward_event(&f), Forward::Send(b"data: a\xff\n\n".to_vec()));
}

#[test]
fn the_models_own_end_is_kept_back() {
    let done = SseFrame {
        event: SseEvent { name: None, data: " [DONE] ".into() },
        raw: b"data: [DONE] \n\n".to_vec(),
    };
    assert_eq!(forward_event(&done), Forward::Finished);
}

#[test]
fn events_are_handed_on_as_they_came() {
    for raw in ["event: a\ndata: 1\ndata: 2", "data:x", "event:", ": c\nid: 7", "data: \r\ndata: y\r"] {
        let sent = format!("{raw}\n\n");
        let mut buf = SseBuffer::new();
        buf.push(sent.as_bytes());
        let f = buf.next_event().unwrap();
        assert_eq!(f.event, parse_sse_frame(raw), "{raw:?}");
        assert_eq!(forward_event(&f), Forward::Send(sent.into_bytes()), "{raw:?}");
        assert!(buf.next_event().is_none());
    }
}
