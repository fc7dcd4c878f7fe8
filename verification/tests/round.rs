use nagent::round::{Incident, Round, Todo};
use nagent::tool_loop::{Happened, Next, Out, ToolLoop};

const ANSWER: &str = "data: {\"choices\":[{\"delta\":{\"content\":\"a\"}}]}\n\nevent: e\ndata: {\"choices\":[{\"delta\":{\"content\":\"b\",\"tool_calls\":[{\"index\":0,\"id\":\"c\",\"function\":{\"name\":\"n\",\"arguments\":\"{}\"}}]}}]}\r\n\r\ndata: no json\n\ndata: [DONE]\n\ndata: late\n\n";

/// The frames of a round, and what it ends with, for an answer cut into pieces.
fn course(pieces: &[&[u8]], stay_for: usize) -> (Vec<String>, Happened) {
    let mut frames = Vec::new();
    let mut left = pieces.iter();
    let mut todo = Round::new().step(Incident::Begin);
    loop {
        todo = match todo {
            Todo::Read(r) => match left.next() {
                Some(p) => r.step(Incident::Chunk(p.to_vec())),
                None => r.step(Incident::Ended),
            },
            Todo::Send(r, f) => {
                if frames.len() < stay_for {
                    frames.push(String::from_utf8(f).unwrap());
                    r.step(Incident::Sent)
                } else {
                    r.step(Incident::ClientGone)
                }
            }
            Todo::Finish(h) => return (frames, h),
        };
    }
}

fn drained(h: Happened) -> (String, Vec<String>) {
    match h {
        Happened::Drained { text, calls } => {
            (text, calls.into_iter().map(|c| format!("{}:{}", c.id, c.arguments)).collect())
        }
        other => panic!("{other:?}"),
    }
}

#[test]
fn an_answer_is_handed_on_up_to_its_end() {
    let (frames, end) = course(&[ANSWER.as_bytes()], usize::MAX);
    assert_eq!(
        frames,
        [
            "data: {\"choices\":[{\"delta\":{\"content\":\"a\"}}]}\n\n",
            "event: e\ndata: {\"choices\":[{\"delta\":{\"content\":\"b\",\"tool_calls\":[{\"index\":0,\"id\":\"c\",\"function\":{\"name\":\"n\",\"arguments\":\"{}\"}}]}}]}\r\n\r\n",
            "data: no json\n\n",
        ]
    );
    assert_eq!(drained(end), ("ab".to_string(), vec!["c:{}".to_string()]));
}

#[test]
fn pieces_make_no_difference() {
    let whole = course(&[ANSWER.as_bytes()], usize::MAX);
    let expected = (whole.0, drained(whole.1));
    for size in [1, 2, 3, 7, 50] {
        let pieces: Vec<&[u8]> = ANSWER.as_bytes().chunks(size).collect();
        let (frames, end) = course(&pieces, usize::MAX);
        assert_eq!((frames, drained(end)), expected, "{size}");
    }
}

#[test]
fn answers_are_forwarded_byte_for_byte() {
    let odd = ": ping\n\nid: 7\nretry: 10\ndata:   é\ndata: \u{1F600}x  \r\n\r\nevent: e\ndata:y\n\n";
    for size in [1, 2, 3, 5, 1000] {
        let pieces: Vec<&[u8]> = odd.as_bytes().chunks(size).collect();
        let (frames, _) = course(&pieces, usize::MAX);
        assert_eq!(frames.concat(), odd, "{size}");
        assert_eq!(frames.len(), 3);
    }
}

#[test]
fn characters_stay_whole_across_pieces() {
    let answer = "data: {\"choices\":[{\"delta\":{\"content\":\"déjà \u{1F600}\"}}]}\n\n";
    for size in 1..9 {
        let pieces: Vec<&[u8]> = answer.as_bytes().chunks(size).collect();
        let (_, end) = course(&pieces, usize::MAX);
        assert_eq!(drained(end).0, "déjà \u{1F600}", "{size}");
    }
}

#[test]
fn what_is_left_at_the_end_is_an_event() {
    let (frames, end) = course(&[b"data: 1\n\ndata: 2"], usize::MAX);
    assert_eq!(frames, ["data: 1\n\n", "data: 2\n\n"]);
    assert_eq!(drained(end).0, "");
    let (frames, _) = course(&[b"data: 1\n\n \n"], usize::MAX);
    assert_eq!(frames, ["data: 1\n\n"]);
}

#[test]
fn hanging_up_ends_a_round() {
    let (frames, end) = course(&[ANSWER.as_bytes()], 1);
    assert_eq!(frames.len(), 1);
    assert_eq!(drained(end), ("a".to_string(), vec![]));
}

#[test]
fn failures_end_a_round() {
    let Todo::Read(r) = Round::new().step(Incident::Begin) else { panic!("nothing to read") };
    let Todo::Finish(Happened::ReadFailed(e)) = r.step(Incident::Failed("reset".into())) else {
        panic!("no failure")
    };
    assert_eq!(e, "reset");
    let Todo::Finish(Happened::ReadFailed(e)) = Round::new().step(Incident::TimedOut) else {
        panic!("no failure")
    };
    assert_eq!(e, "upstream idle timeout");
}

#[test]
fn forwards_sse_chunks_verbatim() {
    let events = [
        r#"{"id":"1","object":"chat.completion.chunk","choices":[{"index":0,"delta":{"content":"Hello"},"finish_reason":null}]}"#,
        r#"{"id":"1","object":"chat.completion.chunk","choices":[{"index":0,"delta":{"content":" world"},"finish_reason":null}]}"#,
        r#"{"id":"1","object":"chat.completion.chunk","choices":[{"index":0,"delta":{},"finish_reason":"stop"}]}"#,
    ];
    let mut upstream = String::new();
    for e in events {
        upstream.push_str(&format!("data: {e}\n\n"));
    }
    upstream.push_str("data: [DONE]\n\n");
    let (frames, end) = course(&[upstream.as_bytes()], usize::MAX);
    let (text, calls) = drained(end);
    assert_eq!(text, "Hello world");
    assert!(calls.is_empty());
    let names = vec!["web_fetch".to_string()];
    let body = nagent::json::parse(
        r#"{"messages":[{"role":"user","content":"hi"}],"stream":true,"model":"llama3.1"}"#,
    )
    .unwrap();
    let mut talk = ToolLoop::new(body, names, 4);
    let (_, next) = talk.step(Happened::Begin);
    assert!(matches!(next, Next::Drain));
    let (out, next) = talk.step(Happened::Drained { text, calls: vec![] });
    assert!(matches!(next, Next::Stop));
    let mut got = frames.concat();
    for o in out {
        match o {
            Out::Frame(f) => got.push_str(&f),
            Out::Fail(e) => panic!("{e}"),
        }
    }
    assert_eq!(got, upstream);
}
