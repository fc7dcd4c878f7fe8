use nagent::agents::html::extract_html_text;
use nagent::agents::web_fetch::{
    format_bytes, host_matches_allowlist, is_addr_allowed, next_budget, parse_args, truncate,
    FetchArgs, FetchRun, Happened, Todo, UrlParts, WebFetchAgent,
};
use nagent::agents::AgentError;
use nagent::config::WebFetchConfig;
use nagent::json;
use nagent::json::Json;
use nagent::net::Ip;

fn value(s: &str) -> Json {
    json::parse(s).unwrap()
}

fn text_at(j: &Json, name: &str) -> String {
    j.get(name).and_then(|v| v.as_str()).unwrap().to_string()
}

#[test]
fn host_matches_allowlist_exact() {
    let allowlist = vec!["example.com".into()];
    assert!(host_matches_allowlist("example.com", &allowlist));
    assert!(!host_matches_allowlist("foo.example.com", &allowlist));
    assert!(!host_matches_allowlist("evil.com", &allowlist));
}

#[test]
fn host_matches_allowlist_wildcard() {
    let allowlist = vec!["*".into()];
    assert!(host_matches_allowlist("anything.example", &allowlist));
    assert!(host_matches_allowlist("127.0.0.1", &allowlist));
    assert!(host_matches_allowlist("localhost", &allowlist));
}

#[test]
fn host_matches_allowlist_glob() {
    let allowlist = vec!["*.example.com".into()];
    assert!(host_matches_allowlist("example.com", &allowlist));
    assert!(host_matches_allowlist("foo.example.com", &allowlist));
    assert!(host_matches_allowlist("a.b.example.com", &allowlist));
    assert!(!host_matches_allowlist("notexample.com", &allowlist));
}

#[test]
fn host_matches_allowlist_mixed() {
    let allowlist = vec!["exact.io".into(), "*.example.com".into()];
    assert!(host_matches_allowlist("exact.io", &allowlist));
    assert!(host_matches_allowlist("docs.example.com", &allowlist));
    assert!(!host_matches_allowlist("exact.com", &allowlist));
}

#[test]
fn host_case_does_not_matter() {
    let allowlist = vec!["*.Example.COM".into()];
    assert!(host_matches_allowlist("Docs.EXAMPLE.com", &allowlist));
    assert!(!host_matches_allowlist("docs.example.com", &Vec::new()));
}

#[test]
fn sandbox_blocks_loopback_and_private() {
    assert!(!is_addr_allowed(Ip::V4(127, 0, 0, 1), true));
    assert!(!is_addr_allowed(Ip::V4(10, 0, 0, 1), true));
    assert!(!is_addr_allowed(Ip::V4(192, 168, 1, 1), true));
    assert!(!is_addr_allowed(Ip::V4(172, 16, 0, 1), true));
    assert!(!is_addr_allowed(Ip::V4(169, 254, 1, 1), true));
    assert!(!is_addr_allowed(Ip::V4(100, 64, 0, 1), true));
    assert!(!is_addr_allowed(Ip::V4(0, 0, 0, 0), true));
    assert!(!is_addr_allowed(Ip::V6(0, 0, 0, 0, 0, 0, 0, 1), true));
    assert!(!is_addr_allowed(Ip::V6(0xfc00, 0, 0, 0, 0, 0, 0, 1), true));
    assert!(!is_addr_allowed(Ip::V6(0xfe80, 0, 0, 0, 0, 0, 0, 1), true));
    assert!(!is_addr_allowed(Ip::V6(0, 0, 0, 0, 0, 0xffff, 0x7f00, 1), true));
}

#[test]
fn sandbox_blocks_public_by_default() {
    assert!(!is_addr_allowed(Ip::V4(8, 8, 8, 8), false));
    assert!(is_addr_allowed(Ip::V4(8, 8, 8, 8), true));
}

#[test]
fn sandbox_edges() {
    assert!(!is_addr_allowed(Ip::V6(0xfebf, 0, 0, 0, 0, 0, 0, 1), true));
    assert!(is_addr_allowed(Ip::V6(0xfec0, 0, 0, 0, 0, 0, 0, 1), true));
    assert!(!is_addr_allowed(Ip::V6(0xfdff, 0, 0, 0, 0, 0, 0, 1), true));
    assert!(!is_addr_allowed(Ip::V6(0xff02, 0, 0, 0, 0, 0, 0, 1), true));
    assert!(!is_addr_allowed(Ip::V6(0, 0, 0, 0, 0, 0, 0, 0), true));
    assert!(is_addr_allowed(Ip::V6(0x2606, 0x4700, 0, 0, 0, 0, 0, 0x1111), true));
    assert!(is_addr_allowed(Ip::V6(0, 0, 0, 0, 0, 0xffff, 0x0808, 0x0808), true));
    assert!(!is_addr_allowed(Ip::V4(224, 0, 0, 1), true));
    assert!(!is_addr_allowed(Ip::V4(255, 255, 255, 255), true));
    assert!(is_addr_allowed(Ip::V4(172, 32, 0, 1), true));
    assert!(is_addr_allowed(Ip::V4(100, 128, 0, 1), true));
}

fn agent(cfg: WebFetchConfig) -> WebFetchAgent {
    WebFetchAgent::new(cfg)
}

#[test]
fn rejects_invalid_args() {
    let a = agent(WebFetchConfig::default());
    let err = a.begin(&value("{}")).unwrap_err();
    assert!(matches!(&err, AgentError::InvalidArguments(_)));
    assert_eq!(err.message(), "invalid arguments: `url` (string) is required");
    let err = a.begin(&value("\"not-an-object\"")).unwrap_err();
    assert!(matches!(&err, AgentError::InvalidArguments(_)));
    assert_eq!(err.message(), "invalid arguments: arguments must be a JSON object");
}

#[test]
fn rejects_unsupported_scheme() {
    let a = agent(WebFetchConfig::default());
    let err = a.begin(&value(r#"{"url": "file:///etc/passwd"}"#)).unwrap_err();
    assert!(matches!(&err, AgentError::InvalidArguments(_)));
    assert_eq!(
        err.message(),
        "invalid arguments: unsupported scheme `file` (only http and https are accepted)"
    );
}

#[test]
fn rejects_text_that_is_no_address() {
    let a = agent(WebFetchConfig::default());
    let err = a.begin(&value(r#"{"url": "no address"}"#)).unwrap_err();
    assert_eq!(
        err.message(),
        "invalid arguments: url parse: relative URL without a base"
    );
}

#[test]
fn rejects_sandbox_denied_host() {
    let cfg = WebFetchConfig::default();
    let a = agent(cfg.clone());
    let plan = a.begin(&value(r#"{"url": "http://10.0.0.1/"}"#)).unwrap();
    assert_eq!(plan.host, "10.0.0.1");
    assert_eq!(plan.port, 80);
    let mut run = FetchRun::new(&cfg, plan);
    match run.step(Happened::Resolved(vec![Ip::V4(10, 0, 0, 1)])) {
        Todo::Finish(Err(AgentError::SandboxDenied(m))) => assert_eq!(
            m,
            "host `10.0.0.1` resolves to a disallowed address (10.0.0.1:80)"
        ),
        other => panic!("expected SandboxDenied, got {other:?}"),
    }
}

#[test]
fn rejects_host_not_in_allowlist() {
    let cfg = WebFetchConfig {
        allowlist: vec!["allowed.example".into()],
        ..WebFetchConfig::default()
    };
    let a = agent(cfg);
    let err = a.begin(&value(r#"{"url": "http://evil.com/"}"#)).unwrap_err();
    match err {
        AgentError::SandboxDenied(m) => {
            assert_eq!(m, "host `evil.com` is not in WEB_FETCH_ALLOWLIST")
        }
        other => panic!("expected SandboxDenied, got {other:?}"),
    }
}

#[test]
fn plan_clamps_budget_and_timeout() {
    let cfg = WebFetchConfig {
        max_bytes: 50_000,
        timeout_ms: 5_000,
        ..WebFetchConfig::default()
    };
    let a = agent(cfg);
    let p = a
        .begin(&value(r#"{"url": "HTTPS://Example.com", "max_bytes": 10, "timeout_ms": 1}"#))
        .unwrap();
    assert_eq!(p.url, "https://example.com/");
    assert_eq!((p.port, p.budget, p.timeout_ms), (443, 1024, 1000));
    let p = a
        .begin(&value(r#"{"url": "http://a.b:8080/x", "max_bytes": 99999, "timeout_ms": 60000}"#))
        .unwrap();
    assert_eq!((p.port, p.budget, p.timeout_ms), (8080, 50_000, 5_000));
    let p = a.begin(&value(r#"{"url": "http://a.b", "max_bytes": "x"}"#)).unwrap();
    assert_eq!((p.port, p.budget, p.timeout_ms), (80, 50_000, 5_000));
    assert!(!p.on_list);
}

#[test]
fn plan_takes_the_parts_of_the_address() {
    let a = agent(WebFetchConfig { max_bytes: 4096, ..WebFetchConfig::default() });
    let args = FetchArgs { url: "x".into(), max_bytes: None, timeout_ms: None };
    let parts = UrlParts {
        scheme: "http".into(),
        host: Some("h".into()),
        port: None,
        text: "http://h/".into(),
    };
    let p = a.plan(&args, Ok(parts.clone())).unwrap();
    assert_eq!((p.url.as_str(), p.host.as_str(), p.port), ("http://h/", "h", 443));
    let err = a.plan(&args, Ok(UrlParts { host: None, ..parts.clone() })).unwrap_err();
    assert_eq!(err.message(), "invalid arguments: url has no host");
    let err = a.plan(&args, Err("bad".into())).unwrap_err();
    assert_eq!(err.message(), "invalid arguments: url parse: bad");
}

#[test]
fn arguments_are_read() {
    let a = parse_args(&value(r#"{"url": "u", "max_bytes": 7, "timeout_ms": -1}"#)).unwrap();
    assert_eq!(a, FetchArgs { url: "u".into(), max_bytes: Some(7), timeout_ms: None });
}

#[test]
fn html_extraction_basic() {
    let html = r#"<!doctype html><html><head><title>Example</title></head><body>
<h1>Hello</h1>
<p>This is a <b>test</b> page.</p>
<ul><li>One</li><li>Two</li></ul>
<script>alert('drop me');</script>
<a href="https://example.com">A link</a>
</body></html>"#;
    let (title, text) = extract_html_text(html);
    assert_eq!(title, "Example");
    assert!(text.contains("Hello"));
    assert!(text.contains("This is a test page."));
    assert!(text.contains("- One"));
    assert!(text.contains("- Two"));
    assert!(text.contains("https://example.com"));
    assert!(!text.contains("alert"));
}

#[test]
fn html_extraction_preserves_pre_blocks() {
    let html = "<pre>line1\nline2\n  indented</pre>";
    let (_t, text) = extract_html_text(html);
    assert!(text.contains("line1"));
    assert!(text.contains("line2"));
    assert!(text.contains("  indented"));
}

#[test]
fn html_extraction_drops_style_and_keeps_links() {
    let html = "<STYLE>p { color: red }</STYLE><p>a</p><p>b <a href='/x'>c</a></p>";
    let (title, text) = extract_html_text(html);
    assert_eq!(title, "");
    assert_eq!(text, "a\n\nb (/x)c");
}

#[test]
fn truncate_splits_on_char_boundary() {
    let s = "héllo"; // é is 2 bytes
    let t = truncate(s, 3);
    assert!(t.starts_with("h"));
    assert!(t.ends_with("…[truncated]"));
    assert_eq!(truncate(s, 2), "h\n…[truncated]");
    assert_eq!(truncate(s, 6), "héllo");
}

#[test]
fn budget_progression_doubles_until_server_cap() {
    let server_cap: usize = 2 * 1024 * 1024;
    let mut budget: usize = 10 * 1024;
    let mut iterations = 0;
    while let Some(next) = next_budget(budget, server_cap) {
        budget = next;
        iterations += 1;
        if iterations > 20 {
            panic!("doubling did not converge within 20 rounds");
        }
    }
    assert_eq!(budget, server_cap);
    assert_eq!(iterations, 8);
}

#[test]
fn budget_progression_handles_already_at_cap() {
    let server_cap: usize = 4096;
    let budget: usize = server_cap;
    assert!(
        next_budget(budget, server_cap).is_none(),
        "a budget at the cap must not grow"
    );
    assert!(next_budget(usize::MAX, usize::MAX).is_none());
}

#[test]
fn bytes_are_told_with_one_decimal() {
    assert_eq!(format_bytes(0), "0 B");
    assert_eq!(format_bytes(1023), "1023 B");
    assert_eq!(format_bytes(1024), "1.0 KB");
    assert_eq!(format_bytes(1536), "1.5 KB");
    assert_eq!(format_bytes(1280), "1.2 KB");
    assert_eq!(format_bytes(1048575), "1024.0 KB");
    assert_eq!(format_bytes(1048576), "1.0 MB");
    assert_eq!(format_bytes(5 << 30), "5.0 GB");
    for n in [1025usize, 1100, 1331, 99_999, 123_456_789, 9_007_199_254_740_993, usize::MAX] {
        let units = ["B", "KB", "MB", "GB"];
        let mut size = n as f64;
        let mut unit = 0;
        while size >= 1024.0 && unit < 3 {
            size /= 1024.0;
            unit += 1;
        }
        assert_eq!(format_bytes(n), format!("{:.1} {}", size, units[unit]));
    }
}

fn open_run(cfg: &WebFetchConfig, args: &str) -> FetchRun {
    let a = agent(cfg.clone());
    let plan = a.begin(&value(args)).unwrap();
    let mut run = FetchRun::new(cfg, plan);
    let todo = run.step(Happened::Resolved(vec![Ip::V4(127, 0, 0, 1)]));
    assert!(matches!(todo, Todo::Get));
    run
}

fn responded() -> Happened {
    Happened::Responded {
        status: 200,
        final_url: "http://fixture/".into(),
        content_type: "text/html; charset=utf-8".into(),
    }
}

/// Serve `page` to a fetch in chunks until it asks for nothing more.
fn serve(run: &mut FetchRun, page: &[u8]) -> (Result<String, AgentError>, usize) {
    let mut attempts = 0;
    loop {
        attempts += 1;
        assert!(attempts < 50);
        assert!(matches!(run.step(responded()), Todo::ReadChunk));
        let mut again = false;
        for chunk in page.chunks(1000) {
            match run.step(Happened::Chunk(chunk.to_vec())) {
                Todo::ReadChunk => {}
                Todo::Get => {
                    again = true;
                    break;
                }
                Todo::Finish(r) => return (r, attempts),
                other => panic!("unexpected {other:?}"),
            }
        }
        if !again {
            match run.step(Happened::Ended) {
                Todo::Finish(r) => return (r, attempts),
                other => panic!("unexpected {other:?}"),
            }
        }
    }
}

fn open_to_all() -> WebFetchConfig {
    WebFetchConfig {
        allow_public: true,
        allowlist: vec!["*".into()],
        ..WebFetchConfig::default()
    }
}

#[test]
fn web_fetch_invoke_succeeds_against_loopback() {
    let page = "<html><head><title>Fixture</title></head>".to_string()
        + "<body><h1>Hi</h1><p>Hello world.</p></body></html>";
    let cfg = open_to_all();
    let mut run = open_run(&cfg, r#"{"url": "http://127.0.0.1:80/"}"#);
    let (r, attempts) = serve(&mut run, page.as_bytes());
    let parsed = value(&r.unwrap());
    assert_eq!(attempts, 1);
    assert_eq!(text_at(&parsed, "title"), "Fixture");
    assert!(text_at(&parsed, "text").contains("Hello world."));
    assert_eq!(text_at(&parsed, "url"), "http://127.0.0.1/");
    assert_eq!(text_at(&parsed, "final_url"), "http://fixture/");
    assert_eq!(text_at(&parsed, "content_type"), "text/html; charset=utf-8");
    assert_eq!(text_at(&parsed, "summary"), format!("Fixture — {} B", page.len()));
    assert_eq!(parsed.get("status").unwrap().as_u64(), Some(200));
}

#[test]
fn web_fetch_adaptive_retry_fetches_larger_pages() {
    let page = format!(
        "<html><head><title>Big</title></head><body>{}</body></html>",
        "x".repeat(80_000)
    );
    let cfg = open_to_all();
    let mut run = open_run(&cfg, r#"{"url": "http://127.0.0.1/", "max_bytes": 10000}"#);
    let (r, attempts) = serve(&mut run, page.as_bytes());
    let parsed = value(&r.unwrap());
    // 10 000, 20 000, 40 000, 80 000, 160 000.
    assert_eq!(attempts, 5);
    assert_eq!(text_at(&parsed, "title"), "Big");
    assert!(text_at(&parsed, "text").len() >= 70_000);
}

#[test]
fn web_fetch_adaptive_retry_caps_at_server_limit() {
    let page = "x".repeat(200_000);
    let cfg = WebFetchConfig { max_bytes: 50 * 1024, ..open_to_all() };
    let mut run = open_run(&cfg, r#"{"url": "http://127.0.0.1/", "max_bytes": 1024}"#);
    let (r, _) = serve(&mut run, page.as_bytes());
    let msg = r.unwrap_err().message();
    assert!(msg.contains("exceeded max_bytes") && msg.contains("server cap"), "{msg}");
    assert_eq!(
        msg,
        "agent failed: response exceeded max_bytes=51200 (server cap); page did not fit"
    );
}

#[test]
fn plain_text_is_kept_and_cut() {
    let cfg = open_to_all();
    let mut run = open_run(&cfg, r#"{"url": "http://h.example/"}"#);
    run.step(Happened::Responded {
        status: 204,
        final_url: "f".into(),
        content_type: "text/plain".into(),
    });
    run.step(Happened::Chunk(vec![b'<', 0xff, b'>']));
    run.step(Happened::Chunk(vec![b'y'; 102_400]));
    match run.step(Happened::Ended) {
        Todo::Finish(Ok(s)) => {
            let parsed = value(&s);
            let text = text_at(&parsed, "text");
            assert!(text.starts_with("<\u{FFFD}>yyy"));
            assert!(text.ends_with("\n…[truncated]"));
            assert_eq!(text_at(&parsed, "title"), "");
            assert_eq!(text_at(&parsed, "summary"), "h.example — 100.0 KB");
        }
        other => panic!("unexpected {other:?}"),
    }
}

#[test]
fn failures_of_a_fetch_are_told() {
    let cfg = open_to_all();
    let args = r#"{"url": "http://h.example/"}"#;
    let mut run = open_run(&cfg, args);
    run.step(Happened::Responded { status: 404, final_url: "f".into(), content_type: "".into() });
    match run.step(Happened::ErrorText("z".repeat(3000))) {
        Todo::Finish(Err(AgentError::Upstream { status, body })) => {
            assert_eq!(status, 404);
            assert_eq!(body, format!("{}\n…[truncated]", "z".repeat(2048)));
        }
        other => panic!("unexpected {other:?}"),
    }
    let cases: Vec<(Happened, &str)> = vec![
        (Happened::ConnectFailed("e".into()), "agent failed: connect/read failed: e"),
        (Happened::ReadFailed("e".into()), "agent failed: read body: e"),
        (Happened::ResolveFailed("e".into()), "agent failed: dns resolve: e"),
        (Happened::Resolved(vec![]), "agent failed: dns returned no addresses"),
    ];
    for (h, told) in cases {
        let mut run = open_run(&cfg, args);
        match run.step(h) {
            Todo::Finish(Err(e)) => assert_eq!(e.message(), told),
            other => panic!("unexpected {other:?}"),
        }
    }
}

#[test]
fn a_status_that_is_no_success_is_read_as_text() {
    let cfg = open_to_all();
    for status in [199u16, 300, 404, 500] {
        let mut run = open_run(&cfg, r#"{"url": "http://h.example/"}"#);
        let todo =
            run.step(Happened::Responded { status, final_url: "f".into(), content_type: "".into() });
        assert!(matches!(todo, Todo::ReadText), "{status}");
    }
}

#[test]
fn web_fetch_name_and_schema() {
    let a = agent(WebFetchConfig { timeout_ms: 10, ..WebFetchConfig::default() });
    assert_eq!(a.name(), "web_fetch");
    assert_eq!(a.connect_timeout_ms(), 1000);
    let schema = a.parameters_schema();
    assert_eq!(text_at(&schema, "type"), "object");
    let required = schema.get("required").unwrap().as_array().unwrap();
    assert_eq!(required.len(), 1);
    assert_eq!(required[0].as_str(), Some("url"));
    let max = schema.get("properties").unwrap().get("max_bytes").unwrap();
    assert_eq!(max.get("minimum").unwrap().as_u64(), Some(1024));
    assert!(a.description().starts_with("Fetch a public URL"));
}

#[test]
fn text_comes_out_in_its_own_characters() {
    assert_eq!(extract_html_text("<p>é</p>"), ("".to_string(), "é".to_string()));
    assert_eq!(extract_html_text("à"), ("".to_string(), "à".to_string()));
    let plain = "Déjà vu: \u{1F600} & 1 > 0";
    assert_eq!(extract_html_text(plain), ("".to_string(), plain.to_string()));
    let (title, text) = extract_html_text("<title>Été</title><pre>ç\n  à</pre>");
    assert_eq!(title, "Été");
    assert_eq!(text, "ç\n  à");
}

#[test]
fn sources_are_written_out() {
    let (_, text) = extract_html_text("a <img alt=x src=\"/p.png\"> b <iframe src='u'></iframe>");
    assert_eq!(text, "a (/p.png) b (u)");
    let (_, text) = extract_html_text("<!--src=x-->a<?x href=y?>b<a href=\"/u\">c</a href=z>");
    assert_eq!(text, "ab(/u)c");
    let (_, text) = extract_html_text("<area href=\"m\" src=\"n\">d");
    assert_eq!(text, "(m)(n)d");
    let (_, text) = extract_html_text("<script src=\"s.js\"></script><img src=\"\"><b>c</b>");
    assert_eq!(text, "c");
}

#[test]
fn asking_for_less_changes_nothing() {
    let cfg = WebFetchConfig { max_bytes: 4096, ..open_to_all() };
    for size in [0, 1024, 1025, 4096, 4097, 9000] {
        let page = "é".repeat(size / 2) + &"x".repeat(size % 2);
        let outcomes: Vec<String> = ["", r#", "max_bytes": 1"#, r#", "max_bytes": 2000"#, r#", "max_bytes": 99999"#]
            .iter()
            .map(|asked| {
                let args = format!(r#"{{"url": "http://127.0.0.1/"{asked}}}"#);
                let mut run = open_run(&cfg, &args);
                match serve(&mut run, page.as_bytes()).0 {
                    Ok(s) => s,
                    Err(e) => e.message(),
                }
            })
            .collect();
        assert!(outcomes.iter().all(|o| *o == outcomes[0]), "{size}");
        assert_eq!(outcomes[0].contains("exceeded max_bytes=4096"), size > 4096, "{size}");
    }
}
