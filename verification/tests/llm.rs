use nagent::agents::{AgentError, AgentRegistry, BuiltIn};
use nagent::config::{AgentConfig, LlmConfig};
use nagent::http::{BodyType, Caching, Reply};
use nagent::json;
use nagent::json::Json;
use nagent::llm::{
    agent_invoke, agents_list, auth_header, chat_completions, chat_failure, checked_plan,
    invoke_reply, models_list, read_request, stream_headers, strip_user_location_if_disabled,
    upstream_url, ChatRequest, LlmError, ModelsOutcome, ModelsReply, UpstreamFailure,
};
use nagent::llm_prompt::{
    inject_default_system_prompt, DEFAULT_SYSTEM_PROMPT, USER_LOCATION_MARKER,
};
use serde_json::Value;

fn value(s: &str) -> Json {
    json::parse(s).unwrap()
}

fn plain(j: &Json) -> Value {
    json::to_value(j)
}

fn body_with_loc_marker() -> Json {
    value(&format!(
        r#"{{
            "messages": [
                {{ "role": "system", "content": "admin prompt" }},
                {{
                    "role": "system",
                    "content": "{USER_LOCATION_MARKER} lat=48.85, lon=2.35 (±65 m, captured 2026-09-26T14:05Z)."
                }},
                {{ "role": "user", "content": "what's the weather?" }}
            ]
        }}"#
    ))
}

#[test]
fn strip_user_location_keeps_block_when_allowed() {
    let mut body = body_with_loc_marker();
    let snapshot = plain(&body);
    strip_user_location_if_disabled(&mut body, true);
    assert_eq!(plain(&body), snapshot, "allow=true must be a pure no-op");
}

#[test]
fn strip_user_location_drops_only_the_marker_block_when_disabled() {
    let mut body = body_with_loc_marker();
    strip_user_location_if_disabled(&mut body, false);
    let body = plain(&body);
    let messages = body["messages"].as_array().expect("messages array");
    assert_eq!(messages.len(), 2, "location block must be removed");
    assert_eq!(messages[0]["role"], "system");
    assert_eq!(messages[0]["content"], "admin prompt");
    assert_eq!(messages[1]["role"], "user");
}

#[test]
fn strip_user_location_is_a_noop_without_marker_block() {
    let mut body = value(
        r#"{
            "messages": [
                { "role": "system", "content": "admin" },
                { "role": "user", "content": "hi" }
            ]
        }"#,
    );
    let snapshot = plain(&body);
    strip_user_location_if_disabled(&mut body, false);
    assert_eq!(plain(&body), snapshot);
}

#[test]
fn strip_user_location_does_not_touch_non_system_or_multimodal_messages() {
    let mut body = value(&format!(
        r#"{{
            "messages": [
                {{
                    "role": "system",
                    "content": [
                        {{ "type": "text", "text": "{USER_LOCATION_MARKER} multimodal" }}
                    ]
                }},
                {{
                    "role": "user",
                    "content": [
                        {{ "type": "text", "text": "{USER_LOCATION_MARKER} user-side" }}
                    ]
                }}
            ]
        }}"#
    ));
    let snapshot = plain(&body);
    strip_user_location_if_disabled(&mut body, false);
    assert_eq!(
        plain(&body),
        snapshot,
        "non-string content must never be stripped by the kill-switch"
    );
}

#[test]
fn inject_appends_to_empty_messages() {
    let mut body = value(r#"{ "messages": [] }"#);
    inject_default_system_prompt(&mut body, Some("hello"));
    assert_eq!(
        plain(&body)["messages"],
        plain(&value(r#"[{ "role": "system", "content": "hello" }]"#))
    );
}

#[test]
fn inject_prepends_to_existing_messages() {
    let mut body = value(
        r#"{
            "messages": [
                { "role": "user", "content": "what time is it?" },
                { "role": "assistant", "content": "let me check" }
            ]
        }"#,
    );
    inject_default_system_prompt(&mut body, Some("server prompt"));
    let body = plain(&body);
    let messages = body["messages"].as_array().expect("array");
    assert_eq!(messages.len(), 3);
    assert_eq!(messages[0]["role"], "system");
    assert_eq!(messages[0]["content"], "server prompt");
    assert_eq!(messages[1]["role"], "user");
    assert_eq!(messages[2]["role"], "assistant");
}

#[test]
fn inject_does_not_remove_client_system_messages() {
    let mut body = value(
        r#"{
            "messages": [
                { "role": "system", "content": "client extension" },
                { "role": "user", "content": "hi" }
            ]
        }"#,
    );
    inject_default_system_prompt(&mut body, Some("admin"));
    let body = plain(&body);
    let messages = body["messages"].as_array().expect("array");
    assert_eq!(messages.len(), 3);
    assert_eq!(messages[0]["role"], "system");
    assert_eq!(messages[0]["content"], "admin");
    assert_eq!(messages[1]["role"], "system");
    assert_eq!(messages[1]["content"], "client extension");
    assert_eq!(messages[2]["role"], "user");
}

#[test]
fn inject_skipped_when_prompt_is_none() {
    let mut body = value(r#"{ "messages": [{ "role": "user", "content": "hi" }] }"#);
    let original = plain(&body);
    inject_default_system_prompt(&mut body, None);
    assert_eq!(plain(&body), original, "body must be unchanged when prompt is None");
}

#[test]
fn inject_skipped_when_prompt_is_whitespace_only() {
    for ws in ["", " ", "\n", "  \t\n  "] {
        let mut body = value(r#"{ "messages": [{ "role": "user", "content": "hi" }] }"#);
        let original = plain(&body);
        inject_default_system_prompt(&mut body, Some(ws));
        assert_eq!(
            plain(&body),
            original,
            "body must be unchanged when prompt is whitespace-only ({ws:?})"
        );
    }
}

#[test]
fn inject_trims_prompt_before_injection() {
    let mut body = value(r#"{ "messages": [] }"#);
    inject_default_system_prompt(&mut body, Some("  hello\n"));
    assert_eq!(plain(&body)["messages"][0]["content"], "hello");
}

#[test]
fn inject_no_op_when_messages_missing() {
    let mut body = value("{}");
    let original = plain(&body);
    inject_default_system_prompt(&mut body, Some("admin"));
    assert_eq!(plain(&body), original);
}

#[test]
fn inject_no_op_when_body_is_not_an_object() {
    let mut body = value("\"not an object\"");
    let original = plain(&body);
    inject_default_system_prompt(&mut body, Some("admin"));
    assert_eq!(plain(&body), original);
}

#[test]
fn default_prompt_nudges_short_weather_reply() {
    let prompt = DEFAULT_SYSTEM_PROMPT;
    assert!(
        prompt.contains("get_weather")
            && prompt.contains("weather card")
            && prompt.contains("acknowledgment")
            && (prompt.contains("Voici les informations")
                || prompt.contains("Here are the details")),
        "the prompt asks for a brief acknowledgment beside the weather card"
    );
}

#[test]
fn default_prompt_forbids_fabricating_tool_data() {
    let prompt = DEFAULT_SYSTEM_PROMPT;
    assert!(
        prompt.contains("NEVER invent")
            && prompt.contains("weather")
            && prompt.contains("current date")
            && prompt.contains("stock"),
        "the prompt forbids invented facts"
    );
    assert!(
        !prompt.contains("Do not call tools for general knowledge you can answer directly"),
        "the prompt does not excuse skipping a tool"
    );
}

fn proxy() -> LlmConfig {
    LlmConfig {
        enabled: true,
        base_url: "http://up/".into(),
        default_model: "llama3.1".into(),
        api_key: None,
        cors_allow_origins: vec![],
        system_prompt: None,
        allow_user_location: true,
        request_timeout_secs: 120,
    }
}

#[test]
fn a_chat_request_goes_on() {
    let body = br#"{"messages":[{"role":"user","content":"hi"}],"stream":true,"tools":[1]}"#;
    let cfg = LlmConfig { system_prompt: Some(" be brief ".into()), ..proxy() };
    let plan = chat_completions(Some(&cfg), None, body, vec![Json::Bool(true)], None).unwrap();
    assert_eq!(plan.url, "http://up/v1/chat/completions");
    assert_eq!(plan.content_type, b"application/json");
    assert_eq!(plan.authorization, None);
    let sent = plain(&plan.body);
    assert_eq!(sent["model"], "llama3.1");
    assert_eq!(sent["stream"], true);
    assert_eq!(sent["messages"][0]["content"], "be brief");
    assert_eq!(sent["messages"][1]["content"], "hi");
    assert_eq!(sent["tools"][0], true);
    assert_eq!(sent["tools"][1], 1);
}

#[test]
fn forwards_bearer_when_key_set() {
    let cfg = LlmConfig { api_key: Some("secret-token".into()), ..proxy() };
    assert_eq!(auth_header(&cfg).as_deref(), Some("Bearer secret-token"));
    let plan = chat_completions(
        Some(&cfg),
        None,
        br#"{"messages":[],"stream":true,"model":"other"}"#,
        vec![],
        Some(b"application/json; x".to_vec()),
    )
    .unwrap();
    assert_eq!(plan.authorization.as_deref(), Some("Bearer secret-token"));
    assert_eq!(plan.content_type, b"application/json; x");
    assert_eq!(plain(&plan.body)["model"], "other");
}

#[test]
fn upstream_non_2xx_is_surfaced_verbatim() {
    let e = chat_failure(UpstreamFailure::Refused {
        status: 404,
        body: r#"{"error":"model not found"}"#.into(),
    });
    let r = e.into_response();
    assert_eq!(r.status, 404);
    assert!(r.body.contains("model not found"));
    let e = chat_failure(UpstreamFailure::Refused { status: 42, body: "".into() });
    assert_eq!(e.into_response().status, 502);
    let e = chat_failure(UpstreamFailure::Unreachable("down".into()));
    assert_eq!(e, LlmError::BadRequest("upstream connect failed: down".into()));
}

fn refused(r: Result<nagent::llm::ChatPlan, LlmError>) -> Reply {
    r.unwrap_err().into_response()
}

#[test]
fn rejects_non_streaming_request() {
    let cfg = proxy();
    let body = br#"{"messages":[],"stream":false}"#;
    assert_eq!(refused(chat_completions(Some(&cfg), None, body, vec![], None)).status, 400);
    for body in [&br#"{"messages":[]}"#[..], br#"{"messages":[],"stream":null}"#] {
        let r = refused(chat_completions(Some(&cfg), None, body, vec![], None));
        assert_eq!(r.status, 400);
        assert!(r.body.contains("missing `stream` field"));
    }
    for body in [
        &br#"{"messages":[],"stream":1}"#[..],
        br#"{"messages":[],"stream":true,"model":7}"#,
        b"{",
    ] {
        let r = refused(chat_completions(Some(&cfg), None, body, vec![], None));
        assert_eq!(r.status, 400);
        assert!(r.body.contains("invalid json body: "));
    }
    let fine = br#"{"messages":[],"stream":true}"#;
    let r = refused(chat_completions(Some(&cfg), Some("twice".into()), fine, vec![], None));
    assert_eq!(r.status, 400);
    assert!(r.body.contains("invalid json body: twice"));
}

#[test]
fn a_request_without_messages_is_refused() {
    let cfg = proxy();
    for body in [&br#"{"stream":true}"#[..], br#"{"messages":"hi","stream":true}"#, b"[[],true]"] {
        let r = refused(chat_completions(Some(&cfg), None, body, vec![], None));
        assert_eq!(r.status, 400);
        assert!(r.body.contains("missing field `messages`"));
    }
    let mut body = Json::object();
    body.set("stream", Json::Bool(true));
    assert!(checked_plan(&cfg, body.copy(), vec![], None).is_err());
    body.set("messages", Json::Array(vec![]));
    body.set("model", Json::text("m"));
    assert_eq!(
        read_request(&body).unwrap(),
        ChatRequest { stream: Some(true), model: Some("m".into()) }
    );
    let plan = checked_plan(&cfg, body, vec![], None).unwrap();
    assert_eq!(plain(&plan.body)["model"], "m");
}

#[test]
fn models_list_proxies_upstream() {
    let cfg = proxy();
    let bytes = br#"{"data":[{"id":"llama3.1"}]}"#.to_vec();
    match models_list(Some(&cfg), ModelsOutcome::Listed(bytes.clone())).unwrap() {
        ModelsReply::Verbatim(b) => assert_eq!(b, bytes),
        other => panic!("unexpected {other:?}"),
    }
    match models_list(Some(&cfg), ModelsOutcome::Unreachable).unwrap() {
        ModelsReply::Own(r) => {
            let v: Value = serde_json::from_str(&r.body).unwrap();
            assert_eq!(v["data"][0]["id"], "llama3.1");
            assert_eq!(r.caching, Caching::NoStore);
        }
        other => panic!("unexpected {other:?}"),
    }
}

#[test]
fn disabled_returns_404_on_v1_routes() {
    assert_eq!(
        refused(chat_completions(None, None, b"{}", vec![], None)).status,
        404
    );
    let r = models_list(None, ModelsOutcome::Unreachable).unwrap_err().into_response();
    assert_eq!(r.status, 404);
}

fn registry() -> AgentRegistry {
    let on = AgentConfig { enabled: true, ..AgentConfig::default() };
    AgentRegistry::from_config(
        &on,
        BuiltIn { web: true, datetime: false, weather: false, stock: false },
    )
}

#[test]
fn agents_list_returns_web_fetch_when_feature_enabled() {
    let r = agents_list(Some(&registry())).unwrap();
    assert_eq!(r.status, 200);
    assert_eq!(r.body_type, BodyType::JsonText);
    let v: Value = serde_json::from_str(&r.body).unwrap();
    assert_eq!(v["data"][0]["name"], "web_fetch");
    let r = agents_list(Some(&AgentRegistry::empty())).unwrap();
    let v: Value = serde_json::from_str(&r.body).unwrap();
    assert!(v["data"].as_array().unwrap().is_empty());
}

#[test]
fn agents_list_404s_when_disabled() {
    assert_eq!(agents_list(None).unwrap_err().into_response().status, 404);
}

#[test]
fn web_fetch_invoke_unknown_agent_404s() {
    let r = agent_invoke(Some(&registry()), "nonexistent", br#"{"arguments":{}}"#);
    assert_eq!(r.unwrap_err().into_response().status, 404);
    assert_eq!(
        agent_invoke(None, "web_fetch", b"{}").unwrap_err().into_response().status,
        404
    );
}

#[test]
fn web_fetch_invoke_invalid_args_400s() {
    let args = agent_invoke(Some(&registry()), "web_fetch", br#"{"arguments":{}}"#).unwrap();
    let agent = nagent::agents::web_fetch::WebFetchAgent::new(Default::default());
    let err = agent.begin(&args).unwrap_err();
    let r = invoke_reply("web_fetch", Err(err)).unwrap_err().into_response();
    assert_eq!(r.status, 400);
    let r = agent_invoke(Some(&registry()), "web_fetch", b"{").unwrap_err().into_response();
    assert_eq!(r.status, 400);
}

#[test]
fn results_of_an_agent_become_replies() {
    let r = invoke_reply("n", Ok("{\"a\":1}".into())).unwrap();
    assert_eq!(r.status, 200);
    assert!(r.body.contains("\"n\""));
    let status = |e: AgentError| invoke_reply("n", Err(e)).unwrap_err().into_response().status;
    assert_eq!(status(AgentError::SandboxDenied("x".into())), 400);
    assert_eq!(status(AgentError::AgentFailed("x".into())), 502);
    assert_eq!(status(AgentError::Upstream { status: 503, body: "x".into() }), 502);
    assert_eq!(status(AgentError::ResponseExceeded { budget: 5 }), 400);
    let told = invoke_reply("n", Err(AgentError::Upstream { status: 503, body: "x".into() }));
    assert_eq!(told.unwrap_err().into_response().body, "upstream returned 503: x");
}

#[test]
fn addresses_have_one_slash() {
    assert_eq!(upstream_url("http://a", "/v1/models"), "http://a/v1/models");
    assert_eq!(upstream_url("http://a/", "/v1/models"), "http://a/v1/models");
}

#[test]
fn streamed_answers_are_not_held_back() {
    let got: Vec<(&str, &str)> = stream_headers().iter().map(|h| (h.name, h.value)).collect();
    assert_eq!(
        got,
        [
            ("content-type", "text/event-stream"),
            ("cache-control", "no-cache"),
            ("x-accel-buffering", "no"),
        ]
    );
}
