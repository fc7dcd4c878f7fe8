use nagent::config::{Env, LlmConfig};
use nagent::http::{is_success, Caching};
use nagent::middleware::{
    cors_layer, nosniff_layer, referrer_policy_layer, security_headers_layer,
};
use nagent::server::build_router;
use nagent::static_assets::{mime_for, StaticAssets};
use nagent::version::{backend_version, frontend_version, version_handler, VersionInfo};
use nagent::ws_handler::healthz;

#[test]
fn backend_version_matches_cargo_pkg() {
    let v = backend_version();
    assert!(!v.is_empty(), "backend version must not be empty");
    assert!(
        v.chars().all(|c| c.is_ascii_digit() || c == '.' || c == '-' || c.is_ascii_alphabetic()),
        "backend version `{v}` has unexpected characters"
    );
}

#[test]
fn frontend_version_is_stable_hex() {
    let v = frontend_version(&page_files());
    assert_eq!(v.len(), 16, "frontend hash length unexpected: {v:?}");
    assert!(
        v.chars().all(|c| c.is_ascii_hexdigit()),
        "frontend hash `{v}` contains non-hex characters"
    );
}

#[test]
fn current_version_is_self_consistent() {
    let info = VersionInfo::current(&page_files());
    assert_eq!(info.backend, backend_version());
    assert_eq!(info.frontend, frontend_version(&page_files()));
}

fn page_files() -> StaticAssets {
    StaticAssets {
        files: vec![
            ("index.html".to_string(), b"<p>".to_vec()),
            ("a.js".to_string(), b"1".to_vec()),
            ("version.txt".to_string(), b"stale".to_vec()),
            ("a/b.js".to_string(), b"2".to_vec()),
        ],
    }
}

#[test]
fn embedded_version_txt_matches_runtime_hash() {
    let mut assets = page_files();
    assets.stamp();
    let on_disk = String::from_utf8(assets.get("version.txt").unwrap().clone()).unwrap();
    assert_eq!(frontend_version(&assets), on_disk.trim());
    let info = VersionInfo::current(&assets);
    assert_eq!(assets.get("version.txt"), Some(&info.frontend.as_bytes().to_vec()));
    assert_eq!(assets.files.iter().filter(|f| f.0 == "version.txt").count(), 1);
    assert_eq!(info.frontend, page_files().fingerprint());
    assert_eq!(info.backend, backend_version());
}

#[test]
fn fingerprint_is_the_hash_of_paths_and_bytes() {
    assert_eq!(page_files().fingerprint(), "f1e78b0c75dc3e8d");
    assert_eq!(frontend_version(&StaticAssets { files: vec![] }), "e3b0c44298fc1c14");
    let mut changed = page_files();
    changed.files[1].1 = b"3".to_vec();
    assert_ne!(changed.fingerprint(), page_files().fingerprint());
}

#[test]
fn fingerprint_does_not_depend_on_the_listing() {
    let mut other = page_files();
    other.files.reverse();
    assert_eq!(other.fingerprint(), page_files().fingerprint());
}

#[test]
fn api_version_returns_expected_shape() {
    let info = VersionInfo { backend: "b".into(), frontend: "f\"".into() };
    let r = version_handler(&info);
    assert_eq!(r.status, 200);
    assert_eq!(r.caching, Caching::NoStore);
    assert_eq!(r.body, r#"{"backend":"b","frontend":"f\""}"#);
}

#[test]
fn types_of_files() {
    for (path, mime) in [
        ("index.html", "text/html; charset=utf-8"),
        ("a/b.js", "application/javascript; charset=utf-8"),
        ("a.mjs", "application/javascript; charset=utf-8"),
        ("a.css", "text/css; charset=utf-8"),
        ("a.json", "application/json; charset=utf-8"),
        ("a.wasm", "application/wasm"),
        ("a.onnx", "application/octet-stream"),
        ("a.svg", "image/svg+xml"),
        ("a.png", "image/png"),
        ("a.ico", "image/x-icon"),
        ("KaTeX_Main-Regular.woff2", "font/woff2"),
        ("a.txt", "application/octet-stream"),
        ("html", "application/octet-stream"),
    ] {
        assert_eq!(mime_for(path), mime, "{path}");
    }
}

#[test]
fn files_are_served_by_path() {
    let assets = StaticAssets {
        files: vec![
            ("index.html".to_string(), b"<p>".to_vec()),
            ("app.js".to_string(), b"1".to_vec()),
        ],
    };
    assert_eq!(assets.get("app.js"), Some(&b"1".to_vec()));
    assert_eq!(assets.serve("index.html"), ("text/html; charset=utf-8", b"<p>".to_vec()));
    assert_eq!(assets.serve("gone.css"), ("text/css; charset=utf-8", vec![]));
    assert!(assets.get("gone.css").is_none());
}

#[test]
fn security_headers_present_on_root_and_static() {
    let csp = security_headers_layer();
    assert_eq!(csp.name, "content-security-policy");
    for part in [
        "default-src 'self'",
        "script-src 'self' 'wasm-unsafe-eval'",
        "style-src 'self' 'unsafe-inline'",
        "connect-src 'self'",
        "object-src 'none'",
        "frame-ancestors 'none'",
    ] {
        assert!(csp.value.split("; ").any(|p| p == part), "{part}");
    }
    let referrer = referrer_policy_layer();
    assert_eq!((referrer.name, referrer.value), ("referrer-policy", "no-referrer"));
    let nosniff = nosniff_layer();
    assert_eq!((nosniff.name, nosniff.value), ("x-content-type-options", "nosniff"));
}

#[test]
fn cors_preflight_blocked_by_default() {
    let policy = cors_layer(&vec![]);
    assert!(policy.origins.is_empty());
    assert_eq!(policy.max_age_secs, None);
}

#[test]
fn cors_preflight_allowed_when_origin_listed() {
    let policy = cors_layer(&vec!["https://trusted.example".to_string()]);
    assert_eq!(policy.origins, ["https://trusted.example"]);
    assert_eq!(policy.methods, ["GET", "POST", "OPTIONS"]);
    assert_eq!(policy.headers, ["content-type", "authorization"]);
    assert_eq!(policy.max_age_secs, Some(3600));
}

#[test]
fn cors_origins_that_fit_no_header_are_skipped() {
    let policy = cors_layer(&vec!["bad\norigin".to_string(), "https://a".to_string()]);
    assert_eq!(policy.origins, ["https://a"]);
    let policy = cors_layer(&vec!["bad\u{7f}".to_string()]);
    assert!(policy.origins.is_empty());
    assert_eq!(policy.max_age_secs, None);
}

#[test]
fn routes_follow_what_is_turned_on() {
    let mut llm = LlmConfig::from_env(&Env { vars: vec![] }, None).unwrap();
    llm.cors_allow_origins = vec!["https://a".into()];
    let plan = build_router(Some(&llm), true);
    let paths: Vec<&str> = plan.speech.iter().map(|e| e.path()).collect();
    assert_eq!(paths, ["/", "/healthz", "/api/version", "/ws", "/static/*path"]);
    let agents = plan.agents.unwrap();
    assert_eq!(agents.policy.origins, ["https://a"]);
    let paths: Vec<&str> = agents.endpoints.iter().map(|e| e.path()).collect();
    assert_eq!(paths, ["/v1/agents", "/v1/agents/:name/invoke"]);
    assert!(agents.limited);
    let chat = plan.chat.unwrap();
    assert!(chat.limited);
    assert_eq!(chat.policy.origins, ["https://a"]);
    let paths: Vec<&str> = chat.endpoints.iter().map(|e| e.path()).collect();
    assert_eq!(paths, ["/v1/chat/completions", "/v1/models"]);
    let plan = build_router(None, true);
    assert!(plan.agents.unwrap().policy.origins.is_empty());
    assert!(plan.chat.is_none());
    let plan = build_router(Some(&llm), false);
    assert!(plan.agents.is_none());
    assert!(plan.chat.is_some());
    let plan = build_router(None, false);
    assert_eq!(
        plan.headers,
        [security_headers_layer(), referrer_policy_layer(), nosniff_layer()]
    );
    assert!(plan.agents.is_none() && plan.chat.is_none());
    assert_eq!(plan.speech.len(), 5);
}

#[test]
fn http_get_healthz_is_not_rate_limited() {
    let llm = LlmConfig::from_env(&Env { vars: vec![] }, None).unwrap();
    let plan = build_router(Some(&llm), true);
    assert!(plan.speech.iter().any(|e| e.path() == "/healthz"));
    for group in [plan.agents, plan.chat].into_iter().flatten() {
        assert!(group.endpoints.iter().all(|e| e.path() != "/healthz"));
    }
    for _ in 0..5 {
        assert_eq!(healthz(true).status, 200);
    }
}

#[test]
fn cors_invalid_origin_in_allow_list_is_skipped() {
    let policy = cors_layer(&vec!["not a url".to_string(), "".to_string()]);
    assert!(!policy.origins.iter().any(|o| o == "https://attacker.example"));
    let policy = cors_layer(&vec!["no\u{0}header".to_string()]);
    assert!(policy.origins.is_empty());
}

#[test]
fn success_is_two_hundred_and_some() {
    for (status, good) in [(199, false), (200, true), (299, true), (300, false), (404, false)] {
        assert_eq!(is_success(status), good, "{status}");
    }
}
