use nagent::agents::stock_agent::{
    build_url, collapse_whitespace, csv_body, is_no_data, normalise_ticker, parse_args,
    parse_stooq_csv, resolve, resolve_known_company, tried_symbols, Lookup, Next, Prices, Quote,
    StockAgent,
};
use nagent::agents::upstream::{truncate, Outcome};
use nagent::agents::AgentError;
use nagent::json;
use nagent::json::Json;

fn value(s: &str) -> Json {
    json::parse(s).unwrap()
}

/// A price as a number of four decimals, or nothing.
fn price(text: &Option<String>) -> Json {
    let number = text
        .as_ref()
        .and_then(|t| t.parse::<f64>().ok())
        .map(|v| (v * 10_000.0).round() / 10_000.0)
        .and_then(serde_json::Number::from_f64);
    match number {
        Some(n) => Json::Num(n),
        None => Json::Null,
    }
}

fn shaped(csv: &str, requested: &str) -> serde_json::Value {
    let q = parse_stooq_csv(csv, requested).expect("parse");
    let prices = Prices {
        open: price(&q.open),
        high: price(&q.high),
        low: price(&q.low),
        close: price(&q.close),
    };
    json::to_value(&q.data(prices))
}

#[test]
fn a_quote_may_take_eight_seconds() {
    assert_eq!(StockAgent::new().timeout_secs, 8);
    assert_eq!(StockAgent::default().timeout_secs, 8);
}

#[test]
fn stock_agent_name_and_schema_are_stable() {
    let agent = StockAgent::new();
    assert_eq!(agent.name(), "get_stock_quote");
    let schema = json::to_value(&agent.parameters_schema());
    assert_eq!(schema["type"], "object");
    assert!(schema["required"]
        .as_array()
        .unwrap()
        .contains(&serde_json::Value::String("ticker".into())));
    assert_eq!(
        schema["properties"]["ticker"]["pattern"],
        "^[A-Za-z0-9 .'\\-]{1,40}$"
    );
}

#[test]
fn normalise_appends_us_when_no_suffix() {
    assert_eq!(normalise_ticker("AAPL"), "AAPL.US");
    assert_eq!(normalise_ticker("nvda"), "NVDA.US");
    assert_eq!(normalise_ticker("  msft  "), "MSFT.US");
}

#[test]
fn normalise_preserves_existing_suffix() {
    assert_eq!(normalise_ticker("AIR.PA"), "AIR.PA");
    assert_eq!(normalise_ticker("mc.pa"), "MC.PA");
    assert_eq!(normalise_ticker("SAP.DE"), "SAP.DE");
}

#[test]
fn resolve_known_company_handles_french_issuers() {
    assert_eq!(resolve_known_company("Atos"), Some("ATO.PA"));
    assert_eq!(resolve_known_company("atos"), Some("ATO.PA"));
    assert_eq!(resolve_known_company("ATOS"), Some("ATO.PA"));
    assert_eq!(resolve_known_company(" Atos "), Some("ATO.PA"));
    assert_eq!(resolve_known_company("LVMH"), Some("MC.PA"));
    assert_eq!(resolve_known_company("lvmh"), Some("MC.PA"));
    assert_eq!(resolve_known_company("L'Oréal"), Some("OR.PA"));
    assert_eq!(resolve_known_company("L'ORÉAL"), Some("OR.PA"));
    assert_eq!(resolve_known_company("HERMÈS"), Some("RMS.PA"));
    assert_eq!(resolve_known_company("SOCIÉTÉ  Générale"), Some("GLE.PA"));
    assert_eq!(resolve_known_company("loreal"), Some("OR.PA"));
    assert_eq!(resolve_known_company("L'Oreal"), Some("OR.PA"));
}

#[test]
fn resolve_known_company_handles_us_big_tech() {
    assert_eq!(resolve_known_company("Apple"), Some("AAPL.US"));
    assert_eq!(resolve_known_company("Apple"), Some("AAPL.US"));
    assert_eq!(resolve_known_company("microsoft"), Some("MSFT.US"));
    assert_eq!(resolve_known_company("NVIDIA"), Some("NVDA.US"));
    assert_eq!(resolve_known_company("Alphabet"), Some("GOOGL.US"));
}

#[test]
fn resolve_known_company_returns_none_for_unknown_names() {
    assert_eq!(resolve_known_company("NonsenseCorp"), None);
    assert_eq!(resolve_known_company(""), None);
    assert_eq!(resolve_known_company("   "), None);
}

#[test]
fn every_way_to_write_a_name_counts() {
    assert_eq!(resolve_known_company("BNP   Paribas"), Some("BNP.PA"));
    assert_eq!(resolve_known_company("\tschneider\n electric "), Some("SU.PA"));
    assert_eq!(resolve_known_company("VW"), Some("VOW3.DE"));
    assert_eq!(resolve_known_company("Shell"), Some("SHEL.L"));
    assert_eq!(resolve_known_company("intesa sanpaolo"), Some("ISP.MI"));
    assert_eq!(resolve_known_company("IBM"), Some("IBM.US"));
    assert_eq!(resolve("Danone"), "BN.PA");
    assert_eq!(resolve("brk"), "BRK.US");
}

#[test]
fn collapse_whitespace_handles_multiple_internal_spaces() {
    assert_eq!(collapse_whitespace("BNP Paribas"), "BNP Paribas");
    assert_eq!(collapse_whitespace("BNP  Paribas"), "BNP Paribas");
    assert_eq!(collapse_whitespace("  BNP   Paribas  "), "BNP Paribas");
    assert_eq!(collapse_whitespace("LVMH"), "LVMH");
    assert_eq!(collapse_whitespace(" L'Oreal "), "L'Oreal");
}

#[test]
fn tried_symbols_explicit_pa_lists_pa_first_then_rest() {
    let tried = tried_symbols("ATO.PA");
    assert_eq!(tried[0], "ATO.PA");
    assert!(tried.contains(&"ATO.L".to_string()));
    assert!(tried.contains(&"ATO.DE".to_string()));
    assert!(tried.contains(&"ATO.MI".to_string()));
    assert!(
        tried.last().unwrap() == "ATO.US",
        "US fallback should be last: {tried:?}"
    );
    let mut seen = std::collections::HashSet::new();
    for t in &tried {
        assert!(seen.insert(t.clone()), "duplicate ticker {t} in {tried:?}");
    }
}

#[test]
fn tried_symbols_bare_lists_us_first_then_fallbacks() {
    let tried = tried_symbols("ATOS");
    assert_eq!(tried[0], "ATOS.US");
    assert!(tried.contains(&"ATOS.PA".to_string()));
    assert!(tried.contains(&"ATOS.L".to_string()));
    assert!(tried.contains(&"ATOS.DE".to_string()));
    assert!(tried.contains(&"ATOS.MI".to_string()));
    assert_eq!(tried.len(), 1 + 4);
    assert_eq!(tried, ["ATOS.US", "ATOS.PA", "ATOS.L", "ATOS.DE", "ATOS.MI"]);
}

#[test]
fn tried_symbols_for_us_already_suffixed_does_not_duplicate_us() {
    let tried = tried_symbols("AAPL.US");
    let count_us = tried.iter().filter(|t| t.ends_with(".US")).count();
    assert_eq!(count_us, 1, "duplicate .US entry: {tried:?}");
}

#[test]
fn parse_stooq_csv_happy_path() {
    let csv = "Symbol,Date,Time,Open,High,Low,Close,Volume\n\
               AAPL.US,2026-09-25,21:00:00,243.10,246.50,242.80,245.32,12345678\n";
    let parsed = shaped(csv, "AAPL.US");
    assert_eq!(parsed["ticker"], "AAPL.US");
    assert_eq!(parsed["exchange"], "US");
    assert_eq!(parsed["price"], 245.32);
    assert_eq!(parsed["open"], 243.10);
    assert_eq!(parsed["high"], 246.50);
    assert_eq!(parsed["low"], 242.80);
    assert_eq!(parsed["close_prev"], 245.32);
    assert_eq!(parsed["volume"], 12_345_678);
    assert_eq!(parsed["as_of"], "2026-09-25");
    assert_eq!(parsed["as_of_time"], "21:00:00");
}

#[test]
fn parse_stooq_csv_european_ticker() {
    let csv = "Symbol,Date,Time,Open,High,Low,Close,Volume\n\
               ATO.PA,2026-09-25,17:35:00,1.23,1.28,1.20,1.25,5000000\n";
    let parsed = shaped(csv, "ATO.PA");
    assert_eq!(parsed["ticker"], "ATO.PA");
    assert_eq!(parsed["exchange"], "PA");
    assert_eq!(parsed["price"], 1.25);
}

#[test]
fn parse_stooq_csv_handles_missing_fields() {
    let csv = "Symbol,Date,Time,Open,High,Low,Close,Volume\n\
               XYZ.US,2026-09-25,-,-,-,-,-,-\n";
    let parsed = shaped(csv, "XYZ.US");
    assert!(parsed["price"].is_null());
    assert!(parsed["open"].is_null());
    assert!(parsed["high"].is_null());
    assert!(parsed["volume"].is_null());
    assert_eq!(parsed["as_of_time"], "-");
}

#[test]
fn parse_stooq_csv_empty_body_errors() {
    let err = parse_stooq_csv("", "AAPL.US").unwrap_err();
    match err {
        AgentError::AgentFailed(msg) => {
            assert!(msg.contains("no data for ticker"));
            assert!(msg.contains("AAPL.US"));
        }
        other => panic!("expected AgentFailed, got {other:?}"),
    }
}

#[test]
fn parse_stooq_csv_nd_sentinel_errors() {
    let err = parse_stooq_csv("N/D", "ZZZZ.US").unwrap_err();
    match err {
        AgentError::AgentFailed(msg) => {
            assert!(msg.contains("N/D"));
            assert!(msg.contains("ZZZZ.US"));
        }
        other => panic!("expected AgentFailed, got {other:?}"),
    }
}

#[test]
fn is_no_data_recognises_sentinel_shapes() {
    assert!(is_no_data(""));
    assert!(is_no_data("   "));
    assert!(is_no_data("N/D"));
    assert!(is_no_data("N/D\n"));
    assert!(!is_no_data(
        "Symbol,Date,Time,Open,High,Low,Close,Volume\nAAPL.US,..."
    ));
    assert!(is_no_data(
        "<!DOCTYPE html><html><head></head><body>403</body></html>"
    ));
    assert!(is_no_data("<html>error</html>"));
}

#[test]
fn parse_stooq_csv_rejects_extra_rows() {
    let csv = "Symbol,Date,Time,Open,High,Low,Close,Volume\n\
               AAPL.US,2026-09-25,21:00:00,243.10,246.50,242.80,245.32,12345678\n\
               extra,row,here,0,0,0,0,0\n";
    let err = parse_stooq_csv(csv, "AAPL.US").unwrap_err();
    assert!(matches!(err, AgentError::AgentFailed(_)));
}

#[test]
fn parse_stooq_csv_rejects_row_width_mismatch() {
    let csv = "Symbol,Date,Time,Open,High,Low,Close,Volume\n\
               AAPL.US,2026-09-25,21:00:00,243.10\n";
    let err = parse_stooq_csv(csv, "AAPL.US").unwrap_err();
    match err {
        AgentError::AgentFailed(msg) => {
            assert!(msg.contains("row width mismatch"));
            assert_eq!(
                msg,
                "CSV row width mismatch: header has 8 columns, data has 4"
            );
        }
        other => panic!("expected AgentFailed, got {other:?}"),
    }
}

#[test]
fn a_head_alone_is_no_quote() {
    let err = parse_stooq_csv("Symbol,Date\r\n", "A.US").unwrap_err();
    assert_eq!(err.message(), "agent failed: CSV missing data row");
}

#[test]
fn columns_are_found_by_their_names() {
    let q = parse_stooq_csv(" Volume , Close,Close\r\n -42 ,1.5, 2.5 \r\n", "R.L").unwrap();
    assert_eq!(
        q,
        Quote {
            ticker: "R.L".into(),
            exchange: "L".into(),
            open: None,
            high: None,
            low: None,
            close: Some("2.5".into()),
            volume: Some(-42),
            date: "".into(),
            time: "".into(),
        }
    );
    let q = parse_stooq_csv("Symbol,Volume\nNODOT,1e6", "R.L").unwrap();
    assert_eq!((q.exchange.as_str(), q.volume), ("", None));
    for (text, read) in [
        ("9223372036854775807", Some(i64::MAX)),
        ("9223372036854775808", None),
        ("-9223372036854775808", Some(i64::MIN)),
        ("-9223372036854775809", None),
        ("+7", Some(7)),
        ("-+7", None),
        ("+", None),
    ] {
        let q = parse_stooq_csv(&format!("Volume\n{text}"), "R").unwrap();
        assert_eq!(q.volume, read, "{text}");
    }
}

#[test]
fn rejects_missing_ticker() {
    let agent = StockAgent::new();
    let err = agent.begin(&value("{}")).unwrap_err();
    assert!(matches!(err, AgentError::InvalidArguments(_)));
}

#[test]
fn rejects_too_long_ticker() {
    let agent = StockAgent::new();
    let err = agent
        .begin(&value(&format!(r#"{{"ticker": "{}"}}"#, "x".repeat(41))))
        .unwrap_err();
    match err {
        AgentError::InvalidArguments(msg) => {
            assert!(msg.contains("at most 40 characters"));
        }
        other => panic!("expected InvalidArguments, got {other:?}"),
    }
}

#[test]
fn rejects_ticker_with_illegal_chars() {
    let agent = StockAgent::new();
    let err = agent.begin(&value(r#"{"ticker": "AA; DROP TABLE"}"#)).unwrap_err();
    match err {
        AgentError::InvalidArguments(msg) => {
            assert!(msg.contains("unsupported character"));
            assert!(msg.contains("`;`"));
        }
        other => panic!("expected InvalidArguments, got {other:?}"),
    }
}

#[test]
fn accepts_atos_company_name_input() {
    let agent = StockAgent::new();
    let (_, url) = agent.begin(&value(r#"{"ticker": "Atos"}"#)).unwrap();
    assert_eq!(url, "https://stooq.com/q/l/?s=ATO.PA&f=sd2t2ohlcv&h&e=csv");
}

#[test]
fn accepts_known_company_names_that_require_apostrophe() {
    let agent = StockAgent::new();
    let (_, url) = agent.begin(&value(r#"{"ticker": "L'Oreal"}"#)).unwrap();
    assert_eq!(url, build_url("OR.PA"));
}

#[test]
fn arguments_are_checked_in_order() {
    let told = |s: &str| parse_args(&value(s)).unwrap_err().message();
    assert_eq!(told("[]"), "invalid arguments: arguments must be a JSON object");
    assert_eq!(told(r#"{"ticker": 1}"#), "invalid arguments: `ticker` (string) is required");
    assert_eq!(told(r#"{"ticker": "  "}"#), "invalid arguments: `ticker` must not be empty");
    assert_eq!(
        told(&format!(r#"{{"ticker": "{}"}}"#, ";".repeat(41))),
        "invalid arguments: `ticker` must be at most 40 characters (got 41)"
    );
    assert_eq!(parse_args(&value(r#"{"ticker": " a/b-c.'9 "}"#)).unwrap(), "a/b-c.'9");
}

#[test]
fn addresses_are_encoded() {
    assert_eq!(
        build_url("A B/é.US"),
        "https://stooq.com/q/l/?s=A%20B%2F%C3%A9.US&f=sd2t2ohlcv&h&e=csv"
    );
}

fn body(s: &str) -> Outcome {
    Outcome::Body(s.as_bytes().to_vec())
}

const DATA: &str = "Symbol,Date\nX,Y\n";

#[test]
fn the_first_symbol_with_data_wins() {
    let (mut lookup, first) = Lookup::new("ATO.PA");
    assert_eq!(first, build_url("ATO.PA"));
    match lookup.step(body("N/D")) {
        Next::Get(u) => assert_eq!(u, build_url("ATO.L")),
        other => panic!("unexpected {other:?}"),
    }
    match lookup.step(Outcome::ConnectFailed("x".into())) {
        Next::Get(u) => assert_eq!(u, build_url("ATO.DE")),
        other => panic!("unexpected {other:?}"),
    }
    match lookup.step(body(DATA)) {
        Next::Done(Ok((text, symbol))) => {
            assert_eq!(text, DATA);
            assert_eq!(symbol, "ATO.DE");
        }
        other => panic!("unexpected {other:?}"),
    }
}

fn exhaust(outcomes: Vec<Outcome>) -> AgentError {
    let (mut lookup, _) = Lookup::new("ATO.PA");
    let mut last = None;
    for o in outcomes {
        match lookup.step(o) {
            Next::Get(_) => {}
            Next::Done(r) => last = Some(r),
        }
    }
    last.unwrap().unwrap_err()
}

#[test]
fn a_lookup_without_data_says_what_was_tried() {
    let err = exhaust(vec![body(""), body("N/D"), body("<html>"), body(" "), body("x")]);
    assert_eq!(
        err.message(),
        "agent failed: no data for ticker (Stooq returned no data for any of: ATO.PA, ATO.L, \
         ATO.DE, ATO.MI, ATO.US. Try an explicit ticker like `ATO.PA` for Euronext Paris, \
         `MC.PA` for LVMH, etc.)"
    );
}

#[test]
fn a_lookup_without_data_reports_the_last_error() {
    let err = exhaust(vec![
        Outcome::ConnectFailed("a".into()),
        Outcome::Refused { status: 503, body: "busy".into() },
        body("N/D"),
        body("N/D"),
        body("N/D"),
    ]);
    assert!(matches!(err, AgentError::Upstream { status: 503, ref body } if body == "busy"));
}

#[test]
fn answers_are_bounded_and_text() {
    let told = |o: Outcome| csv_body(o).unwrap_err().message();
    assert_eq!(
        told(Outcome::Body(vec![b'x'; 16_385])),
        "agent failed: upstream body too large: 16385 bytes (cap 16384)"
    );
    assert_eq!(csv_body(Outcome::Body(vec![b'x'; 16_384])).unwrap().len(), 16_384);
    assert_eq!(
        told(Outcome::Body(vec![b'a', 0xff])),
        "agent failed: upstream returned non-UTF-8 body: invalid utf-8 sequence of 1 bytes from \
         index 1"
    );
    assert_eq!(
        told(Outcome::ConnectFailed("e".into())),
        "agent failed: upstream connect/read failed: e"
    );
    assert_eq!(told(Outcome::ReadFailed("e".into())), "agent failed: read body: e");
    assert_eq!(csv_body(body("é")).unwrap(), "é");
    assert_eq!(truncate("éa", 1), "");
    assert_eq!(truncate("éa", 2), "é");
}

#[test]
fn the_answer_is_json() {
    let q = parse_stooq_csv("Symbol,Close\nA.US,2.00005", "A.US").unwrap();
    let prices = Prices {
        open: Json::Bool(true),
        high: Json::Bool(true),
        low: Json::Bool(true),
        close: price(&q.close),
    };
    let text = StockAgent::reply_at(&q, prices, &vec!["A.US".to_string()], "now");
    let v: serde_json::Value = serde_json::from_str(&text).unwrap();
    assert_eq!(v["ok"], true);
    assert_eq!(v["source"], "stooq");
    assert_eq!(v["fetched_at"], "now");
    assert_eq!(v["tried"][0], "A.US");
    assert_eq!(v["data"]["ticker"], "A.US");
    assert!(v["data"]["volume"].is_null());
    assert!(v["data"]["open"].is_null());
    assert!(v["data"]["high"].is_null());
    assert!(v["data"]["low"].is_null());
    assert!(v["data"]["price"].is_number());

    let (lookup, _) = Lookup::new("A.US");
    let prices = Prices { open: Json::Null, high: Json::Null, low: Json::Null, close: Json::Null };
    let v: serde_json::Value =
        serde_json::from_str(&StockAgent::reply(&q, prices, &lookup)).unwrap();
    assert!(v["fetched_at"].as_str().unwrap().contains('T'));
    assert_eq!(v["tried"].as_array().unwrap().len(), 5);
}
