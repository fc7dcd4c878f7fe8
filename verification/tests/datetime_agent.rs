use nagent::agents::clock::{
    iso_of, time_at, time_in, weekday_at, write_offset, LocalTime, Moment,
};
use nagent::agents::datetime_agent::{parse_args, DateTimeAgent};
use nagent::agents::{AgentError, AgentRegistry, BuiltIn};
use nagent::config::AgentConfig;
use nagent::json;
use nagent::json::Json;
use serde_json::Value;

fn value(s: &str) -> Json {
    json::parse(s).unwrap()
}

fn answer(args: &str) -> Value {
    let text = DateTimeAgent::new().invoke(&value(args)).expect("invoke");
    serde_json::from_str(&text).unwrap()
}

fn at(args: &str, secs: i64, nanos: u32) -> Value {
    let text = DateTimeAgent::new()
        .invoke_at(&value(args), Moment { secs, nanos })
        .expect("invoke");
    serde_json::from_str(&text).unwrap()
}

#[test]
fn datetime_agent_name_and_schema_are_stable() {
    let agent = DateTimeAgent::new();
    assert_eq!(agent.name(), "get_datetime");
    let schema = json::to_value(&agent.parameters_schema());
    assert_eq!(schema["type"], "object");
    assert!(schema["properties"]["timezone"].is_object());
}

#[test]
fn invoke_utc_when_timezone_omitted() {
    let parsed = answer("{}");
    assert_eq!(parsed["ok"], true);
    assert_eq!(parsed["source"], "system");
    assert_eq!(parsed["data"]["timezone"], "UTC");
    assert_eq!(parsed["data"]["utc_offset"], "+00:00");
    assert!(parsed["data"]["unix"].as_i64().unwrap() > 0);
    assert!(parsed["data"]["iso"].as_str().unwrap().contains('T'));
}

#[test]
fn invoke_paris_returns_positive_offset() {
    let parsed = answer(r#"{"timezone": "Europe/Paris"}"#);
    assert_eq!(parsed["data"]["timezone"], "Europe/Paris");
    let offset = parsed["data"]["utc_offset"].as_str().unwrap();
    assert!(
        offset == "+01:00" || offset == "+02:00",
        "expected Europe/Paris offset to be +01:00 or +02:00, got {offset}"
    );
}

#[test]
fn invoke_rejects_unknown_timezone() {
    let err = DateTimeAgent::new()
        .invoke(&value(r#"{"timezone": "Mars/Olympus_Mons"}"#))
        .expect_err("should reject");
    match err {
        AgentError::InvalidArguments(msg) => {
            assert!(msg.contains("unknown IANA timezone"));
        }
        other => panic!("expected InvalidArguments, got {other:?}"),
    }
}

#[test]
fn invoke_rejects_non_object_arguments() {
    let err = DateTimeAgent::new()
        .invoke(&value("\"not-an-object\""))
        .expect_err("should reject");
    assert!(matches!(err, AgentError::InvalidArguments(_)));
}

#[test]
fn invoke_treats_empty_timezone_as_utc() {
    let parsed = answer(r#"{"timezone": "  "}"#);
    assert_eq!(parsed["data"]["timezone"], "UTC");
}

#[test]
fn a_known_moment_is_written_exactly() {
    let utc = at("{}", 1_431_648_000, 0);
    assert_eq!(utc["data"]["iso"], "2015-05-15T00:00:00+00:00");
    assert_eq!(utc["data"]["unix"], 1_431_648_000);
    assert_eq!(utc["data"]["weekday"], "Friday");
    assert_eq!(utc["fetched_at"], "2015-05-15T00:00:00+00:00");
    let paris = at(r#"{"timezone": " Europe/Paris "}"#, 1_431_648_000, 500_000_000);
    assert_eq!(paris["data"]["iso"], "2015-05-15T02:00:00.500+02:00");
    assert_eq!(paris["data"]["utc_offset"], "+02:00");
    assert_eq!(paris["data"]["timezone"], "Europe/Paris");
    assert_eq!(paris["data"]["weekday"], "Friday");
    let york = at(r#"{"timezone": "America/New_York"}"#, 1_431_648_000, 0);
    assert_eq!(york["data"]["weekday"], "Thursday");
    assert_eq!(york["fetched_at"], "2015-05-15T00:00:00+00:00");
}

#[test]
fn a_zone_is_read_from_the_arguments() {
    assert_eq!(parse_args(&value("{}")).unwrap(), None);
    assert_eq!(parse_args(&value(r#"{"timezone": 3}"#)).unwrap(), None);
    assert_eq!(
        parse_args(&value(r#"{"timezone": " X "}"#)).unwrap().as_deref(),
        Some("X")
    );
}

#[test]
fn the_reply_holds_what_was_looked_up() {
    let t = LocalTime { iso: "i".into(), offset: "o".into(), weekday: "w".into() };
    let text = DateTimeAgent::reply("Z", Some(t), -5, "f").unwrap();
    assert_eq!(
        text,
        r#"{"data":{"iso":"i","timezone":"Z","unix":-5,"utc_offset":"o","weekday":"w"},"fetched_at":"f","ok":true,"source":"system"}"#
    );
    assert_eq!(
        DateTimeAgent::reply("Z", None, 0, "f").unwrap_err().message(),
        "invalid arguments: unknown IANA timezone `Z` (expected e.g. Europe/Paris, \
         America/New_York, Asia/Tokyo)"
    );
}

const ALL: BuiltIn = BuiltIn { web: true, datetime: true, weather: true, stock: true };

#[test]
fn the_registry_has_what_is_built_in() {
    let on = AgentConfig { enabled: true, ..AgentConfig::default() };
    let registry = AgentRegistry::from_config(&on, ALL);
    let names: Vec<String> = registry.list().into_iter().map(|s| s.name).collect();
    assert_eq!(names, ["web_fetch", "get_datetime", "get_weather", "get_stock_quote"]);
    assert_eq!(registry.len(), 4);
    assert_eq!(registry.get("get_weather").unwrap().name, "get_weather");
    assert!(registry.get("nonexistent").is_none());
    let tools = registry.tools_schema();
    let first = json::to_value(&tools[0]);
    assert_eq!(first["type"], "function");
    assert_eq!(first["function"]["name"], "web_fetch");
    assert_eq!(first["function"]["parameters"]["required"][0], "url");

    let some = AgentRegistry::from_config(&on, BuiltIn { web: false, weather: false, ..ALL });
    let names: Vec<String> = some.list().into_iter().map(|s| s.name).collect();
    assert_eq!(names, ["get_datetime", "get_stock_quote"]);
}

#[test]
fn a_registry_that_is_turned_off_is_empty() {
    let off = AgentConfig { enabled: false, ..AgentConfig::default() };
    let registry = AgentRegistry::from_config(&off, ALL);
    assert!(registry.is_empty());
    assert!(registry.tools_schema().is_empty());
    assert!(AgentRegistry::empty().is_empty());
}

#[test]
fn a_day_has_a_name() {
    let names = ["Thursday", "Friday", "Saturday", "Sunday", "Monday", "Tuesday", "Wednesday"];
    for (i, name) in names.iter().enumerate() {
        let noon = Moment { secs: 86_400 * i as i64 + 43_200, nanos: 0 };
        assert_eq!(weekday_at(noon, 0), *name);
    }
    let before = Moment { secs: -1, nanos: 0 };
    assert_eq!(weekday_at(before, 0), "Wednesday");
    assert_eq!(weekday_at(before, 1), "Thursday");
    assert_eq!(weekday_at(Moment { secs: 0, nanos: 0 }, -3_600), "Wednesday");
}

#[test]
fn an_offset_is_rounded_to_the_minute() {
    assert_eq!(write_offset(0), "+00:00");
    assert_eq!(write_offset(7_200), "+02:00");
    assert_eq!(write_offset(-12_600), "-03:30");
    assert_eq!(write_offset(20_700), "+05:45");
    assert_eq!(write_offset(561), "+00:09");
    assert_eq!(write_offset(-570), "-00:10");
    assert_eq!(write_offset(-86_399), "-24:00");
}

#[test]
fn a_moment_is_read_in_a_zone() {
    let m = Moment { secs: 1_431_648_000, nanos: 0 };
    assert_eq!(iso_of(m), "2015-05-15T00:00:00+00:00");
    let here = time_at(m, -12_600);
    assert_eq!(here.iso, "2015-05-14T20:30:00-03:30");
    assert_eq!(here.offset, "-03:30");
    assert_eq!(here.weekday, "Thursday");
    let kathmandu = time_in(m, "Asia/Kathmandu").unwrap();
    assert_eq!(kathmandu.iso, "2015-05-15T05:45:00+05:45");
    assert_eq!(kathmandu.offset, "+05:45");
    assert_eq!(kathmandu.weekday, "Friday");
    assert!(time_in(m, "Mars/Phobos").is_none());
}
