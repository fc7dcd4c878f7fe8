use nagent::agents::upstream::Outcome;
use nagent::agents::weather_agent::{
    build_payload, build_url, decimals, json_body, mode_for_day, parse_args, refusal_message,
    select_mode, today_utc, Day, Decimals, Mode, WeatherAgent,
};
use nagent::agents::clock::Moment;
use nagent::agents::AgentError;
use nagent::config::WeatherConfig;
use nagent::json;
use nagent::json::Json;
use serde_json::Value;

fn value(s: &str) -> Json {
    json::parse(s).unwrap()
}

fn number_of(d: chrono::NaiveDate) -> i32 {
    chrono::Datelike::num_days_from_ce(&d)
}

fn today() -> chrono::NaiveDate {
    chrono::Utc::now().date_naive()
}

fn day(d: chrono::NaiveDate) -> Day {
    Day { number: number_of(d), text: d.to_string() }
}

fn in_days(n: i64) -> chrono::NaiveDate {
    today().checked_add_signed(chrono::Duration::days(n)).unwrap()
}

/// The data with its measured numbers rounded.
fn rounded(j: &Json, name: &str) -> Value {
    if let Some(d) = decimals(name) {
        let v = match j {
            Json::Num(n) => n.as_f64().unwrap(),
            _ => 0.0,
        };
        let v = match d {
            Decimals::All => v,
            Decimals::One => (v * 10.0).round() / 10.0,
            Decimals::Four => (v * 10_000.0).round() / 10_000.0,
        };
        return Value::from(v);
    }
    match j {
        Json::Array(v) => Value::Array(v.iter().map(|x| rounded(x, "")).collect()),
        Json::Object(m) => {
            let mut out = serde_json::Map::new();
            for (k, v) in m {
                out.insert(k.clone(), rounded(v, k));
            }
            Value::Object(out)
        }
        other => json::to_value(other),
    }
}

fn payload(body: &str, mode: &Mode, hourly: bool) -> Value {
    rounded(&build_payload(&value(body), mode, hourly).unwrap(), "")
}

#[test]
fn weather_agent_name_and_schema_are_stable() {
    let agent = WeatherAgent::new(WeatherConfig::default());
    assert_eq!(agent.name(), "get_weather");
    let schema = json::to_value(&agent.parameters_schema());
    assert_eq!(schema["type"], "object");
    assert!(schema["required"]
        .as_array()
        .unwrap()
        .contains(&Value::String("location".into())));
    assert_eq!(schema["properties"]["days"]["maximum"], 14);
    let date = &schema["properties"]["date"];
    assert_eq!(date["type"], "string");
    assert_eq!(date["pattern"], r"^\d{4}-\d{2}-\d{2}$");
    assert_eq!(schema["properties"]["hourly"]["type"], "boolean");
    assert_eq!(schema["properties"]["hourly"]["default"], false);
}

#[test]
fn empty_api_key_surfaces_clear_config_error() {
    let agent = WeatherAgent::default();
    let err = agent
        .begin(&value(r#"{"location": "Paris"}"#))
        .expect_err("missing key should fail");
    match err {
        AgentError::AgentFailed(msg) => {
            assert!(msg.contains("WEATHER_API_KEY"));
            assert!(msg.contains("weatherapi.com"));
        }
        other => panic!("expected AgentFailed with config hint, got {other:?}"),
    }
}

#[test]
fn select_mode_defaults_to_current_one_day() {
    assert_eq!(
        select_mode(None, None, number_of(today())).unwrap(),
        Mode::Current { days: 1 }
    );
}

#[test]
fn select_mode_clamps_days_to_fourteen() {
    let now = number_of(today());
    assert_eq!(select_mode(Some(99), None, now).unwrap(), Mode::Current { days: 14 });
    assert_eq!(select_mode(Some(0), None, now).unwrap(), Mode::Current { days: 1 });
    assert_eq!(select_mode(Some(14), None, now).unwrap(), Mode::Current { days: 14 });
}

#[test]
fn select_mode_date_takes_precedence_over_days() {
    let mode = select_mode(Some(3), Some("2026-06-15"), number_of(today())).unwrap();
    assert!(matches!(mode, Mode::SingleDate { .. }));
}

#[test]
fn select_mode_rejects_invalid_date_format() {
    let err = select_mode(None, Some("15-06-2026"), number_of(today())).unwrap_err();
    match err {
        AgentError::InvalidArguments(msg) => {
            assert!(msg.contains("YYYY-MM-DD"));
        }
        other => panic!("expected InvalidArguments, got {other:?}"),
    }
}

#[test]
fn select_mode_rejects_pre_2010_date() {
    let err = select_mode(None, Some("2009-12-31"), number_of(today())).unwrap_err();
    match err {
        AgentError::InvalidArguments(msg) => {
            assert!(msg.contains("2010-01-01"));
        }
        other => panic!("expected InvalidArguments, got {other:?}"),
    }
    let first = select_mode(None, Some("2010-01-01"), number_of(today())).unwrap();
    assert!(matches!(first, Mode::SingleDate { .. }));
}

#[test]
fn select_mode_rejects_date_too_far_in_future() {
    let far = in_days(15);
    let err = select_mode(None, Some(&far.to_string()), number_of(today())).unwrap_err();
    match err {
        AgentError::InvalidArguments(msg) => {
            assert!(msg.contains("at most 14 days in the future"));
        }
        other => panic!("expected InvalidArguments, got {other:?}"),
    }
    assert!(select_mode(None, Some(&in_days(14).to_string()), number_of(today())).is_ok());
}

#[test]
fn select_mode_accepts_yesterday() {
    let yesterday = in_days(-1);
    let mode = select_mode(None, Some(&yesterday.to_string()), number_of(today())).unwrap();
    assert_eq!(mode, Mode::SingleDate { date: day(yesterday) });
}

#[test]
fn a_day_is_judged_by_its_number() {
    let d = Day { number: 800_000, text: "t".into() };
    assert_eq!(
        mode_for_day("d", Ok(d.clone()), 800_000).unwrap(),
        Mode::SingleDate { date: d.clone() }
    );
    assert_eq!(
        mode_for_day("d", Ok(d.clone()), 799_985).unwrap_err().message(),
        "invalid arguments: `date` must be at most 14 days in the future (WeatherAPI free-tier \
         forecast horizon); got `d`"
    );
    assert_eq!(
        mode_for_day("d", Ok(d), 95_745_386).unwrap_err().message(),
        "agent failed: internal: date arithmetic overflow"
    );
    assert_eq!(
        mode_for_day("d", Err("e".into()), 1).unwrap_err().message(),
        "invalid arguments: `date` must be a valid YYYY-MM-DD calendar date (got `d`: e)"
    );
}

#[test]
fn the_day_of_a_moment() {
    let m = Moment { secs: 1_431_648_000, nanos: 0 };
    let d = chrono::NaiveDate::from_ymd_opt(2015, 5, 15).unwrap();
    assert_eq!(today_utc(m), number_of(d));
    assert_eq!(today_utc(Moment { secs: 1_431_647_999, nanos: 0 }), number_of(d) - 1);
    assert_eq!(
        today_utc(Moment { secs: 8_210_266_876_799, nanos: 0 }),
        number_of(chrono::NaiveDate::MAX)
    );
}

#[test]
fn build_url_forecast_for_current_mode() {
    let url = build_url(
        "https://api.weatherapi.com",
        "k",
        "Paris",
        &Mode::Current { days: 3 },
        number_of(today()),
    );
    assert!(url.contains("/v1/forecast.json"));
    assert!(url.contains("key=k"));
    assert!(url.contains("q=Paris"));
    assert!(url.contains("days=3"));
    assert!(!url.contains("dt="));
    assert_eq!(
        url,
        "https://api.weatherapi.com/v1/forecast.json?key=k&q=Paris&days=3&aqi=no&alerts=no"
    );
}

#[test]
fn build_url_forecast_with_dt_for_future_date() {
    let future = in_days(3);
    let url = build_url(
        "https://api.weatherapi.com",
        "k",
        "Paris",
        &Mode::SingleDate { date: day(future) },
        number_of(today()),
    );
    assert!(url.contains("/v1/forecast.json"));
    assert!(url.contains(&format!("dt={future}")));
}

#[test]
fn build_url_history_for_past_date() {
    let past = in_days(-30);
    let url = build_url(
        "https://api.weatherapi.com",
        "k",
        "Paris",
        &Mode::SingleDate { date: day(past) },
        number_of(today()),
    );
    assert!(url.contains("/v1/history.json"));
    assert!(url.contains(&format!("dt={past}")));
}

#[test]
fn build_url_encodes_spaces_in_city_name() {
    let url = build_url(
        "https://api.weatherapi.com",
        "k",
        "Le Havre",
        &Mode::Current { days: 1 },
        number_of(today()),
    );
    assert!(url.contains("q=Le+Havre"));
    let url = build_url("b", "k&x", "é?", &Mode::Current { days: 1 }, 0);
    assert_eq!(url, "b/v1/forecast.json?key=k%26x&q=%C3%A9%3F&days=1&aqi=no&alerts=no");
}

#[test]
fn build_url_overrides_base_url() {
    let url = build_url(
        "http://127.0.0.1:9999",
        "k",
        "Paris",
        &Mode::Current { days: 1 },
        number_of(today()),
    );
    assert!(url.starts_with("http://127.0.0.1:9999/v1/forecast.json"));
}

fn with_key() -> WeatherAgent {
    WeatherAgent::new(WeatherConfig { api_key: "k".into(), ..WeatherConfig::default() })
}

#[test]
fn rejects_missing_location() {
    let err = with_key().begin(&value("{}")).unwrap_err();
    assert!(matches!(err, AgentError::InvalidArguments(_)));
}

#[test]
fn rejects_empty_location() {
    let err = with_key().begin(&value(r#"{"location": "   "}"#)).unwrap_err();
    assert!(matches!(err, AgentError::InvalidArguments(_)));
}

#[test]
fn rejects_malformed_date() {
    let err = with_key()
        .begin(&value(r#"{"location": "Paris", "date": "2026/06/15"}"#))
        .unwrap_err();
    match err {
        AgentError::InvalidArguments(msg) => {
            assert!(msg.contains("YYYY-MM-DD"));
        }
        other => panic!("expected InvalidArguments, got {other:?}"),
    }
}

#[test]
fn arguments_of_the_weather() {
    let a = parse_args(&value(r#"{"location": " Lyon ", "days": 4294967297, "date": " "}"#)).unwrap();
    assert_eq!(a.location, "Lyon");
    assert_eq!(a.days, Some(u32::MAX));
    assert_eq!(a.date, None);
    assert!(!a.hourly);
    let a = parse_args(&value(r#"{"location": "L", "date": " 2026-01-02 ", "hourly": true}"#)).unwrap();
    assert_eq!(a.date.as_deref(), Some("2026-01-02"));
    assert!(a.hourly);
    let plan = with_key()
        .begin_on(&value(r#"{"location": "L", "date": "2026-01-02", "hourly": true}"#), 740_000)
        .unwrap();
    assert_eq!(
        plan.url,
        "https://api.weatherapi.com/v1/history.json?key=k&q=L&dt=2026-01-02"
    );
    assert!(plan.hourly);
}

const FORECAST: &str = r#"{
    "location": {
        "name": "Paris",
        "region": "Ile-de-France",
        "country": "France",
        "lat": 48.8566,
        "lon": 2.3522,
        "tz_id": "Europe/Paris",
        "localtime": "2026-09-26T14:55"
    },
    "current": {
        "last_updated": "2026-09-26T14:30",
        "temp_c": 18.4,
        "feelslike_c": 17.2,
        "humidity": 65,
        "wind_kph": 12.1,
        "wind_dir": "NW",
        "pressure_mb": 1015.0,
        "uv": 4.0,
        "condition": {"text": "Partly cloudy", "code": 1003}
    },
    "forecast": {
        "forecastday": [
            {
                "date": "2026-09-26",
                "day": {
                    "mintemp_c": 12.0,
                    "maxtemp_c": 19.0,
                    "avgtemp_c": 15.5,
                    "avghumidity": 65.0,
                    "totalprecip_mm": 0.5,
                    "daily_chance_of_rain": 30,
                    "daily_chance_of_snow": 0,
                    "maxwind_kph": 22.0,
                    "uv": 4.0,
                    "condition": {"text": "Partly cloudy", "code": 1003}
                },
                "astro": {
                    "sunrise": "07:42 AM",
                    "sunset": "07:30 PM",
                    "moonrise": "10:14 PM",
                    "moonset": "09:55 AM",
                    "moon_phase": "Waxing Gibbous",
                    "moon_illumination": "78%"
                },
                "hour": [
                    {"time": "2026-09-26 00:00", "time_epoch": 0, "temp_c": 14.0,
                     "feelslike_c": 13.0, "chance_of_rain": 20, "chance_of_snow": 0,
                     "precip_mm": 0.0, "humidity": 70, "wind_kph": 10.0,
                     "condition": {"text": "Cloudy"}}
                ]
            },
            {
                "date": "2026-09-27",
                "day": {
                    "mintemp_c": 11.0,
                    "maxtemp_c": 17.0,
                    "avgtemp_c": 14.0,
                    "avghumidity": 70.0,
                    "totalprecip_mm": 2.0,
                    "daily_chance_of_rain": 60,
                    "daily_chance_of_snow": 0,
                    "maxwind_kph": 25.0,
                    "uv": 3.0,
                    "condition": {"text": "Light rain", "code": 1183}
                }
            }
        ]
    }
}"#;

#[test]
fn build_payload_shapes_forecast_response() {
    let payload = payload(FORECAST, &Mode::Current { days: 2 }, false);
    assert_eq!(payload["location"]["name"], "Paris");
    assert_eq!(payload["location"]["country"], "France");
    assert_eq!(payload["location"]["timezone"], "Europe/Paris");
    assert_eq!(payload["location"]["latitude"], 48.8566);
    assert_eq!(payload["current"]["temp_c"], 18.4);
    assert_eq!(payload["current"]["feels_like_c"], 17.2);
    assert_eq!(payload["current"]["condition"], "Partly cloudy");
    assert_eq!(payload["current"]["condition_code"], 1003);
    let forecast = payload["forecast"].as_array().unwrap();
    assert_eq!(forecast.len(), 2);
    assert_eq!(forecast[0]["t_max_c"], 19.0);
    assert_eq!(forecast[0]["chance_of_rain"], 30);
    assert_eq!(forecast[1]["condition"], "Light rain");
    assert_eq!(payload["astronomy"]["sunrise"], "07:42 AM");
    assert_eq!(payload["astronomy"]["moon_phase"], "Waxing Gibbous");
    assert!(payload.get("hourly").is_none());
    assert!(payload.get("requested_date").is_none());
}

#[test]
fn build_payload_includes_hourly_when_requested() {
    let body = r#"{
        "location": {"name": "Paris", "lat": 0.0, "lon": 0.0},
        "current": {"last_updated": "2026-09-26T14:30", "temp_c": 18.0,
                    "condition": {"text": "OK", "code": 1000}},
        "forecast": {"forecastday": [{
            "date": "2026-09-26",
            "day": {"mintemp_c": 0.0, "maxtemp_c": 0.0, "condition": {"text": "x", "code": 0}},
            "hour": [
                {"time": "2026-09-26 00:00", "time_epoch": 0, "temp_c": 12.0,
                 "feelslike_c": 11.0, "chance_of_rain": 10, "chance_of_snow": 0,
                 "precip_mm": 0.0, "humidity": 80, "wind_kph": 5.0,
                 "condition": {"text": "Clear"}},
                {"time": "2026-09-26 01:00", "time_epoch": 3600, "temp_c": 11.0,
                 "feelslike_c": 10.0, "chance_of_rain": 10, "chance_of_snow": 0,
                 "precip_mm": 0.0, "humidity": 82, "wind_kph": 4.0,
                 "condition": {"text": "Clear"}}
            ]
        }]}
    }"#;
    let payload = payload(body, &Mode::Current { days: 1 }, true);
    let hourly = payload["hourly"].as_array().unwrap();
    assert_eq!(hourly.len(), 2);
    assert_eq!(hourly[0]["temp_c"], 12.0);
    assert_eq!(hourly[0]["condition"], "Clear");
    assert_eq!(hourly[1]["time_epoch"], 3600);
}

#[test]
fn build_payload_handles_history_response_without_current() {
    let body = r#"{
        "location": {"name": "Paris", "lat": 0.0, "lon": 0.0},
        "forecast": {"forecastday": [{
            "date": "2024-06-15",
            "day": {"mintemp_c": 13.5, "maxtemp_c": 22.0,
                    "condition": {"text": "Cloudy", "code": 1006}}
        }]}
    }"#;
    let date = chrono::NaiveDate::from_ymd_opt(2024, 6, 15).unwrap();
    let payload = payload(body, &Mode::SingleDate { date: day(date) }, false);
    assert!(payload["current"].is_null());
    assert_eq!(payload["requested_date"], "2024-06-15");
    assert_eq!(payload["forecast"][0]["t_max_c"], 22.0);
    assert_eq!(payload["forecast"][0]["condition"], "Cloudy");
}

#[test]
fn an_answer_may_lack_everything_but_the_place() {
    let p = payload(r#"{"location": null}"#, &Mode::Current { days: 1 }, true);
    assert_eq!(p["location"]["name"], "");
    assert_eq!(p["location"]["latitude"], 0.0);
    assert!(p["current"].is_null());
    assert_eq!(p["forecast"].as_array().unwrap().len(), 0);
    assert_eq!(p["hourly"].as_array().unwrap().len(), 0);
    assert!(p.get("astronomy").is_none());
    let err = build_payload(&value("{}"), &Mode::Current { days: 1 }, false).unwrap_err();
    assert_eq!(err.message(), "agent failed: WeatherAPI response missing `location`");
    let p = payload(
        r#"{"location": {}, "current": {"humidity": 65.5, "temp_c": -0.25, "uv": 3}}"#,
        &Mode::Current { days: 1 },
        false,
    );
    assert_eq!(p["current"]["humidity"], 0);
    assert_eq!(p["current"]["temp_c"], -0.3);
    assert_eq!(p["current"]["uv"], 3.0);
}

#[test]
fn fetch_json_surfaces_upstream_error_message() {
    let msg = "No matching location found.";
    let body = format!(r#"{{"error":{{"code":1006,"message":"{msg}"}}}}"#);
    match json_body(Outcome::Refused { status: 400, body: body.clone() }).unwrap_err() {
        AgentError::Upstream { status, body } => {
            assert_eq!(status, 400);
            assert_eq!(body, msg);
        }
        other => panic!("expected Upstream, got {other:?}"),
    }
    assert_eq!(refusal_message(&json::parse(&body), &body), msg);
}

#[test]
fn refusals_without_a_message_are_cut() {
    let long = "x".repeat(3000);
    assert_eq!(refusal_message(&Err("no json".into()), &long), "x".repeat(2048));
    let empty = r#"{"error":{"message":""}}"#;
    assert_eq!(refusal_message(&json::parse(empty), empty), empty);
}

#[test]
fn answers_must_be_json_of_bounded_size() {
    let told = |o: Outcome| json_body(o).unwrap_err().message();
    assert_eq!(
        told(Outcome::Body(vec![b' '; 131_073])),
        "agent failed: upstream body too large: 131073 bytes (cap 131072)"
    );
    assert!(told(Outcome::Body(b"{".to_vec())).starts_with("agent failed: upstream JSON parse: EOF"));
    assert_eq!(
        told(Outcome::ConnectFailed("e".into())),
        "agent failed: upstream connect/read failed: e"
    );
    let plan = with_key().begin_on(&value(r#"{"location": "L"}"#), 740_000).unwrap();
    let data = WeatherAgent::data(&plan, Outcome::Body(FORECAST.as_bytes().to_vec())).unwrap();
    assert_eq!(
        data.get("location").unwrap().get("name").unwrap().as_str(),
        Some("Paris")
    );
}

#[test]
fn the_weather_answer_is_json() {
    let v: Value = serde_json::from_str(&WeatherAgent::reply_at(Json::Bool(true), "then")).unwrap();
    assert_eq!(v["ok"], true);
    assert_eq!(v["data"], true);
    assert_eq!(v["source"], "weatherapi.com");
    assert_eq!(v["fetched_at"], "then");
    let v: Value = serde_json::from_str(&WeatherAgent::reply(Json::Null)).unwrap();
    assert!(v["fetched_at"].as_str().unwrap().contains('T'));
    assert_eq!(
        WeatherAgent::new(WeatherConfig { timeout_ms: 1, ..WeatherConfig::default() }).timeout_ms(),
        1000
    );
}
