//! The agent that tells the weather: now, in the coming days, or on a day in the
//! past, from the service of WeatherAPI.com.

use vstd::prelude::*;

use crate::agents;
use crate::agents::clock;
use crate::agents::clock::Moment;
use crate::agents::upstream;
use crate::agents::upstream::Outcome;
use crate::agents::{AgentError, AgentInfo, AgentView, ErrorView};
use crate::config::WeatherConfig;
use crate::json;
use crate::json::{Json, JsonView, NumView};
use crate::text;

verus! {

/// How many bytes of an answer are read.
pub const MAX_UPSTREAM_BYTES: usize = 131072;

/// How many days ahead a forecast reaches.
pub const MAX_FORECAST_DAYS: u32 = 14;

/// How many days a forecast has when none are asked for.
pub const DEFAULT_FORECAST_DAYS: u32 = 1;

/// The shortest timeout, in milliseconds.
pub const MIN_TIMEOUT_MS: u64 = 1000;

/// The first day with a history, 2010-01-01. Days are counted from the first of
/// January of the year one, which is day one.
pub const HISTORY_FLOOR: i32 = 733773;

/// The last day of the calendar.
pub const LAST_DAY: i32 = 95745399;

/// The first of January 1970.
pub const EPOCH_DAY: i32 = 719163;

// ---- Days ---------------------------------------------------------------

/// A day of the calendar, with the text that names it.
#[derive(Debug, Clone, PartialEq, Eq)]
pub struct Day {
    pub number: i32,
    pub text: String,
}

/// A day of the calendar, as values.
pub struct DayView {
    pub number: i32,
    pub text: Seq<char>,
}

impl View for Day {
    type V = DayView;

    open spec fn view(&self) -> DayView {
        DayView { number: self.number, text: self.text@ }
    }
}

/// A day that was read, or why it could not be, as values.
pub open spec fn day_view(r: Result<Day, String>) -> Result<DayView, Seq<char>> {
    match r {
        Ok(d) => Ok(d@),
        Err(e) => Err(e@),
    }
}

/// What `chrono::NaiveDate::parse_from_str` with `%Y-%m-%d` makes of a text: the
/// day's number and its text, or the text of the error.
pub uninterp spec fn read_day(s: Seq<char>) -> Result<DayView, Seq<char>>;

/// `chrono::NaiveDate::parse_from_str` with `%Y-%m-%d`, and of the date
/// `num_days_from_ce` and its text, or the error's text. All of it depends on the
/// text alone.
#[verifier::external_body]
fn parse_day(s: &str) -> (r: Result<Day, String>)
    ensures
        day_view(r) == read_day(s@),
{
    match chrono::NaiveDate::parse_from_str(s, "%Y-%m-%d") {
        Ok(d) => Ok(
            Day { number: chrono::Datelike::num_days_from_ce(&d), text: d.to_string() },
        ),
        Err(e) => Err(e.to_string()),
    }
}

/// The day of a moment in universal time.
pub open spec fn day_of(m: Moment) -> int {
    m.secs as int / 86400 + EPOCH_DAY as int
}

/// The day of a moment in universal time.
pub fn today_utc(m: Moment) -> (r: i32)
    requires
        m.in_range(),
    ensures
        r == day_of(m),
        EPOCH_DAY <= r <= LAST_DAY,
{
    let days: i64 = m.secs / 86400;
    (days as i32) + EPOCH_DAY
}

// ---- What is asked for --------------------------------------------------

/// What is asked for.
#[derive(Debug, Clone, PartialEq, Eq)]
pub enum Mode {
    /// The conditions now, and a forecast for so many days.
    Current { days: u32 },
    /// One day.
    SingleDate { date: Day },
}

/// What is asked for, as values.
pub enum ModeView {
    Current { days: u32 },
    SingleDate { date: DayView },
}

impl View for Mode {
    type V = ModeView;

    open spec fn view(&self) -> ModeView {
        match *self {
            Mode::Current { days } => ModeView::Current { days },
            Mode::SingleDate { date } => ModeView::SingleDate { date: date@ },
        }
    }
}

/// A mode or an error, as values.
pub open spec fn mode_view(r: Result<Mode, AgentError>) -> Result<ModeView, ErrorView> {
    match r {
        Ok(m) => Ok(m@),
        Err(e) => Err(e@),
    }
}

/// How many days a forecast has: at least one, at most as many as it reaches
/// ahead.
pub open spec fn horizon(days: Option<u32>) -> u32 {
    match days {
        Some(d) => if d < 1 {
            1
        } else if d > MAX_FORECAST_DAYS {
            MAX_FORECAST_DAYS
        } else {
            d
        },
        None => DEFAULT_FORECAST_DAYS,
    }
}

/// What is asked for with a day that was read from the text `d`.
pub open spec fn dated_mode(
    d: Seq<char>,
    read: Result<DayView, Seq<char>>,
    today: int,
) -> Result<ModeView, ErrorView> {
    match read {
        Err(e) => Err(
            ErrorView::InvalidArguments(
                "`date` must be a valid YYYY-MM-DD calendar date (got `"@ + d + "`: "@ + e + ")"@,
            ),
        ),
        Ok(day) => if today + MAX_FORECAST_DAYS > LAST_DAY {
            Err(ErrorView::AgentFailed("internal: date arithmetic overflow"@))
        } else if day.number < HISTORY_FLOOR {
            Err(
                ErrorView::InvalidArguments(
                    "`date` must be on or after 2010-01-01 (WeatherAPI free-tier history start), got `"@
                        + d + "`"@,
                ),
            )
        } else if day.number > today + MAX_FORECAST_DAYS {
            Err(
                ErrorView::InvalidArguments(
                    "`date` must be at most 14 days in the future (WeatherAPI free-tier forecast horizon); got `"@
                        + d + "`"@,
                ),
            )
        } else {
            Ok(ModeView::SingleDate { date: day })
        },
    }
}

/// What is asked for: a day when there is one, else a forecast.
pub open spec fn mode_of(days: Option<u32>, date: Option<Seq<char>>, today: int) -> Result<
    ModeView,
    ErrorView,
> {
    match date {
        Some(d) => dated_mode(d, read_day(d), today),
        None => Ok(ModeView::Current { days: horizon(days) }),
    }
}

/// What is asked for with a day that was read from the text `d`.
pub fn mode_for_day(d: &str, read: Result<Day, String>, today: i32) -> (r: Result<Mode, AgentError>)
    ensures
        mode_view(r) == dated_mode(d@, day_view(read), today as int),
{
    let day = match read {
        Ok(day) => day,
        Err(e) => {
            let mut m = text::own("`date` must be a valid YYYY-MM-DD calendar date (got `");
            m.append(d);
            m.append("`: ");
            m.append(e.as_str());
            m.append(")");
            return Err(AgentError::InvalidArguments(m));
        },
    };
    let last: i64 = today as i64 + MAX_FORECAST_DAYS as i64;
    if last > LAST_DAY as i64 {
        return Err(AgentError::AgentFailed(text::own("internal: date arithmetic overflow")));
    }
    if day.number < HISTORY_FLOOR {
        let mut m = text::own(
            "`date` must be on or after 2010-01-01 (WeatherAPI free-tier history start), got `",
        );
        m.append(d);
        m.append("`");
        return Err(AgentError::InvalidArguments(m));
    }
    if day.number as i64 > last {
        let mut m = text::own(
            "`date` must be at most 14 days in the future (WeatherAPI free-tier forecast horizon); got `",
        );
        m.append(d);
        m.append("`");
        return Err(AgentError::InvalidArguments(m));
    }
    Ok(Mode::SingleDate { date: day })
}

/// What is asked for.
pub fn select_mode(days: Option<u32>, date: Option<&str>, today: i32) -> (r: Result<
    Mode,
    AgentError,
>)
    ensures
        mode_view(r) == mode_of(
            days,
            match date {
                Some(d) => Some(d@),
                None => None,
            },
            today as int,
        ),
{
    match date {
        Some(d) => {
            let read = parse_day(d);
            mode_for_day(d, read, today)
        },
        None => {
            let days: u32 = match days {
                Some(d) => if d < 1 {
                    1
                } else if d > MAX_FORECAST_DAYS {
                    MAX_FORECAST_DAYS
                } else {
                    d
                },
                None => DEFAULT_FORECAST_DAYS,
            };
            Ok(Mode::Current { days })
        },
    }
}

// ---- The address --------------------------------------------------------

/// The address of what is asked for. A day before today is history.
pub open spec fn url_of(
    base_url: Seq<char>,
    api_key: Seq<char>,
    location: Seq<char>,
    mode: ModeView,
    today: int,
) -> Seq<char> {
    let asked = "?key="@ + upstream::encoded(text::utf8(api_key), true) + "&q="@
        + upstream::encoded(text::utf8(location), true);
    match mode {
        ModeView::Current { days } => base_url + "/v1/forecast.json"@ + asked + "&days="@
            + text::digits(days as nat) + "&aqi=no&alerts=no"@,
        ModeView::SingleDate { date } => if date.number < today {
            base_url + "/v1/history.json"@ + asked + "&dt="@ + date.text
        } else {
            base_url + "/v1/forecast.json"@ + asked + "&dt="@ + date.text + "&aqi=no&alerts=no"@
        },
    }
}

/// The address of what is asked for.
pub fn build_url(base_url: &str, api_key: &str, location: &str, mode: &Mode, today: i32) -> (r:
    String)
    ensures
        r@ == url_of(base_url@, api_key@, location@, mode@, today as int),
{
    let q = upstream::url_encode(location, true);
    let key = upstream::url_encode(api_key, true);
    let mut asked = text::own("?key=");
    asked.append(key.as_str());
    asked.append("&q=");
    asked.append(q.as_str());
    let mut out = text::own(base_url);
    match mode {
        Mode::Current { days } => {
            out.append("/v1/forecast.json");
            out.append(asked.as_str());
            out.append("&days=");
            text::push_digits(&mut out, *days as u64);
            out.append("&aqi=no&alerts=no");
        },
        Mode::SingleDate { date } => {
            if date.number < today {
                out.append("/v1/history.json");
                out.append(asked.as_str());
                out.append("&dt=");
                out.append(date.text.as_str());
            } else {
                out.append("/v1/forecast.json");
                out.append(asked.as_str());
                out.append("&dt=");
                out.append(date.text.as_str());
                out.append("&aqi=no&alerts=no");
            }
        },
    }
    out
}

// ---- Arguments ----------------------------------------------------------

/// What the model asked for.
#[derive(Debug, Clone, PartialEq, Eq)]
pub struct WeatherArgs {
    pub location: String,
    pub days: Option<u32>,
    pub date: Option<String>,
    pub hourly: bool,
}

/// What the model asked for, as values.
pub struct WeatherArgsView {
    pub location: Seq<char>,
    pub days: Option<u32>,
    pub date: Option<Seq<char>>,
    pub hourly: bool,
}

impl View for WeatherArgs {
    type V = WeatherArgsView;

    open spec fn view(&self) -> WeatherArgsView {
        WeatherArgsView {
            location: self.location@,
            days: self.days,
            date: text::opt_text(self.date),
            hourly: self.hourly,
        }
    }
}

/// What the arguments of a call ask for.
pub open spec fn args_of(v: JsonView) -> Result<WeatherArgsView, ErrorView> {
    if !(v is Object) {
        Err(ErrorView::InvalidArguments("arguments must be a JSON object"@))
    } else {
        match json::str_of(json::field(v, "location"@)) {
            None => Err(ErrorView::InvalidArguments("`location` (string) is required"@)),
            Some(raw) => if text::trim(raw).len() == 0 {
                Err(ErrorView::InvalidArguments("`location` must not be empty"@))
            } else {
                Ok(
                    WeatherArgsView {
                        location: text::trim(raw),
                        days: match json::int_of(json::field(v, "days"@), 0, u64::MAX as int) {
                            Some(n) => Some(
                                if n > u32::MAX {
                                    u32::MAX
                                } else {
                                    n as u32
                                },
                            ),
                            None => None,
                        },
                        date: match json::str_of(json::field(v, "date"@)) {
                            Some(d) => if text::trim(d).len() == 0 {
                                None
                            } else {
                                Some(text::trim(d))
                            },
                            None => None,
                        },
                        hourly: json::bool_of(json::field(v, "hourly"@)) == Some(true),
                    },
                )
            },
        }
    }
}

/// Arguments or an error, as values.
pub open spec fn args_view(r: Result<WeatherArgs, AgentError>) -> Result<
    WeatherArgsView,
    ErrorView,
> {
    match r {
        Ok(a) => Ok(a@),
        Err(e) => Err(e@),
    }
}

/// The trimmed text of the member `name`.
fn trimmed_member(args: &Json, name: &str) -> (r: Option<String>)
    ensures
        match json::str_of(json::field(args@, name@)) {
            Some(s) => r is Some && r->0@ == text::trim(s),
            None => r is None,
        },
{
    match args.get(name) {
        Some(j) => match j.as_str() {
            Some(s) => Some(text::trimmed(s)),
            None => None,
        },
        None => None,
    }
}

/// Whether a text is empty.
fn is_empty(s: &str) -> (r: bool)
    ensures
        r == (s@.len() == 0),
{
    let v = text::chars_of(s);
    v.len() == 0
}

/// What the arguments of a call ask for.
pub fn parse_args(args: &Json) -> (r: Result<WeatherArgs, AgentError>)
    ensures
        args_view(r) == args_of(args@),
{
    if !args.is_object() {
        return Err(AgentError::InvalidArguments(text::own("arguments must be a JSON object")));
    }
    let location = match trimmed_member(args, "location") {
        Some(s) => s,
        None => {
            return Err(
                AgentError::InvalidArguments(text::own("`location` (string) is required")),
            );
        },
    };
    if is_empty(location.as_str()) {
        return Err(AgentError::InvalidArguments(text::own("`location` must not be empty")));
    }
    let days: Option<u32> = match args.get("days") {
        Some(j) => match j.as_u64() {
            Some(n) => if n > u32::MAX as u64 {
                Some(u32::MAX)
            } else {
                Some(n as u32)
            },
            None => None,
        },
        None => None,
    };
    let date = match trimmed_member(args, "date") {
        Some(d) => if is_empty(d.as_str()) {
            None
        } else {
            Some(d)
        },
        None => None,
    };
    let hourly = match args.get("hourly") {
        Some(j) => match j.as_bool() {
            Some(b) => b,
            None => false,
        },
        None => false,
    };
    Ok(WeatherArgs { location, days, date, hourly })
}

// ---- Answers of the service ---------------------------------------------

/// The member `name` of a value that may be missing.
pub open spec fn below(v: Option<JsonView>, name: Seq<char>) -> Option<JsonView> {
    match v {
        Some(x) => json::field(x, name),
        None => None,
    }
}

/// The member `name` of a value that may be missing.
fn get_in<'a>(v: Option<&'a Json>, name: &str) -> (r: Option<&'a Json>)
    ensures
        json::opt_view(r) == below(json::opt_view(v), name@),
{
    match v {
        Some(j) => j.get(name),
        None => None,
    }
}

/// What is told of a refusal: the message that the service gives in a JSON body,
/// or the beginning of the body.
pub open spec fn refusal_text(parsed: Result<JsonView, Seq<char>>, body: Seq<char>) -> Seq<char> {
    let message = match parsed {
        Ok(v) => json::str_of(below(json::field(v, "error"@), "message"@)),
        Err(_) => None,
    };
    match message {
        Some(m) => if m.len() > 0 {
            m
        } else {
            upstream::head_of(body, upstream::MAX_REFUSAL_BYTES as int)
        },
        None => upstream::head_of(body, upstream::MAX_REFUSAL_BYTES as int),
    }
}

/// A value that was read, or why it could not be, as values.
pub open spec fn parsed_view(r: Result<Json, String>) -> Result<JsonView, Seq<char>> {
    match r {
        Ok(j) => Ok(j@),
        Err(e) => Err(e@),
    }
}

/// What is told of a refusal.
pub fn refusal_message(parsed: &Result<Json, String>, body: &str) -> (r: String)
    ensures
        r@ == refusal_text(parsed_view(*parsed), body@),
{
    let error = match parsed {
        Ok(j) => j.get("error"),
        Err(_) => None,
    };
    match get_in(error, "message") {
        Some(j) => match j.as_str() {
            Some(m) => {
                if !is_empty(m) {
                    return text::own(m);
                }
            },
            None => {},
        },
        None => {},
    }
    upstream::truncate(body, upstream::MAX_REFUSAL_BYTES)
}

/// The JSON of an answer, or why there is none.
pub open spec fn json_of(o: Outcome) -> Result<JsonView, ErrorView> {
    match o {
        Outcome::Refused { status, body } => Err(
            ErrorView::Upstream { status, body: refusal_text(json::json_parse(body@), body@) },
        ),
        _ => match upstream::body_of(o, MAX_UPSTREAM_BYTES as int) {
            Err(e) => Err(e),
            Ok(b) => match json::json_parse_bytes(b) {
                Ok(v) => Ok(v),
                Err(e) => Err(ErrorView::AgentFailed("upstream JSON parse: "@ + e)),
            },
        },
    }
}

/// JSON or an error, as values.
pub open spec fn json_view(r: Result<Json, AgentError>) -> Result<JsonView, ErrorView> {
    match r {
        Ok(j) => Ok(j@),
        Err(e) => Err(e@),
    }
}

/// The JSON of an answer.
pub fn json_body(o: Outcome) -> (r: Result<Json, AgentError>)
    ensures
        json_view(r) == json_of(o),
{
    match o {
        Outcome::Refused { status, body } => {
            let parsed = json::parse(body.as_str());
            let told = refusal_message(&parsed, body.as_str());
            Err(AgentError::Upstream { status, body: told })
        },
        o => match upstream::body_within(o, MAX_UPSTREAM_BYTES) {
            Err(e) => Err(e),
            Ok(b) => match json::parse_bytes(b.as_slice()) {
                Ok(j) => Ok(j),
                Err(e) => {
                    let m = text::own("upstream JSON parse: ").concat(e.as_str());
                    Err(AgentError::AgentFailed(m))
                },
            },
        },
    }
}

// ---- What the model is told ---------------------------------------------

/// A text, the empty one when there is none.
pub open spec fn text_leaf(v: Option<JsonView>) -> JsonView {
    match json::str_of(v) {
        Some(s) => JsonView::Str(s),
        None => JsonView::Str(Seq::empty()),
    }
}

/// An integer, zero when there is none.
pub open spec fn count(v: Option<JsonView>) -> JsonView {
    match json::int_of(v, i64::MIN as int, i64::MAX as int) {
        Some(n) => JsonView::Num(NumView::Int(n)),
        None => JsonView::Num(NumView::Int(0)),
    }
}

/// A measured number as it came, nothing when there is none. What remains of its
/// decimals, and that a missing one counts as zero, [`decimals_of`] says.
pub open spec fn measure(v: Option<JsonView>) -> JsonView {
    match v {
        Some(JsonView::Num(n)) => JsonView::Num(n),
        _ => JsonView::Null,
    }
}

/// How many decimals of a measured number remain.
#[derive(Debug, Clone, Copy, PartialEq, Eq, Structural)]
pub enum Decimals {
    /// All of them.
    All,
    /// One.
    One,
    /// Four.
    Four,
}

/// How many decimals remain of the measured number in the member `name`; nothing
/// for a member that is no measured number.
pub open spec fn decimals_of(name: Seq<char>) -> Option<Decimals> {
    if name == "latitude"@ || name == "longitude"@ {
        Some(Decimals::Four)
    } else if name == "temp_c"@ || name == "feels_like_c"@ || name == "wind_kmh"@ || name
        == "t_min_c"@ || name == "t_max_c"@ || name == "avg_temp_c"@ || name == "max_wind_kmh"@ {
        Some(Decimals::One)
    } else if name == "pressure_mb"@ || name == "uv"@ || name == "avg_humidity"@ || name
        == "total_precip_mm"@ || name == "precip_mm"@ {
        Some(Decimals::All)
    } else {
        None
    }
}

/// How many decimals remain of the measured number in the member `name`.
pub fn decimals(name: &str) -> (r: Option<Decimals>)
    ensures
        r == decimals_of(name@),
{
    if text::same(name, "latitude") || text::same(name, "longitude") {
        Some(Decimals::Four)
    } else if text::same(name, "temp_c") || text::same(name, "feels_like_c") || text::same(
        name,
        "wind_kmh",
    ) || text::same(name, "t_min_c") || text::same(name, "t_max_c") || text::same(
        name,
        "avg_temp_c",
    ) || text::same(name, "max_wind_kmh") {
        Some(Decimals::One)
    } else if text::same(name, "pressure_mb") || text::same(name, "uv") || text::same(
        name,
        "avg_humidity",
    ) || text::same(name, "total_precip_mm") || text::same(name, "precip_mm") {
        Some(Decimals::All)
    } else {
        None
    }
}

/// A text, the empty one when there is none.
fn text_value(v: Option<&Json>) -> (r: Json)
    ensures
        r@ == text_leaf(json::opt_view(v)),
{
    match v {
        Some(j) => match j.as_str() {
            Some(s) => Json::text(s),
            None => Json::Str(String::new()),
        },
        None => Json::Str(String::new()),
    }
}

/// An integer, zero when there is none.
fn count_value(v: Option<&Json>) -> (r: Json)
    ensures
        r@ == count(json::opt_view(v)),
{
    match v {
        Some(j) => match j.as_i64() {
            Some(n) => Json::signed(n),
            None => Json::signed(0),
        },
        None => Json::signed(0),
    }
}

/// A measured number as it came, nothing when there is none.
fn measure_value(v: Option<&Json>) -> (r: Json)
    ensures
        r@ == measure(json::opt_view(v)),
{
    match v {
        Some(j) => match j {
            Json::Num(n) => Json::Num(n.clone()),
            _ => Json::Null,
        },
        None => Json::Null,
    }
}

/// The place, for the model.
pub open spec fn location_data(v: JsonView) -> JsonView {
    let o = Some(v);
    JsonView::Object(
        map![
            "name"@ => text_leaf(below(o, "name"@)),
            "region"@ => text_leaf(below(o, "region"@)),
            "country"@ => text_leaf(below(o, "country"@)),
            "latitude"@ => measure(below(o, "lat"@)),
            "longitude"@ => measure(below(o, "lon"@)),
            "timezone"@ => text_leaf(below(o, "tz_id"@)),
            "localtime"@ => text_leaf(below(o, "localtime"@)),
        ],
    )
}

/// The place, for the model.
pub fn shape_location(v: &Json) -> (r: Json)
    ensures
        r@ == location_data(v@),
{
    let o = Some(v);
    let mut j = Json::object();
    j.set("name", text_value(get_in(o, "name")));
    j.set("region", text_value(get_in(o, "region")));
    j.set("country", text_value(get_in(o, "country")));
    j.set("latitude", measure_value(get_in(o, "lat")));
    j.set("longitude", measure_value(get_in(o, "lon")));
    j.set("timezone", text_value(get_in(o, "tz_id")));
    j.set("localtime", text_value(get_in(o, "localtime")));
    assert(j@ == location_data(v@));
    j
}

/// The current conditions, for the model.
pub open spec fn current_data(v: JsonView) -> JsonView {
    let o = Some(v);
    JsonView::Object(
        map![
            "as_of"@ => text_leaf(below(o, "last_updated"@)),
            "temp_c"@ => measure(below(o, "temp_c"@)),
            "feels_like_c"@ => measure(below(o, "feelslike_c"@)),
            "humidity"@ => count(below(o, "humidity"@)),
            "wind_kmh"@ => measure(below(o, "wind_kph"@)),
            "wind_dir"@ => text_leaf(below(o, "wind_dir"@)),
            "pressure_mb"@ => measure(below(o, "pressure_mb"@)),
            "uv"@ => measure(below(o, "uv"@)),
            "condition"@ => text_leaf(below(below(o, "condition"@), "text"@)),
            "condition_code"@ => count(below(below(o, "condition"@), "code"@)),
        ],
    )
}

/// The current conditions, for the model.
pub fn shape_current(v: &Json) -> (r: Json)
    ensures
        r@ == current_data(v@),
{
    let o = Some(v);
    let mut j = Json::object();
    j.set("as_of", text_value(get_in(o, "last_updated")));
    j.set("temp_c", measure_value(get_in(o, "temp_c")));
    j.set("feels_like_c", measure_value(get_in(o, "feelslike_c")));
    j.set("humidity", count_value(get_in(o, "humidity")));
    j.set("wind_kmh", measure_value(get_in(o, "wind_kph")));
    j.set("wind_dir", text_value(get_in(o, "wind_dir")));
    j.set("pressure_mb", measure_value(get_in(o, "pressure_mb")));
    j.set("uv", measure_value(get_in(o, "uv")));
    j.set("condition", text_value(get_in(get_in(o, "condition"), "text")));
    j.set("condition_code", count_value(get_in(get_in(o, "condition"), "code")));
    assert(j@ == current_data(v@));
    j
}

/// Sun and moon, for the model.
pub open spec fn astro_data(v: JsonView) -> JsonView {
    let o = Some(v);
    JsonView::Object(
        map![
            "sunrise"@ => text_leaf(below(o, "sunrise"@)),
            "sunset"@ => text_leaf(below(o, "sunset"@)),
            "moonrise"@ => text_leaf(below(o, "moonrise"@)),
            "moonset"@ => text_leaf(below(o, "moonset"@)),
            "moon_phase"@ => text_leaf(below(o, "moon_phase"@)),
            "moon_illumination"@ => text_leaf(below(o, "moon_illumination"@)),
        ],
    )
}

/// Sun and moon, for the model.
pub fn shape_astronomy(v: &Json) -> (r: Json)
    ensures
        r@ == astro_data(v@),
{
    let o = Some(v);
    let mut j = Json::object();
    j.set("sunrise", text_value(get_in(o, "sunrise")));
    j.set("sunset", text_value(get_in(o, "sunset")));
    j.set("moonrise", text_value(get_in(o, "moonrise")));
    j.set("moonset", text_value(get_in(o, "moonset")));
    j.set("moon_phase", text_value(get_in(o, "moon_phase")));
    j.set("moon_illumination", text_value(get_in(o, "moon_illumination")));
    assert(j@ == astro_data(v@));
    j
}

/// One day of a forecast, for the model.
pub open spec fn day_data(v: JsonView) -> JsonView {
    let o = Some(v);
    JsonView::Object(
        map![
            "date"@ => text_leaf(below(o, "date"@)),
            "t_min_c"@ => measure(below(below(o, "day"@), "mintemp_c"@)),
            "t_max_c"@ => measure(below(below(o, "day"@), "maxtemp_c"@)),
            "avg_temp_c"@ => measure(below(below(o, "day"@), "avgtemp_c"@)),
            "avg_humidity"@ => measure(below(below(o, "day"@), "avghumidity"@)),
            "total_precip_mm"@ => measure(below(below(o, "day"@), "totalprecip_mm"@)),
            "chance_of_rain"@ => count(below(below(o, "day"@), "daily_chance_of_rain"@)),
            "chance_of_snow"@ => count(below(below(o, "day"@), "daily_chance_of_snow"@)),
            "max_wind_kmh"@ => measure(below(below(o, "day"@), "maxwind_kph"@)),
            "uv"@ => measure(below(below(o, "day"@), "uv"@)),
            "condition"@ => text_leaf(below(below(below(o, "day"@), "condition"@), "text"@)),
            "condition_code"@ => count(below(below(below(o, "day"@), "condition"@), "code"@)),
        ],
    )
}

/// One day of a forecast, for the model.
pub fn shape_forecast_day(v: &Json) -> (r: Json)
    ensures
        r@ == day_data(v@),
{
    let o = Some(v);
    let mut j = Json::object();
    j.set("date", text_value(get_in(o, "date")));
    j.set("t_min_c", measure_value(get_in(get_in(o, "day"), "mintemp_c")));
    j.set("t_max_c", measure_value(get_in(get_in(o, "day"), "maxtemp_c")));
    j.set("avg_temp_c", measure_value(get_in(get_in(o, "day"), "avgtemp_c")));
    j.set("avg_humidity", measure_value(get_in(get_in(o, "day"), "avghumidity")));
    j.set("total_precip_mm", measure_value(get_in(get_in(o, "day"), "totalprecip_mm")));
    j.set("chance_of_rain", count_value(get_in(get_in(o, "day"), "daily_chance_of_rain")));
    j.set("chance_of_snow", count_value(get_in(get_in(o, "day"), "daily_chance_of_snow")));
    j.set("max_wind_kmh", measure_value(get_in(get_in(o, "day"), "maxwind_kph")));
    j.set("uv", measure_value(get_in(get_in(o, "day"), "uv")));
    j.set("condition", text_value(get_in(get_in(get_in(o, "day"), "condition"), "text")));
    j.set("condition_code", count_value(get_in(get_in(get_in(o, "day"), "condition"), "code")));
    assert(j@ == day_data(v@));
    j
}

/// One hour, for the model.
pub open spec fn hour_data(v: JsonView) -> JsonView {
    let o = Some(v);
    JsonView::Object(
        map![
            "time"@ => text_leaf(below(o, "time"@)),
            "time_epoch"@ => count(below(o, "time_epoch"@)),
            "temp_c"@ => measure(below(o, "temp_c"@)),
            "feels_like_c"@ => measure(below(o, "feelslike_c"@)),
            "chance_of_rain"@ => count(below(o, "chance_of_rain"@)),
            "chance_of_snow"@ => count(below(o, "chance_of_snow"@)),
            "precip_mm"@ => measure(below(o, "precip_mm"@)),
            "humidity"@ => count(below(o, "humidity"@)),
            "wind_kmh"@ => measure(below(o, "wind_kph"@)),
            "condition"@ => text_leaf(below(below(o, "condition"@), "text"@)),
        ],
    )
}

/// One hour, for the model.
pub fn shape_hour(v: &Json) -> (r: Json)
    ensures
        r@ == hour_data(v@),
{
    let o = Some(v);
    let mut j = Json::object();
    j.set("time", text_value(get_in(o, "time")));
    j.set("time_epoch", count_value(get_in(o, "time_epoch")));
    j.set("temp_c", measure_value(get_in(o, "temp_c")));
    j.set("feels_like_c", measure_value(get_in(o, "feelslike_c")));
    j.set("chance_of_rain", count_value(get_in(o, "chance_of_rain")));
    j.set("chance_of_snow", count_value(get_in(o, "chance_of_snow")));
    j.set("precip_mm", measure_value(get_in(o, "precip_mm")));
    j.set("humidity", count_value(get_in(o, "humidity")));
    j.set("wind_kmh", measure_value(get_in(o, "wind_kph")));
    j.set("condition", text_value(get_in(get_in(o, "condition"), "text")));
    assert(j@ == hour_data(v@));
    j
}

/// The days of a forecast.
pub open spec fn days_of(body: JsonView) -> Option<Seq<JsonView>> {
    json::items_of(below(json::field(body, "forecast"@), "forecastday"@))
}

/// The first day of a forecast.
pub open spec fn first_day(body: JsonView) -> Option<JsonView> {
    match days_of(body) {
        Some(days) => if days.len() > 0 {
            Some(days[0])
        } else {
            None
        },
        None => None,
    }
}

/// The forecast, day by day.
pub open spec fn forecast_data(body: JsonView) -> JsonView {
    match days_of(body) {
        Some(days) => JsonView::Array(days.map_values(|d: JsonView| day_data(d))),
        None => JsonView::Array(Seq::empty()),
    }
}

/// The first day, hour by hour.
pub open spec fn hourly_data(body: JsonView) -> JsonView {
    match json::items_of(below(first_day(body), "hour"@)) {
        Some(hours) => JsonView::Array(hours.map_values(|h: JsonView| hour_data(h))),
        None => JsonView::Array(Seq::empty()),
    }
}

/// `m` with the member `name` when there is a value for it.
pub open spec fn with_some(
    m: Map<Seq<char>, JsonView>,
    name: Seq<char>,
    v: Option<JsonView>,
) -> Map<Seq<char>, JsonView> {
    match v {
        Some(x) => m.insert(name, x),
        None => m,
    }
}

/// What the model is told of an answer.
pub open spec fn payload_of(body: JsonView, mode: ModeView, include_hourly: bool) -> Result<
    JsonView,
    ErrorView,
> {
    match json::field(body, "location"@) {
        None => Err(ErrorView::AgentFailed("WeatherAPI response missing `location`"@)),
        Some(l) => {
            let m0 = map![
                "location"@ => location_data(l),
                "current"@ => match json::field(body, "current"@) {
                    Some(c) => current_data(c),
                    None => JsonView::Null,
                },
                "forecast"@ => forecast_data(body),
            ];
            let m1 = with_some(
                m0,
                "astronomy"@,
                match below(first_day(body), "astro"@) {
                    Some(a) => Some(astro_data(a)),
                    None => None,
                },
            );
            let m2 = with_some(
                m1,
                "hourly"@,
                if include_hourly {
                    Some(hourly_data(body))
                } else {
                    None
                },
            );
            let m3 = with_some(
                m2,
                "requested_date"@,
                match mode {
                    ModeView::SingleDate { date } => Some(JsonView::Str(date.text)),
                    ModeView::Current { .. } => None,
                },
            );
            Ok(JsonView::Object(m3))
        },
    }
}

/// The list of a forecast's days in an answer.
fn day_list(body: &Json) -> (r: Option<&Vec<Json>>)
    ensures
        match r {
            Some(v) => days_of(body@) == Some(json::items_view(v@, v@.len())),
            None => days_of(body@) is None,
        },
{
    match get_in(body.get("forecast"), "forecastday") {
        Some(j) => j.as_array(),
        None => None,
    }
}

/// The forecast, day by day.
fn shape_forecast(body: &Json) -> (r: Json)
    ensures
        r@ == forecast_data(body@),
{
    let mut out: Vec<Json> = Vec::new();
    match day_list(body) {
        Some(days) => {
            let ghost all = json::items_view(days@, days@.len());
            let ghost shaped = all.map_values(|d: JsonView| day_data(d));
            proof {
                json::lemma_items(days@, days@.len());
            }
            let mut i: usize = 0;
            while i < days.len()
                invariant
                    i <= days.len(),
                    out@.len() == i,
                    all == json::items_view(days@, days@.len()),
                    all.len() == days@.len(),
                    forall|k: int| 0 <= k < days@.len() ==> #[trigger] all[k] == days@[k]@,
                    shaped == all.map_values(|d: JsonView| day_data(d)),
                    json::items_view(out@, i as nat) == shaped.take(i as int),
                decreases days.len() - i,
            {
                let ghost before = out@;
                assert(all[i as int] == days@[i as int]@);
                out.push(shape_forecast_day(&days[i]));
                proof {
                    json::lemma_items_prefix(before, out@, i as nat);
                    assert(shaped.take(i + 1) == shaped.take(i as int).push(shaped[i as int]));
                }
                i += 1;
            }
            assert(shaped.take(i as int) == shaped);
        },
        None => {},
    }
    Json::Array(out)
}

/// The first day of a forecast.
fn first_of(body: &Json) -> (r: Option<&Json>)
    ensures
        json::opt_view(r) == first_day(body@),
{
    match day_list(body) {
        Some(days) => {
            proof {
                json::lemma_items(days@, days@.len());
            }
            if days.len() > 0 {
                Some(&days[0])
            } else {
                None
            }
        },
        None => None,
    }
}

/// The first day, hour by hour.
fn shape_hourly(body: &Json) -> (r: Json)
    ensures
        r@ == hourly_data(body@),
{
    let mut out: Vec<Json> = Vec::new();
    let list = match get_in(first_of(body), "hour") {
        Some(j) => j.as_array(),
        None => None,
    };
    match list {
        Some(hours) => {
            let ghost all = json::items_view(hours@, hours@.len());
            let ghost shaped = all.map_values(|h: JsonView| hour_data(h));
            proof {
                json::lemma_items(hours@, hours@.len());
            }
            let mut i: usize = 0;
            while i < hours.len()
                invariant
                    i <= hours.len(),
                    out@.len() == i,
                    all == json::items_view(hours@, hours@.len()),
                    all.len() == hours@.len(),
                    forall|k: int| 0 <= k < hours@.len() ==> #[trigger] all[k] == hours@[k]@,
                    shaped == all.map_values(|h: JsonView| hour_data(h)),
                    json::items_view(out@, i as nat) == shaped.take(i as int),
                decreases hours.len() - i,
            {
                let ghost before = out@;
                assert(all[i as int] == hours@[i as int]@);
                out.push(shape_hour(&hours[i]));
                proof {
                    json::lemma_items_prefix(before, out@, i as nat);
                    assert(shaped.take(i + 1) == shaped.take(i as int).push(shaped[i as int]));
                }
                i += 1;
            }
            assert(shaped.take(i as int) == shaped);
        },
        None => {},
    }
    Json::Array(out)
}

/// What the model is told of an answer. The measured numbers are as they came.
pub fn build_payload(body: &Json, mode: &Mode, include_hourly: bool) -> (r: Result<
    Json,
    AgentError,
>)
    ensures
        json_view(r) == payload_of(body@, mode@, include_hourly),
{
    let location = match body.get("location") {
        Some(l) => shape_location(l),
        None => {
            return Err(
                AgentError::AgentFailed(text::own("WeatherAPI response missing `location`")),
            );
        },
    };
    let current = match body.get("current") {
        Some(c) => shape_current(c),
        None => Json::Null,
    };
    let mut out = Json::object();
    out.set("location", location);
    out.set("current", current);
    out.set("forecast", shape_forecast(body));
    match get_in(first_of(body), "astro") {
        Some(a) => {
            out.set("astronomy", shape_astronomy(a));
        },
        None => {},
    }
    if include_hourly {
        out.set("hourly", shape_hourly(body));
    }
    match mode {
        Mode::SingleDate { date } => {
            out.set("requested_date", Json::text(date.text.as_str()));
        },
        Mode::Current { .. } => {},
    }
    Ok(out)
}

/// The answer of the agent around its data.
pub open spec fn answer_data(data: JsonView, fetched_at: Seq<char>) -> JsonView {
    JsonView::Object(
        map![
            "ok"@ => JsonView::Bool(true),
            "data"@ => data,
            "source"@ => JsonView::Str("weatherapi.com"@),
            "fetched_at"@ => JsonView::Str(fetched_at),
        ],
    )
}

// ---- The agent ----------------------------------------------------------

/// What the agent is for.
pub const DESCRIPTION: &'static str =
    "Météo actuelle, prévisions jusqu'à 14 jours, données horaires 24h, historique et astronomie (lever/coucher du soleil, phase de lune) pour un lieu donné. Powered by WeatherAPI.com — WEATHER_API_KEY requis (clé gratuite sur weatherapi.com). Use for 'météo à Paris', 'will it rain in London tonight', 'coucher de soleil à Tokyo', 'UV à Lyon ce week-end'. Pass `location` (required, accepts city name, 'lat,lon', postal code). Optionally pass `date` (YYYY-MM-DD), `days` (1-14, default 1, ignored when `date` is set), `hourly` (bool, default false).";

/// What the place is.
pub const LOCATION_DESCRIPTION: &'static str =
    "City name (e.g. 'Paris', 'Tokyo'), 'lat,lon' (e.g. '48.8566,2.3522'), postal code, or iata code. WeatherAPI resolves it server-side.";

/// What the number of days is.
pub const DAYS_DESCRIPTION: &'static str =
    "Forecast horizon in days, capped at 14. Ignored when `date` is set.";

/// What the day is.
pub const DATE_DESCRIPTION: &'static str =
    "Specific day in YYYY-MM-DD. Past dates hit the history endpoint (back to 2010-01-01 on the free tier). Future dates up to 14 days ahead hit the forecast endpoint. Mutually exclusive with `days`.";

/// What a day looks like.
pub const DATE_PATTERN: &'static str = "^\\d{4}-\\d{2}-\\d{2}$";

/// What the hours are.
pub const HOURLY_DESCRIPTION: &'static str =
    "Include a 24-hour hourly breakdown (temperature, precipitation chance, wind). Useful for 'will it rain tonight?' queries.";

/// The complaint about a missing key.
pub const NO_KEY: &'static str =
    "WEATHER_API_KEY is not configured on the server — register at https://www.weatherapi.com/ for a free key and set it in the environment";

/// The schema of the number of days.
pub open spec fn days_schema() -> JsonView {
    JsonView::Object(
        map![
            "type"@ => JsonView::Str("integer"@),
            "minimum"@ => JsonView::Num(NumView::Int(1)),
            "maximum"@ => JsonView::Num(NumView::Int(14)),
            "default"@ => JsonView::Num(NumView::Int(1)),
            "description"@ => JsonView::Str(DAYS_DESCRIPTION@),
        ],
    )
}

/// The schema of the day.
pub open spec fn date_schema() -> JsonView {
    JsonView::Object(
        map![
            "type"@ => JsonView::Str("string"@),
            "pattern"@ => JsonView::Str(DATE_PATTERN@),
            "description"@ => JsonView::Str(DATE_DESCRIPTION@),
        ],
    )
}

/// The schema of the hours.
pub open spec fn hourly_schema() -> JsonView {
    JsonView::Object(
        map![
            "type"@ => JsonView::Str("boolean"@),
            "default"@ => JsonView::Bool(false),
            "description"@ => JsonView::Str(HOURLY_DESCRIPTION@),
        ],
    )
}

/// The schema of the arguments.
pub open spec fn schema() -> JsonView {
    JsonView::Object(
        map![
            "type"@ => JsonView::Str("object"@),
            "properties"@ => JsonView::Object(map![
                "location"@ => agents::string_schema(LOCATION_DESCRIPTION@),
                "days"@ => days_schema(),
                "date"@ => date_schema(),
                "hourly"@ => hourly_schema(),
            ]),
            "required"@ => JsonView::Array(seq![JsonView::Str("location"@)]),
            "additionalProperties"@ => JsonView::Bool(false),
        ],
    )
}

/// What is to be asked of the service, and how its answer is told.
#[derive(Debug, Clone, PartialEq, Eq)]
pub struct WeatherPlan {
    pub url: String,
    pub mode: Mode,
    pub hourly: bool,
}

/// What is to be asked of the service, as values.
pub struct WeatherPlanView {
    pub url: Seq<char>,
    pub mode: ModeView,
    pub hourly: bool,
}

impl View for WeatherPlan {
    type V = WeatherPlanView;

    open spec fn view(&self) -> WeatherPlanView {
        WeatherPlanView { url: self.url@, mode: self.mode@, hourly: self.hourly }
    }
}

/// A plan or an error, as values.
pub open spec fn plan_view(r: Result<WeatherPlan, AgentError>) -> Result<
    WeatherPlanView,
    ErrorView,
> {
    match r {
        Ok(p) => Ok(p@),
        Err(e) => Err(e@),
    }
}

/// What the agent does first with the arguments of a call.
pub open spec fn plan_on(cfg: WeatherConfig, v: JsonView, today: int) -> Result<
    WeatherPlanView,
    ErrorView,
> {
    if text::trim(cfg.api_key@).len() == 0 {
        Err(ErrorView::AgentFailed(NO_KEY@))
    } else {
        match args_of(v) {
            Err(e) => Err(e),
            Ok(a) => match mode_of(a.days, a.date, today) {
                Err(e) => Err(e),
                Ok(mode) => Ok(
                    WeatherPlanView {
                        url: url_of(cfg.base_url@, cfg.api_key@, a.location, mode, today),
                        mode,
                        hourly: a.hourly,
                    },
                ),
            },
        }
    }
}

/// The agent.
#[derive(Debug)]
pub struct WeatherAgent {
    pub cfg: WeatherConfig,
}

impl WeatherAgent {
    /// The agent with its credentials.
    pub fn new(cfg: WeatherConfig) -> (r: Self)
        ensures
            r.cfg == cfg,
    {
        WeatherAgent { cfg }
    }

    /// How long a request may take, in milliseconds.
    pub fn timeout_ms(&self) -> (r: u64)
        ensures
            r == if self.cfg.timeout_ms < MIN_TIMEOUT_MS {
                MIN_TIMEOUT_MS
            } else {
                self.cfg.timeout_ms
            },
            r >= 1000,
            self.cfg.timeout_ms >= 1000 ==> r == self.cfg.timeout_ms,
    {
        if self.cfg.timeout_ms < MIN_TIMEOUT_MS {
            MIN_TIMEOUT_MS
        } else {
            self.cfg.timeout_ms
        }
    }

    /// The name by which the model calls the agent.
    pub fn name(&self) -> (r: &'static str)
        ensures
            r@ == "get_weather"@,
    {
        "get_weather"
    }

    /// What the agent is for.
    pub fn description(&self) -> (r: &'static str)
        ensures
            r@ == DESCRIPTION@,
    {
        DESCRIPTION
    }

    /// The schema of the arguments.
    pub fn parameters_schema(&self) -> (r: Json)
        ensures
            r@ == schema(),
    {
        let mut days = Json::object();
        days.set("type", Json::text("integer"));
        days.set("minimum", Json::uint(1));
        days.set("maximum", Json::uint(14));
        days.set("default", Json::uint(1));
        days.set("description", Json::text(DAYS_DESCRIPTION));
        assert(days@ == days_schema());
        let mut date = Json::object();
        date.set("type", Json::text("string"));
        date.set("pattern", Json::text(DATE_PATTERN));
        date.set("description", Json::text(DATE_DESCRIPTION));
        assert(date@ == date_schema());
        let mut hourly = Json::object();
        hourly.set("type", Json::text("boolean"));
        hourly.set("default", Json::Bool(false));
        hourly.set("description", Json::text(HOURLY_DESCRIPTION));
        assert(hourly@ == hourly_schema());
        let mut properties = Json::object();
        properties.set("location", agents::string_property(LOCATION_DESCRIPTION));
        properties.set("days", days);
        properties.set("date", date);
        properties.set("hourly", hourly);
        let mut j = Json::object();
        j.set("type", Json::text("object"));
        j.set("properties", properties);
        j.set("required", Json::text_list("location"));
        j.set("additionalProperties", Json::Bool(false));
        j
    }

    /// What the registry knows of the agent.
    pub fn info(&self) -> (r: AgentInfo)
        ensures
            r@ == (AgentView {
                name: "get_weather"@,
                description: DESCRIPTION@,
                parameters: schema(),
            }),
    {
        AgentInfo {
            name: text::own(self.name()),
            description: text::own(self.description()),
            parameters: self.parameters_schema(),
        }
    }

    /// What the agent does first with the arguments of a call on a given day.
    pub fn begin_on(&self, args: &Json, today: i32) -> (r: Result<WeatherPlan, AgentError>)
        ensures
            plan_view(r) == plan_on(self.cfg, args@, today as int),
    {
        let key = text::trimmed(self.cfg.api_key.as_str());
        if is_empty(key.as_str()) {
            return Err(AgentError::AgentFailed(text::own(NO_KEY)));
        }
        let a = match parse_args(args) {
            Ok(a) => a,
            Err(e) => {
                return Err(e);
            },
        };
        let date: Option<&str> = match &a.date {
            Some(d) => Some(d.as_str()),
            None => None,
        };
        let mode = match select_mode(a.days, date, today) {
            Ok(m) => m,
            Err(e) => {
                return Err(e);
            },
        };
        let url = build_url(
            self.cfg.base_url.as_str(),
            self.cfg.api_key.as_str(),
            a.location.as_str(),
            &mode,
            today,
        );
        Ok(WeatherPlan { url, mode, hourly: a.hourly })
    }

    /// What the agent does first with the arguments of a call today.
    pub fn begin(&self, args: &Json) -> (r: Result<WeatherPlan, AgentError>)
        ensures
            exists|m: Moment|
                m.in_range() && plan_view(r) == plan_on(self.cfg, args@, #[trigger] day_of(m)),
    {
        let m = clock::now();
        let today: i32 = today_utc(m);
        self.begin_on(args, today)
    }

    /// The data in what came back of the request.
    pub fn data(plan: &WeatherPlan, o: Outcome) -> (r: Result<Json, AgentError>)
        ensures
            json_view(r) == match json_of(o) {
                Ok(body) => payload_of(body, plan.mode@, plan.hourly),
                Err(e) => Err(e),
            },
            r is Ok ==> (json::field(r->Ok_0@, "hourly"@) is Some <==> plan.hourly),
            o is ConnectFailed || o is ReadFailed || o is Refused ==> r is Err,
    {
        match json_body(o) {
            Ok(body) => {
                proof {
                    if payload_of(body@, plan.mode@, plan.hourly) is Ok {
                        law_hours_only_on_demand(body@, plan.mode@, plan.hourly);
                    }
                }
                build_payload(&body, &plan.mode, plan.hourly)
            },
            Err(e) => Err(e),
        }
    }

    /// The answer at a time, around data whose numbers have been rounded.
    pub fn reply_at(data: Json, fetched_at: &str) -> (r: String)
        ensures
            r@ == json::json_text(answer_data(data@, fetched_at@)),
    {
        let mut j = Json::object();
        j.set("ok", Json::Bool(true));
        j.set("data", data);
        j.set("source", Json::text("weatherapi.com"));
        j.set("fetched_at", Json::text(fetched_at));
        json::render(&j)
    }

    /// The answer now.
    pub fn reply(data: Json) -> (r: String)
        ensures
            exists|m: Moment|
                m.in_range() && r@ == json::json_text(
                    answer_data(data@, #[trigger] clock::utc_iso(m.secs, m.nanos)),
                ),
    {
        let m = clock::now();
        let at = clock::iso_of(m);
        Self::reply_at(data, at.as_str())
    }
}

impl Default for WeatherAgent {
    fn default() -> (r: Self)
        ensures
            r.cfg@ == crate::config::default_weather(),
    {
        WeatherAgent::new(WeatherConfig::default())
    }
}

// ---- Laws ---------------------------------------------------------------

/// Without a key nothing is asked, whatever the arguments.
pub proof fn law_no_key_no_request(cfg: WeatherConfig, v: JsonView, today: int)
    requires
        text::trim(cfg.api_key@).len() == 0,
    ensures
        plan_on(cfg, v, today) == Err::<WeatherPlanView, ErrorView>(ErrorView::AgentFailed(NO_KEY@)),
{
}

/// A forecast has from one to fourteen days.
pub proof fn law_horizon_is_bounded(days: Option<u32>)
    ensures
        1 <= horizon(days) <= MAX_FORECAST_DAYS,
        days is Some && 1 <= days->0 <= MAX_FORECAST_DAYS ==> horizon(days) == days->0,
{
}

/// A day that is asked for lies between the beginning of the history and the end
/// of the forecast, and the number of days is then of no account.
pub proof fn law_dates_are_served_in_range(
    days: Option<u32>,
    other: Option<u32>,
    d: Seq<char>,
    today: int,
)
    ensures
        mode_of(days, Some(d), today) == mode_of(other, Some(d), today),
        mode_of(days, Some(d), today) is Ok ==> {
            let mode = mode_of(days, Some(d), today)->Ok_0;
            mode is SingleDate && HISTORY_FLOOR <= mode->date.number <= today + MAX_FORECAST_DAYS
        },
{
}

/// Hours are told exactly when they are asked for.
pub proof fn law_hours_only_on_demand(body: JsonView, mode: ModeView, include_hourly: bool)
    requires
        payload_of(body, mode, include_hourly) is Ok,
    ensures
        json::field(payload_of(body, mode, include_hourly)->Ok_0, "hourly"@) is Some
            <==> include_hourly,
{
    reveal_strlit("hourly");
    reveal_strlit("location");
    reveal_strlit("current");
    reveal_strlit("forecast");
    reveal_strlit("astronomy");
    reveal_strlit("requested_date");
    assert("hourly"@.len() == 6);
    assert("location"@.len() == 8 && "current"@.len() == 7 && "forecast"@.len() == 8);
    assert("astronomy"@.len() == 9 && "requested_date"@.len() == 14);
}

/// A number of the service is shown as it is; where there is none, nothing is.
pub open spec fn shows_number(from: Option<JsonView>, shown: Option<JsonView>) -> bool {
    &&& from is Some && from->0 is Num ==> shown == from
    &&& from is None || !(from->0 is Num) ==> shown == Some(JsonView::Null)
}

/// A text of the service is shown as it is; where there is none, an empty one is.
pub open spec fn shows_text(from: Option<JsonView>, shown: Option<JsonView>) -> bool {
    &&& from is Some && from->0 is Str ==> shown == from
    &&& from is None || !(from->0 is Str) ==> shown == Some(JsonView::Str(Seq::empty()))
}

/// A whole number of the service is shown as it is; where there is none, zero is.
pub open spec fn shows_count(from: Option<JsonView>, shown: Option<JsonView>) -> bool {
    &&& from is Some && from->0 is Num && from->0->Num_0 is Int && i64::MIN
        <= from->0->Num_0->Int_0 <= i64::MAX ==> shown == from
    &&& from is None || !(from->0 is Num) ==> shown == Some(JsonView::Num(NumView::Int(0)))
}

/// A day of the forecast shows the numbers of its own day at the service, each under
/// its own name: the least temperature is the least, the greatest the greatest.
pub proof fn law_day_shows_its_own_numbers(v: JsonView)
    ensures
        shows_text(json::field(v, "date"@), json::field(day_data(v), "date"@)),
        shows_number(below(json::field(v, "day"@), "mintemp_c"@), json::field(day_data(v), "t_min_c"@)),
        shows_number(below(json::field(v, "day"@), "maxtemp_c"@), json::field(day_data(v), "t_max_c"@)),
        shows_number(below(json::field(v, "day"@), "avgtemp_c"@), json::field(day_data(v), "avg_temp_c"@)),
        shows_number(below(json::field(v, "day"@), "avghumidity"@), json::field(day_data(v), "avg_humidity"@)),
        shows_number(below(json::field(v, "day"@), "totalprecip_mm"@), json::field(day_data(v), "total_precip_mm"@)),
        shows_count(below(json::field(v, "day"@), "daily_chance_of_rain"@), json::field(day_data(v), "chance_of_rain"@)),
        shows_count(below(json::field(v, "day"@), "daily_chance_of_snow"@), json::field(day_data(v), "chance_of_snow"@)),
        shows_number(below(json::field(v, "day"@), "maxwind_kph"@), json::field(day_data(v), "max_wind_kmh"@)),
        shows_number(below(json::field(v, "day"@), "uv"@), json::field(day_data(v), "uv"@)),
        shows_text(below(below(json::field(v, "day"@), "condition"@), "text"@), json::field(day_data(v), "condition"@)),
        shows_count(below(below(json::field(v, "day"@), "condition"@), "code"@), json::field(day_data(v), "condition_code"@)),
{
    reveal_strlit("date");
    reveal_strlit("t_min_c");
    reveal_strlit("t_max_c");
    reveal_strlit("avg_temp_c");
    reveal_strlit("avg_humidity");
    reveal_strlit("total_precip_mm");
    reveal_strlit("chance_of_rain");
    reveal_strlit("chance_of_snow");
    reveal_strlit("max_wind_kmh");
    reveal_strlit("uv");
    reveal_strlit("condition");
    reveal_strlit("condition_code");
    assert("date"@.len() == 4);
    assert("t_min_c"@.len() == 7);
    assert("t_max_c"@.len() == 7);
    assert("avg_temp_c"@.len() == 10);
    assert("avg_humidity"@.len() == 12);
    assert("total_precip_mm"@.len() == 15);
    assert("chance_of_rain"@.len() == 14);
    assert("chance_of_snow"@.len() == 14);
    assert("max_wind_kmh"@.len() == 12);
    assert("uv"@.len() == 2);
    assert("condition"@.len() == 9);
    assert("condition_code"@.len() == 14);
    assert("t_min_c"@[3] == 'i');
    assert("t_max_c"@[3] == 'a');
    assert("avg_humidity"@[0] == 'a');
    assert("max_wind_kmh"@[0] == 'm');
    assert("chance_of_rain"@[10] == 'r');
    assert("chance_of_snow"@[10] == 's');
    assert("chance_of_rain"@[1] == 'h');
    assert("condition_code"@[1] == 'o');
    assert("chance_of_snow"@[1] == 'h');
}

/// The current conditions show what the service says of now, each under its own name.
pub proof fn law_current_shows_its_own_numbers(v: JsonView)
    ensures
        shows_text(json::field(v, "last_updated"@), json::field(current_data(v), "as_of"@)),
        shows_number(json::field(v, "temp_c"@), json::field(current_data(v), "temp_c"@)),
        shows_number(json::field(v, "feelslike_c"@), json::field(current_data(v), "feels_like_c"@)),
        shows_count(json::field(v, "humidity"@), json::field(current_data(v), "humidity"@)),
        shows_number(json::field(v, "wind_kph"@), json::field(current_data(v), "wind_kmh"@)),
        shows_text(json::field(v, "wind_dir"@), json::field(current_data(v), "wind_dir"@)),
        shows_number(json::field(v, "pressure_mb"@), json::field(current_data(v), "pressure_mb"@)),
        shows_number(json::field(v, "uv"@), json::field(current_data(v), "uv"@)),
        shows_text(below(json::field(v, "condition"@), "text"@), json::field(current_data(v), "condition"@)),
        shows_count(below(json::field(v, "condition"@), "code"@), json::field(current_data(v), "condition_code"@)),
{
    reveal_strlit("as_of");
    reveal_strlit("temp_c");
    reveal_strlit("feels_like_c");
    reveal_strlit("humidity");
    reveal_strlit("wind_kmh");
    reveal_strlit("wind_dir");
    reveal_strlit("pressure_mb");
    reveal_strlit("uv");
    reveal_strlit("condition");
    reveal_strlit("condition_code");
    assert("as_of"@.len() == 5);
    assert("temp_c"@.len() == 6);
    assert("feels_like_c"@.len() == 12);
    assert("humidity"@.len() == 8);
    assert("wind_kmh"@.len() == 8);
    assert("wind_dir"@.len() == 8);
    assert("pressure_mb"@.len() == 11);
    assert("uv"@.len() == 2);
    assert("condition"@.len() == 9);
    assert("condition_code"@.len() == 14);
    assert("humidity"@[0] == 'h');
    assert("wind_kmh"@[0] == 'w');
    assert("wind_dir"@[0] == 'w');
    assert("wind_kmh"@[5] == 'k');
    assert("wind_dir"@[5] == 'd');
}

/// An hour shows what the service says of that hour, each under its own name.
pub proof fn law_hour_shows_its_own_numbers(v: JsonView)
    ensures
        shows_text(json::field(v, "time"@), json::field(hour_data(v), "time"@)),
        shows_count(json::field(v, "time_epoch"@), json::field(hour_data(v), "time_epoch"@)),
        shows_number(json::field(v, "temp_c"@), json::field(hour_data(v), "temp_c"@)),
        shows_number(json::field(v, "feelslike_c"@), json::field(hour_data(v), "feels_like_c"@)),
        shows_count(json::field(v, "chance_of_rain"@), json::field(hour_data(v), "chance_of_rain"@)),
        shows_count(json::field(v, "chance_of_snow"@), json::field(hour_data(v), "chance_of_snow"@)),
        shows_number(json::field(v, "precip_mm"@), json::field(hour_data(v), "precip_mm"@)),
        shows_count(json::field(v, "humidity"@), json::field(hour_data(v), "humidity"@)),
        shows_number(json::field(v, "wind_kph"@), json::field(hour_data(v), "wind_kmh"@)),
        shows_text(below(json::field(v, "condition"@), "text"@), json::field(hour_data(v), "condition"@)),
{
    reveal_strlit("time");
    reveal_strlit("time_epoch");
    reveal_strlit("temp_c");
    reveal_strlit("feels_like_c");
    reveal_strlit("chance_of_rain");
    reveal_strlit("chance_of_snow");
    reveal_strlit("precip_mm");
    reveal_strlit("humidity");
    reveal_strlit("wind_kmh");
    reveal_strlit("condition");
    assert("time"@.len() == 4);
    assert("time_epoch"@.len() == 10);
    assert("temp_c"@.len() == 6);
    assert("feels_like_c"@.len() == 12);
    assert("chance_of_rain"@.len() == 14);
    assert("chance_of_snow"@.len() == 14);
    assert("precip_mm"@.len() == 9);
    assert("humidity"@.len() == 8);
    assert("wind_kmh"@.len() == 8);
    assert("condition"@.len() == 9);
    assert("chance_of_rain"@[10] == 'r');
    assert("chance_of_snow"@[10] == 's');
    assert("precip_mm"@[0] == 'p');
    assert("condition"@[0] == 'c');
    assert("humidity"@[0] == 'h');
    assert("wind_kmh"@[0] == 'w');
}

/// The place shows its names, where it lies and its time, each under its own name.
pub proof fn law_place_is_shown(v: JsonView)
    ensures
        shows_text(json::field(v, "name"@), json::field(location_data(v), "name"@)),
        shows_text(json::field(v, "region"@), json::field(location_data(v), "region"@)),
        shows_text(json::field(v, "country"@), json::field(location_data(v), "country"@)),
        shows_number(json::field(v, "lat"@), json::field(location_data(v), "latitude"@)),
        shows_number(json::field(v, "lon"@), json::field(location_data(v), "longitude"@)),
        shows_text(json::field(v, "tz_id"@), json::field(location_data(v), "timezone"@)),
        shows_text(json::field(v, "localtime"@), json::field(location_data(v), "localtime"@)),
{
    reveal_strlit("name");
    reveal_strlit("region");
    reveal_strlit("country");
    reveal_strlit("latitude");
    reveal_strlit("longitude");
    reveal_strlit("timezone");
    reveal_strlit("localtime");
    assert("name"@.len() == 4);
    assert("region"@.len() == 6);
    assert("country"@.len() == 7);
    assert("latitude"@.len() == 8);
    assert("longitude"@.len() == 9);
    assert("timezone"@.len() == 8);
    assert("localtime"@.len() == 9);
    assert("latitude"@[0] == 'l');
    assert("timezone"@[0] == 't');
    assert("longitude"@[2] == 'n');
    assert("localtime"@[2] == 'c');
}

/// Sun and moon are shown as the service gives them, each under its own name.
pub proof fn law_sun_and_moon_are_shown(v: JsonView)
    ensures
        shows_text(json::field(v, "sunrise"@), json::field(astro_data(v), "sunrise"@)),
        shows_text(json::field(v, "sunset"@), json::field(astro_data(v), "sunset"@)),
        shows_text(json::field(v, "moonrise"@), json::field(astro_data(v), "moonrise"@)),
        shows_text(json::field(v, "moonset"@), json::field(astro_data(v), "moonset"@)),
        shows_text(json::field(v, "moon_phase"@), json::field(astro_data(v), "moon_phase"@)),
        shows_text(json::field(v, "moon_illumination"@), json::field(astro_data(v), "moon_illumination"@)),
{
    reveal_strlit("sunrise");
    reveal_strlit("sunset");
    reveal_strlit("moonrise");
    reveal_strlit("moonset");
    reveal_strlit("moon_phase");
    reveal_strlit("moon_illumination");
    assert("sunrise"@.len() == 7);
    assert("sunset"@.len() == 6);
    assert("moonrise"@.len() == 8);
    assert("moonset"@.len() == 7);
    assert("moon_phase"@.len() == 10);
    assert("moon_illumination"@.len() == 17);
    assert("sunrise"@[0] == 's');
    assert("moonset"@[0] == 'm');
}

/// The answer says that all is well, carries the data as it is, and names where and
/// when it was got.
pub proof fn law_answer_carries_the_data(data: JsonView, fetched_at: Seq<char>)
    ensures
        json::field(answer_data(data, fetched_at), "ok"@) == Some(JsonView::Bool(true)),
        json::field(answer_data(data, fetched_at), "data"@) == Some(data),
        json::field(answer_data(data, fetched_at), "source"@) == Some(JsonView::Str("weatherapi.com"@)),
        json::field(answer_data(data, fetched_at), "fetched_at"@) == Some(JsonView::Str(fetched_at)),
{
    reveal_strlit("ok");
    reveal_strlit("data");
    reveal_strlit("source");
    reveal_strlit("fetched_at");
    assert("ok"@.len() == 2);
    assert("data"@.len() == 4);
    assert("source"@.len() == 6);
    assert("fetched_at"@.len() == 10);
}

/// The data is made of the service's answer: its place, its current conditions where
/// it has them, every day of its forecast in order, sun and moon of the first day, on
/// demand the hours of the first day in order, and the date where one was asked for.
/// It is refused exactly when the answer has no place.
pub proof fn law_data_is_the_answer(body: JsonView, mode: ModeView, hourly: bool)
    ensures
        payload_of(body, mode, hourly) is Ok <==> json::field(body, "location"@) is Some,
        payload_of(body, mode, hourly) is Err ==> payload_of(body, mode, hourly)->Err_0
            == ErrorView::AgentFailed("WeatherAPI response missing `location`"@),
        json::field(body, "location"@) is Some ==> {
            let p = payload_of(body, mode, hourly)->Ok_0;
            let days = below(json::field(body, "forecast"@), "forecastday"@);
            &&& json::field(p, "location"@) == Some(
                location_data(json::field(body, "location"@)->0),
            )
            &&& json::field(body, "current"@) is Some ==> json::field(p, "current"@) == Some(
                current_data(json::field(body, "current"@)->0),
            )
            &&& json::field(body, "current"@) is None ==> json::field(p, "current"@) == Some(
                JsonView::Null,
            )
            &&& days is Some && days->0 is Array ==> {
                let from = days->0->Array_0;
                let shown = json::field(p, "forecast"@);
                &&& shown is Some && shown->0 is Array
                &&& shown->0->Array_0.len() == from.len()
                &&& forall|i: int|
                    0 <= i < from.len() ==> #[trigger] shown->0->Array_0[i] == day_data(from[i])
                &&& from.len() > 0 && json::field(from[0], "astro"@) is Some ==> json::field(
                    p,
                    "astronomy"@,
                ) == Some(astro_data(json::field(from[0], "astro"@)->0))
                &&& from.len() > 0 && hourly && json::field(from[0], "hour"@) is Some
                    && json::field(from[0], "hour"@)->0 is Array ==> {
                    let hours = json::field(from[0], "hour"@)->0->Array_0;
                    let told = json::field(p, "hourly"@);
                    &&& told is Some && told->0 is Array
                    &&& told->0->Array_0.len() == hours.len()
                    &&& forall|i: int|
                        0 <= i < hours.len() ==> #[trigger] told->0->Array_0[i] == hour_data(
                            hours[i],
                        )
                }
            }
            &&& mode is SingleDate ==> json::field(p, "requested_date"@) == Some(
                JsonView::Str(mode->date.text),
            )
            &&& mode is Current ==> json::field(p, "requested_date"@) is None
        },
{
    reveal_strlit("location");
    reveal_strlit("current");
    reveal_strlit("forecast");
    reveal_strlit("astronomy");
    reveal_strlit("hourly");
    reveal_strlit("requested_date");
    assert("location"@.len() == 8);
    assert("current"@.len() == 7);
    assert("forecast"@.len() == 8);
    assert("astronomy"@.len() == 9);
    assert("hourly"@.len() == 6);
    assert("requested_date"@.len() == 14);
    assert("location"@[0] == 'l');
    assert("forecast"@[0] == 'f');
}

/// Where the service is asked. A day before today is asked of its history, every
/// other of its forecast; place, key and day are in the request.
pub proof fn law_past_days_are_asked_of_the_history(
    base: Seq<char>,
    key: Seq<char>,
    place: Seq<char>,
    date: DayView,
    days: u32,
    today: int,
)
    ensures
        ({
            let k = upstream::encoded(text::utf8(key), true);
            let q = upstream::encoded(text::utf8(place), true);
            let dated = url_of(base, key, place, ModeView::SingleDate { date }, today);
            &&& url_of(base, key, place, ModeView::Current { days }, today) == base
                + "/v1/forecast.json"@ + ("?key="@ + k + "&q="@ + q) + "&days="@ + text::digits(
                days as nat,
            ) + "&aqi=no&alerts=no"@
            &&& date.number < today ==> dated == base + "/v1/history.json"@ + ("?key="@ + k
                + "&q="@ + q) + "&dt="@ + date.text
            &&& date.number >= today ==> dated == base + "/v1/forecast.json"@ + ("?key="@ + k
                + "&q="@ + q) + "&dt="@ + date.text + "&aqi=no&alerts=no"@
        }),
{
}

/// What is read of the arguments: a place that is not blank, without outer white
/// space; the days and the date where they are given; hours only on demand.
pub proof fn law_arguments_are_read(v: JsonView, place: Seq<char>, n: int)
    ensures
        args_of(v) is Ok <==> {
            &&& v is Object
            &&& json::field(v, "location"@) is Some && json::field(v, "location"@)->0 is Str
            &&& text::trim(json::field(v, "location"@)->0->Str_0).len() > 0
        },
        args_of(v) is Err ==> args_of(v)->Err_0 is InvalidArguments,
        args_of(v) is Ok ==> {
            let a = args_of(v)->Ok_0;
            &&& json::field(v, "location"@) == Some(JsonView::Str(place)) ==> a.location
                == text::trim(place)
            &&& json::field(v, "hourly"@) == Some(JsonView::Bool(true)) <==> a.hourly
            &&& 0 <= n <= u32::MAX && json::field(v, "days"@) == Some(
                JsonView::Num(NumView::Int(n)),
            ) ==> a.days == Some(n as u32)
            &&& u32::MAX < n <= u64::MAX && json::field(v, "days"@) == Some(
                JsonView::Num(NumView::Int(n)),
            ) ==> a.days == Some(u32::MAX)
            &&& json::field(v, "days"@) is None ==> a.days is None
            &&& json::field(v, "date"@) == Some(JsonView::Str(place)) && text::trim(place).len()
                > 0 ==> a.date == Some(text::trim(place))
            &&& json::field(v, "date"@) == Some(JsonView::Str(place)) && text::trim(place).len()
                == 0 ==> a.date is None
            &&& json::field(v, "date"@) is None ==> a.date is None
        },
{
}

/// A date is served exactly from the beginning of 2010 to fourteen days from today;
/// without a date the conditions now and one day, or as many as were asked for.
pub proof fn law_which_days_are_served(
    days: Option<u32>,
    d: Seq<char>,
    read: Result<DayView, Seq<char>>,
    today: int,
)
    requires
        today + 14 <= LAST_DAY,
    ensures
        dated_mode(d, read, today) is Ok <==> read is Ok && 733773 <= read->Ok_0.number <= today
            + 14,
        dated_mode(d, read, today) is Ok ==> dated_mode(d, read, today)->Ok_0
            == (ModeView::SingleDate { date: read->Ok_0 }),
        dated_mode(d, read, today) is Err ==> dated_mode(d, read, today)->Err_0
            is InvalidArguments,
        mode_of(days, Some(d), today) == dated_mode(d, read_day(d), today),
        mode_of(None, None, today) == Ok::<_, ErrorView>(ModeView::Current { days: 1 }),
        days is Some && days->0 == 0 ==> mode_of(days, None, today) == Ok::<_, ErrorView>(
            ModeView::Current { days: 1 },
        ),
        days is Some && days->0 > 14 ==> mode_of(days, None, today) == Ok::<_, ErrorView>(
            ModeView::Current { days: 14 },
        ),
        days is Some && 1 <= days->0 <= 14 ==> mode_of(days, None, today) == Ok::<_, ErrorView>(
            ModeView::Current { days: days->0 },
        ),
{
}

/// A request that is made asks for the place of the arguments with the operator's key,
/// and remembers whether the hours are wanted.
pub proof fn law_request_asks_for_the_place(cfg: WeatherConfig, v: JsonView, today: int)
    requires
        plan_on(cfg, v, today) is Ok,
    ensures
        ({
            let a = args_of(v)->Ok_0;
            let plan = plan_on(cfg, v, today)->Ok_0;
            &&& args_of(v) is Ok
            &&& text::trim(cfg.api_key@).len() > 0
            &&& plan.hourly == a.hourly
            &&& mode_of(a.days, a.date, today) == Ok::<_, ErrorView>(plan.mode)
            &&& plan.url == url_of(cfg.base_url@, cfg.api_key@, a.location, plan.mode, today)
            &&& exists|rest: Seq<char>| plan.url == #[trigger] (cfg.base_url@ + rest)
        }),
{
    let a = args_of(v)->Ok_0;
    let plan = plan_on(cfg, v, today)->Ok_0;
    let rest = plan.url.skip(cfg.base_url@.len() as int);
    assert(plan.url =~= cfg.base_url@ + rest);
}

/// A day is counted from the first of January of the year one, and one day is eighty-six
/// thousand four hundred seconds.
pub proof fn law_days_are_counted(m: Moment)
    requires
        0 <= m.secs,
    ensures
        (day_of(m) - 719163) * 86400 <= m.secs < (day_of(m) - 719163 + 1) * 86400,
{
}

/// When the service refuses, its own words are handed on where it has any, else the
/// beginning of its answer, with its status; what it gives is read as JSON.
pub proof fn law_refusal_is_handed_on(
    o: Outcome,
    parsed: Result<JsonView, Seq<char>>,
    body: Seq<char>,
    m: Seq<char>,
)
    ensures
        parsed is Ok && below(json::field(parsed->Ok_0, "error"@), "message"@) == Some(
            JsonView::Str(m),
        ) && m.len() > 0 ==> refusal_text(parsed, body) == m,
        parsed is Err ==> refusal_text(parsed, body) == upstream::head_of(body, 2048),
        o is Refused ==> json_of(o) == Err::<JsonView, _>(
            ErrorView::Upstream {
                status: o->status,
                body: refusal_text(json::json_parse(o->body@), o->body@),
            },
        ),
        o is Body && o->Body_0@.len() <= 131072 ==> {
            &&& json::json_parse_bytes(o->Body_0@) is Ok ==> json_of(o) == Ok::<_, ErrorView>(
                json::json_parse_bytes(o->Body_0@)->Ok_0,
            )
            &&& json::json_parse_bytes(o->Body_0@) is Err ==> json_of(o) == Err::<JsonView, _>(
                ErrorView::AgentFailed(
                    "upstream JSON parse: "@ + json::json_parse_bytes(o->Body_0@)->Err_0,
                ),
            )
        },
        o is Body && o->Body_0@.len() > 131072 ==> json_of(o) is Err,
        o is ConnectFailed || o is ReadFailed ==> json_of(o) is Err && json_of(o)->Err_0
            is AgentFailed,
{
}

/// Places are given to four decimals, temperatures and winds to one, other measured
/// numbers as they are.
pub proof fn law_how_numbers_are_rounded()
    ensures
        decimals_of("latitude"@) == Some(Decimals::Four),
        decimals_of("longitude"@) == Some(Decimals::Four),
        decimals_of("temp_c"@) == Some(Decimals::One),
        decimals_of("feels_like_c"@) == Some(Decimals::One),
        decimals_of("wind_kmh"@) == Some(Decimals::One),
        decimals_of("t_min_c"@) == Some(Decimals::One),
        decimals_of("t_max_c"@) == Some(Decimals::One),
        decimals_of("avg_temp_c"@) == Some(Decimals::One),
        decimals_of("max_wind_kmh"@) == Some(Decimals::One),
        decimals_of("pressure_mb"@) == Some(Decimals::All),
        decimals_of("uv"@) == Some(Decimals::All),
        decimals_of("avg_humidity"@) == Some(Decimals::All),
        decimals_of("total_precip_mm"@) == Some(Decimals::All),
        decimals_of("precip_mm"@) == Some(Decimals::All),
{
    reveal_strlit("latitude");
    reveal_strlit("longitude");
    reveal_strlit("temp_c");
    reveal_strlit("feels_like_c");
    reveal_strlit("wind_kmh");
    reveal_strlit("t_min_c");
    reveal_strlit("t_max_c");
    reveal_strlit("avg_temp_c");
    reveal_strlit("max_wind_kmh");
    reveal_strlit("pressure_mb");
    reveal_strlit("uv");
    reveal_strlit("avg_humidity");
    reveal_strlit("total_precip_mm");
    reveal_strlit("precip_mm");
    assert("latitude"@.len() == 8);
    assert("longitude"@.len() == 9);
    assert("temp_c"@.len() == 6);
    assert("feels_like_c"@.len() == 12);
    assert("wind_kmh"@.len() == 8);
    assert("t_min_c"@.len() == 7);
    assert("t_max_c"@.len() == 7);
    assert("avg_temp_c"@.len() == 10);
    assert("max_wind_kmh"@.len() == 12);
    assert("pressure_mb"@.len() == 11);
    assert("uv"@.len() == 2);
    assert("avg_humidity"@.len() == 12);
    assert("total_precip_mm"@.len() == 15);
    assert("precip_mm"@.len() == 9);
    assert("latitude"@[0] == 'l');
    assert("wind_kmh"@[0] == 'w');
    assert("longitude"@[0] == 'l');
    assert("precip_mm"@[0] == 'p');
    assert("feels_like_c"@[0] == 'f');
    assert("max_wind_kmh"@[0] == 'm');
    assert("avg_humidity"@[0] == 'a');
    assert("t_min_c"@[3] == 'i');
    assert("t_max_c"@[3] == 'a');
}

/// What is said of arguments and dates that are not taken.
pub proof fn law_refusals_say_why(
    v: JsonView,
    d: Seq<char>,
    read: Result<DayView, Seq<char>>,
    today: int,
)
    ensures
        !(v is Object) ==> args_of(v) == Err::<WeatherArgsView, _>(
            ErrorView::InvalidArguments("arguments must be a JSON object"@),
        ),
        v is Object && json::field(v, "location"@) is None ==> args_of(v) == Err::<
            WeatherArgsView,
            _,
        >(ErrorView::InvalidArguments("`location` (string) is required"@)),
        v is Object && json::field(v, "location"@) == Some(JsonView::Str(d)) && text::trim(d).len()
            == 0 ==> args_of(v) == Err::<WeatherArgsView, _>(
            ErrorView::InvalidArguments("`location` must not be empty"@),
        ),
        read is Err ==> dated_mode(d, read, today) == Err::<ModeView, _>(
            ErrorView::InvalidArguments(
                "`date` must be a valid YYYY-MM-DD calendar date (got `"@ + d + "`: "@
                    + read->Err_0 + ")"@,
            ),
        ),
        read is Ok && today + 14 > LAST_DAY ==> dated_mode(d, read, today) == Err::<ModeView, _>(
            ErrorView::AgentFailed("internal: date arithmetic overflow"@),
        ),
        read is Ok && today + 14 <= LAST_DAY && read->Ok_0.number < 733773 ==> dated_mode(
            d,
            read,
            today,
        ) == Err::<ModeView, _>(
            ErrorView::InvalidArguments(
                "`date` must be on or after 2010-01-01 (WeatherAPI free-tier history start), got `"@
                    + d + "`"@,
            ),
        ),
        read is Ok && today + 14 <= LAST_DAY && read->Ok_0.number >= 733773 && read->Ok_0.number
            > today + 14 ==> dated_mode(d, read, today) == Err::<ModeView, _>(
            ErrorView::InvalidArguments(
                "`date` must be at most 14 days in the future (WeatherAPI free-tier forecast horizon); got `"@
                    + d + "`"@,
            ),
        ),
        NO_KEY@
            == "WEATHER_API_KEY is not configured on the server — register at https://www.weatherapi.com/ for a free key and set it in the environment"@,
{
}

/// The model is told what arguments there are: a place, which is required; days from one
/// to fourteen; a date; and whether hours are wanted, which they are not by default.
pub proof fn law_model_is_told_of_the_arguments()
    ensures
        ({
            let p = json::field(schema(), "properties"@)->0;
            let days = json::field(p, "days"@)->0;
            let hourly = json::field(p, "hourly"@)->0;
            let date = json::field(p, "date"@)->0;
            &&& json::field(schema(), "type"@) == Some(JsonView::Str("object"@))
            &&& json::field(schema(), "required"@) == Some(
                JsonView::Array(seq![JsonView::Str("location"@)]),
            )
            &&& json::field(schema(), "additionalProperties"@) == Some(JsonView::Bool(false))
            &&& json::field(p, "location"@) == Some(agents::string_schema(LOCATION_DESCRIPTION@))
            &&& json::field(days, "type"@) == Some(JsonView::Str("integer"@))
            &&& json::field(days, "minimum"@) == Some(JsonView::Num(NumView::Int(1)))
            &&& json::field(days, "maximum"@) == Some(JsonView::Num(NumView::Int(14)))
            &&& json::field(days, "default"@) == Some(JsonView::Num(NumView::Int(1)))
            &&& json::field(date, "type"@) == Some(JsonView::Str("string"@))
            &&& json::field(date, "pattern"@) == Some(JsonView::Str(DATE_PATTERN@))
            &&& json::field(hourly, "type"@) == Some(JsonView::Str("boolean"@))
            &&& json::field(hourly, "default"@) == Some(JsonView::Bool(false))
        }),
{
    reveal_strlit("type");
    reveal_strlit("properties");
    reveal_strlit("required");
    reveal_strlit("additionalProperties");
    reveal_strlit("location");
    reveal_strlit("days");
    reveal_strlit("date");
    reveal_strlit("hourly");
    reveal_strlit("minimum");
    reveal_strlit("maximum");
    reveal_strlit("default");
    reveal_strlit("description");
    reveal_strlit("pattern");
    assert("type"@.len() == 4);
    assert("properties"@.len() == 10);
    assert("required"@.len() == 8);
    assert("additionalProperties"@.len() == 20);
    assert("location"@.len() == 8);
    assert("days"@.len() == 4);
    assert("date"@.len() == 4);
    assert("hourly"@.len() == 6);
    assert("days"@[2] == 'y');
    assert("date"@[2] == 't');
    assert("type"@.len() == 4);
    assert("minimum"@.len() == 7);
    assert("maximum"@.len() == 7);
    assert("default"@.len() == 7);
    assert("description"@.len() == 11);
    assert("minimum"@[1] == 'i');
    assert("maximum"@[1] == 'a');
    assert("minimum"@[0] == 'm');
    assert("default"@[0] == 'd');
    assert("maximum"@[0] == 'm');
    assert("type"@.len() == 4);
    assert("pattern"@.len() == 7);
    assert("description"@.len() == 11);
}

/// The last day ends with the last second that a clock can tell.
pub proof fn law_last_day_ends_with_the_last_second()
    ensures
        (LAST_DAY - EPOCH_DAY + 1) * 86400 == clock::LAST_SECOND + 1,
        LAST_DAY == 95745399,
{
}

} // verus!
