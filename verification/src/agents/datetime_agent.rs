//! The agent that tells the date and the time.

use vstd::prelude::*;

use crate::agents;
use crate::agents::clock;
use crate::agents::clock::{LocalTime, LocalView, Moment};
use crate::agents::{AgentError, AgentInfo, AgentView, ErrorView};
use crate::json;
use crate::json::{Json, JsonView, NumView};
use crate::text;

verus! {

/// What the agent is for.
pub const DESCRIPTION: &'static str =
    "Renvoie la date et l'heure courantes, éventuellement dans un fuseau horaire IANA (Europe/Paris, America/New_York, Asia/Tokyo). Use for 'quelle heure est-il', 'what time is it in Tokyo', 'date du jour'. Pass `timezone` (optional IANA name, omit for UTC).";

/// What the zone is.
pub const TIMEZONE_DESCRIPTION: &'static str =
    "Optional IANA timezone name (e.g. Europe/Paris, America/New_York, Asia/Tokyo). Omit for UTC.";

/// The zone that the arguments of a call name; none for universal time.
pub open spec fn zone_of(v: JsonView) -> Result<Option<Seq<char>>, ErrorView> {
    if !(v is Object) {
        Err(ErrorView::InvalidArguments("arguments must be a JSON object"@))
    } else {
        match json::str_of(json::field(v, "timezone"@)) {
            Some(z) => if text::trim(z).len() == 0 {
                Ok(None)
            } else {
                Ok(Some(text::trim(z)))
            },
            None => Ok(None),
        }
    }
}

/// A zone or an error, as values.
pub open spec fn zone_view(r: Result<Option<String>, AgentError>) -> Result<
    Option<Seq<char>>,
    ErrorView,
> {
    match r {
        Ok(z) => Ok(text::opt_text(z)),
        Err(e) => Err(e@),
    }
}

/// The zone that the arguments of a call name.
pub fn parse_args(args: &Json) -> (r: Result<Option<String>, AgentError>)
    ensures
        zone_view(r) == zone_of(args@),
{
    if !args.is_object() {
        return Err(AgentError::InvalidArguments(text::own("arguments must be a JSON object")));
    }
    let zone = match args.get("timezone") {
        Some(j) => match j.as_str() {
            Some(s) => text::trimmed(s),
            None => {
                return Ok(None);
            },
        },
        None => {
            return Ok(None);
        },
    };
    let v = text::chars_of(zone.as_str());
    if v.len() == 0 {
        return Ok(None);
    }
    Ok(Some(zone))
}

/// What the model is told of a moment.
pub open spec fn moment_data(local: LocalView, secs: i64, zone: Seq<char>) -> JsonView {
    JsonView::Object(
        map![
            "iso"@ => JsonView::Str(local.iso),
            "unix"@ => JsonView::Num(NumView::Int(secs as int)),
            "timezone"@ => JsonView::Str(zone),
            "utc_offset"@ => JsonView::Str(local.offset),
            "weekday"@ => JsonView::Str(local.weekday),
        ],
    )
}

/// The answer of the agent around its data.
pub open spec fn answer_data(data: JsonView, fetched_at: Seq<char>) -> JsonView {
    JsonView::Object(
        map![
            "ok"@ => JsonView::Bool(true),
            "data"@ => data,
            "source"@ => JsonView::Str("system"@),
            "fetched_at"@ => JsonView::Str(fetched_at),
        ],
    )
}

/// The complaint about a zone that is not known.
pub open spec fn unknown_zone(zone: Seq<char>) -> ErrorView {
    ErrorView::InvalidArguments(
        "unknown IANA timezone `"@ + zone
            + "` (expected e.g. Europe/Paris, America/New_York, Asia/Tokyo)"@,
    )
}

/// The answer for a zone whose time has been looked up.
pub open spec fn zone_answer(
    zone: Seq<char>,
    local: Option<LocalView>,
    secs: i64,
    fetched_at: Seq<char>,
) -> Result<Seq<char>, ErrorView> {
    match local {
        Some(t) => Ok(json::json_text(answer_data(moment_data(t, secs, zone), fetched_at))),
        None => Err(unknown_zone(zone)),
    }
}

/// The answer at a moment.
pub open spec fn answer_at(v: JsonView, m: Moment) -> Result<Seq<char>, ErrorView> {
    match zone_of(v) {
        Err(e) => Err(e),
        Ok(None) => zone_answer(
            "UTC"@,
            Some(clock::local_time(m, 0)),
            m.secs,
            clock::utc_iso(m.secs, m.nanos),
        ),
        Ok(Some(z)) => zone_answer(
            z,
            clock::zone_time(m, z),
            m.secs,
            clock::utc_iso(m.secs, m.nanos),
        ),
    }
}

/// The agent.
#[derive(Debug, Clone, Copy)]
pub struct DateTimeAgent {}

impl DateTimeAgent {
    /// The agent.
    pub fn new() -> (r: Self)
        ensures
            r == (DateTimeAgent {  }),
    {
        DateTimeAgent {  }
    }

    /// The name by which the model calls the agent.
    pub fn name(&self) -> (r: &'static str)
        ensures
            r@ == "get_datetime"@,
    {
        "get_datetime"
    }

    /// What the agent is for.
    pub fn description(&self) -> (r: &'static str)
        ensures
            r@ == DESCRIPTION@,
    {
        DESCRIPTION
    }

    /// The schema of the arguments.
    pub fn parameters_schema(&self) -> (r: Json)
        ensures
            r@ == schema(),
    {
        let mut properties = Json::object();
        properties.set("timezone", agents::string_property(TIMEZONE_DESCRIPTION));
        let mut j = Json::object();
        j.set("type", Json::text("object"));
        j.set("properties", properties);
        j.set("additionalProperties", Json::Bool(false));
        j
    }

    /// What the registry knows of the agent.
    pub fn info(&self) -> (r: AgentInfo)
        ensures
            r@ == (AgentView {
                name: "get_datetime"@,
                description: DESCRIPTION@,
                parameters: schema(),
            }),
    {
        AgentInfo {
            name: text::own(self.name()),
            description: text::own(self.description()),
            parameters: self.parameters_schema(),
        }
    }

    /// The answer for a zone whose time has been looked up.
    pub fn reply(zone: &str, local: Option<LocalTime>, secs: i64, fetched_at: &str) -> (r: Result<
        String,
        AgentError,
    >)
        ensures
            agents::outcome(r) == zone_answer(zone@, clock::local_view(local), secs, fetched_at@),
    {
        let t = match local {
            Some(t) => t,
            None => {
                let mut m = text::own("unknown IANA timezone `");
                m.append(zone);
                m.append("` (expected e.g. Europe/Paris, America/New_York, Asia/Tokyo)");
                return Err(AgentError::InvalidArguments(m));
            },
        };
        let mut data = Json::object();
        data.set("iso", Json::text(t.iso.as_str()));
        data.set("unix", Json::signed(secs));
        data.set("timezone", Json::text(zone));
        data.set("utc_offset", Json::text(t.offset.as_str()));
        data.set("weekday", Json::text(t.weekday.as_str()));
        let mut j = Json::object();
        j.set("ok", Json::Bool(true));
        j.set("data", data);
        j.set("source", Json::text("system"));
        j.set("fetched_at", Json::text(fetched_at));
        Ok(json::render(&j))
    }

    /// The answer at a moment.
    pub fn invoke_at(&self, args: &Json, m: Moment) -> (r: Result<String, AgentError>)
        requires
            m.in_range(),
        ensures
            agents::outcome(r) == answer_at(args@, m),
    {
        let iso = clock::iso_of(m);
        match parse_args(args) {
            Err(e) => Err(e),
            Ok(None) => {
                let local = clock::time_at(m, 0);
                Self::reply("UTC", Some(local), m.secs, iso.as_str())
            },
            Ok(Some(z)) => {
                let local = clock::time_in(m, z.as_str());
                Self::reply(z.as_str(), local, m.secs, iso.as_str())
            },
        }
    }

    /// The answer now.
    pub fn invoke(&self, args: &Json) -> (r: Result<String, AgentError>)
        ensures
            exists|m: Moment| m.in_range() && agents::outcome(r) == #[trigger] answer_at(args@, m),
    {
        let m = clock::now();
        self.invoke_at(args, m)
    }
}

impl Default for DateTimeAgent {
    fn default() -> (r: Self)
        ensures
            r == (DateTimeAgent {  }),
    {
        DateTimeAgent::new()
    }
}

/// The schema of the arguments.
pub open spec fn schema() -> JsonView {
    JsonView::Object(
        map![
            "type"@ => JsonView::Str("object"@),
            "properties"@ => JsonView::Object(map![
                "timezone"@ => agents::string_schema(TIMEZONE_DESCRIPTION@),
            ]),
            "additionalProperties"@ => JsonView::Bool(false),
        ],
    )
}

/// Arguments that are an object are refused only for a zone that is not known.
pub proof fn law_only_unknown_zones_are_refused(v: JsonView, m: Moment)
    requires
        v is Object,
        answer_at(v, m) is Err,
    ensures
        zone_of(v) is Ok && zone_of(v)->Ok_0 is Some && clock::zone_time(
            m,
            zone_of(v)->Ok_0->0,
        ) is None,
{
}

/// A zone of white space alone is as good as none.
pub proof fn law_blank_zone_is_utc(v: JsonView, w: JsonView, m: Moment)
    requires
        v is Object,
        w is Object,
        json::field(w, "timezone"@) is None,
        json::str_of(json::field(v, "timezone"@)) is Some,
        text::trim(json::str_of(json::field(v, "timezone"@))->0).len() == 0,
    ensures
        answer_at(v, m) == answer_at(w, m),
{
}

/// The answer tells the time as the clock has it, each part under its own name.
pub proof fn law_time_is_told(
    local: LocalView,
    secs: i64,
    zone: Seq<char>,
    data: JsonView,
    fetched_at: Seq<char>,
)
    ensures
        json::field(moment_data(local, secs, zone), "iso"@) == Some(JsonView::Str(local.iso)),
        json::field(moment_data(local, secs, zone), "unix"@) == Some(
            JsonView::Num(NumView::Int(secs as int)),
        ),
        json::field(moment_data(local, secs, zone), "timezone"@) == Some(JsonView::Str(zone)),
        json::field(moment_data(local, secs, zone), "utc_offset"@) == Some(
            JsonView::Str(local.offset),
        ),
        json::field(moment_data(local, secs, zone), "weekday"@) == Some(
            JsonView::Str(local.weekday),
        ),
        json::field(answer_data(data, fetched_at), "ok"@) == Some(JsonView::Bool(true)),
        json::field(answer_data(data, fetched_at), "data"@) == Some(data),
        json::field(answer_data(data, fetched_at), "source"@) == Some(JsonView::Str("system"@)),
        json::field(answer_data(data, fetched_at), "fetched_at"@) == Some(
            JsonView::Str(fetched_at),
        ),
{
    reveal_strlit("iso");
    reveal_strlit("unix");
    reveal_strlit("timezone");
    reveal_strlit("utc_offset");
    reveal_strlit("weekday");
    reveal_strlit("ok");
    reveal_strlit("data");
    reveal_strlit("source");
    reveal_strlit("fetched_at");
    assert("iso"@.len() == 3);
    assert("unix"@.len() == 4);
    assert("timezone"@.len() == 8);
    assert("utc_offset"@.len() == 10);
    assert("weekday"@.len() == 7);
    assert("ok"@.len() == 2);
    assert("data"@.len() == 4);
    assert("source"@.len() == 6);
    assert("fetched_at"@.len() == 10);
}

/// Without a zone the time is universal time; with one it is that of the zone, without
/// outer white space; a zone that is not there is refused by its name.
pub proof fn law_time_of_the_zone(v: JsonView, z: Seq<char>, m: Moment)
    requires
        v is Object,
    ensures
        json::field(v, "timezone"@) is None ==> answer_at(v, m) == Ok::<_, ErrorView>(
            json::json_text(
                answer_data(
                    moment_data(clock::local_time(m, 0), m.secs, "UTC"@),
                    clock::rfc3339(m.secs, m.nanos, 0),
                ),
            ),
        ),
        json::field(v, "timezone"@) == Some(JsonView::Str(z)) && text::trim(z).len() > 0 ==> {
            let offset = clock::zone_offset(m.secs, text::trim(z));
            &&& offset is Some ==> answer_at(v, m) == Ok::<_, ErrorView>(
                json::json_text(
                    answer_data(
                        moment_data(clock::local_time(m, offset->0), m.secs, text::trim(z)),
                        clock::rfc3339(m.secs, m.nanos, 0),
                    ),
                ),
            )
            &&& offset is None ==> answer_at(v, m) == Err::<Seq<char>, _>(
                ErrorView::InvalidArguments(
                    "unknown IANA timezone `"@ + text::trim(z)
                        + "` (expected e.g. Europe/Paris, America/New_York, Asia/Tokyo)"@,
                ),
            )
        },
{
}

/// The model is told what argument there is: a zone, which is not required.
pub proof fn law_model_is_told_of_the_arguments(v: JsonView)
    ensures
        json::field(schema(), "type"@) == Some(JsonView::Str("object"@)),
        json::field(schema(), "additionalProperties"@) == Some(JsonView::Bool(false)),
        json::field(json::field(schema(), "properties"@)->0, "timezone"@) == Some(
            agents::string_schema(TIMEZONE_DESCRIPTION@),
        ),
        json::field(schema(), "required"@) is None,
        !(v is Object) ==> zone_of(v) == Err::<Option<Seq<char>>, _>(
            ErrorView::InvalidArguments("arguments must be a JSON object"@),
        ),
{
    reveal_strlit("type");
    reveal_strlit("properties");
    reveal_strlit("required");
    reveal_strlit("additionalProperties");
    assert("type"@.len() == 4);
    assert("properties"@.len() == 10);
    assert("required"@.len() == 8);
    assert("additionalProperties"@.len() == 20);
}

} // verus!
