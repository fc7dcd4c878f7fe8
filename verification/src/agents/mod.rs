//! Server-side tools that the chat model may call.
//!
//! An agent has a name, a description and a schema of its arguments; the chat
//! proxy offers them to the model and runs the calls that come back. This
//! module holds what the registry knows of them and the errors they report.

use vstd::prelude::*;

use crate::config::AgentConfig;
use crate::json;
use crate::json::{Json, JsonView};
use crate::text;

use datetime_agent::DateTimeAgent;
use stock_agent::StockAgent;
use weather_agent::WeatherAgent;
use web_fetch::WebFetchAgent;

pub mod clock;
pub mod datetime_agent;
pub mod html;
pub mod stock_agent;
pub mod upstream;
pub mod weather_agent;
pub mod web_fetch;

verus! {

/// Why an agent gave no result.
#[derive(Debug, Clone, PartialEq, Eq)]
pub enum AgentError {
    /// The address or the arguments break the network policy.
    SandboxDenied(String),
    /// The arguments do not match the agent's schema.
    InvalidArguments(String),
    /// The agent failed: network, timeout, unreadable answer.
    AgentFailed(String),
    /// The service behind the agent answered with an unexpected status.
    Upstream { status: u16, body: String },
    /// The answer is larger than the budget.
    ResponseExceeded { budget: usize },
}

impl AgentError {
    /// The message of the error.
    pub open spec fn text(self) -> Seq<char> {
        match self {
            AgentError::SandboxDenied(m) => "sandbox denied: "@ + m@,
            AgentError::InvalidArguments(m) => "invalid arguments: "@ + m@,
            AgentError::AgentFailed(m) => "agent failed: "@ + m@,
            AgentError::Upstream { status, body } => "upstream returned "@ + text::digits(
                status as nat,
            ) + ": "@ + body@,
            AgentError::ResponseExceeded { budget } => "response exceeded max_bytes="@
                + text::digits(budget as nat),
        }
    }

    /// The message of the error.
    pub fn message(&self) -> (r: String)
        ensures
            r@ == self.text(),
    {
        match self {
            AgentError::SandboxDenied(m) => text::own("sandbox denied: ").concat(m.as_str()),
            AgentError::InvalidArguments(m) => text::own("invalid arguments: ").concat(m.as_str()),
            AgentError::AgentFailed(m) => text::own("agent failed: ").concat(m.as_str()),
            AgentError::Upstream { status, body } => {
                let mut r = text::own("upstream returned ");
                text::push_digits(&mut r, *status as u64);
                r.append(": ");
                r.append(body.as_str());
                r
            },
            AgentError::ResponseExceeded { budget } => {
                let mut r = text::own("response exceeded max_bytes=");
                text::push_digits(&mut r, *budget as u64);
                r
            },
        }
    }
}

/// An error, as values.
pub enum ErrorView {
    SandboxDenied(Seq<char>),
    InvalidArguments(Seq<char>),
    AgentFailed(Seq<char>),
    Upstream { status: u16, body: Seq<char> },
    ResponseExceeded { budget: usize },
}

impl View for AgentError {
    type V = ErrorView;

    open spec fn view(&self) -> ErrorView {
        match *self {
            AgentError::SandboxDenied(m) => ErrorView::SandboxDenied(m@),
            AgentError::InvalidArguments(m) => ErrorView::InvalidArguments(m@),
            AgentError::AgentFailed(m) => ErrorView::AgentFailed(m@),
            AgentError::Upstream { status, body } => ErrorView::Upstream { status, body: body@ },
            AgentError::ResponseExceeded { budget } => ErrorView::ResponseExceeded { budget },
        }
    }
}

/// What an agent gave back, as values.
pub open spec fn outcome(r: Result<String, AgentError>) -> Result<Seq<char>, ErrorView> {
    match r {
        Ok(s) => Ok(s@),
        Err(e) => Err(e@),
    }
}

/// What the browser is told of an agent.
#[derive(Debug, Clone, PartialEq, Eq)]
pub struct AgentSummary {
    pub name: String,
    pub description: String,
}

/// One registered agent.
#[derive(Debug)]
pub struct AgentInfo {
    /// The name by which the model calls it.
    pub name: String,
    /// One line for the model.
    pub description: String,
    /// The JSON schema of its arguments.
    pub parameters: Json,
}

/// What is known of an agent, as values.
pub struct AgentView {
    pub name: Seq<char>,
    pub description: Seq<char>,
    pub parameters: JsonView,
}

impl View for AgentInfo {
    type V = AgentView;

    open spec fn view(&self) -> AgentView {
        AgentView {
            name: self.name@,
            description: self.description@,
            parameters: self.parameters@,
        }
    }
}

/// The entry of the model's `tools` list for an agent.
pub open spec fn tool_entry(a: AgentView) -> JsonView {
    JsonView::Object(
        map![
            "type"@ => JsonView::Str("function"@),
            "function"@ => JsonView::Object(map![
                "name"@ => JsonView::Str(a.name),
                "description"@ => JsonView::Str(a.description),
                "parameters"@ => a.parameters,
            ]),
        ],
    )
}

/// The schema of a string argument.
pub open spec fn string_schema(description: Seq<char>) -> JsonView {
    JsonView::Object(
        map![
            "type"@ => JsonView::Str("string"@),
            "description"@ => JsonView::Str(description),
        ],
    )
}

/// The schema of a string argument.
pub fn string_property(description: &str) -> (r: Json)
    ensures
        r@ == string_schema(description@),
{
    let mut j = Json::object();
    j.set("type", Json::text("string"));
    j.set("description", Json::text(description));
    j
}

/// Every agent that this server offers, in order of registration.
#[derive(Debug)]
pub struct AgentRegistry {
    pub agents: Vec<AgentInfo>,
}

impl View for AgentRegistry {
    type V = Seq<AgentView>;

    open spec fn view(&self) -> Seq<AgentView> {
        self.agents@.map_values(|a: AgentInfo| a@)
    }
}

/// The least index of an agent called `name` at or after `from`, else the
/// number of agents.
pub open spec fn agent_index(s: Seq<AgentView>, name: Seq<char>, from: int) -> int
    decreases s.len() - from,
{
    if from >= s.len() {
        s.len() as int
    } else if s[from].name == name {
        from
    } else {
        agent_index(s, name, from + 1)
    }
}

/// Which agents a server is built with.
#[derive(Debug, Clone, Copy, PartialEq, Eq, Structural)]
pub struct BuiltIn {
    pub web: bool,
    pub datetime: bool,
    pub weather: bool,
    pub stock: bool,
}

/// What is known of the agent that fetches pages.
pub open spec fn web_view() -> AgentView {
    AgentView {
        name: "web_fetch"@,
        description: web_fetch::DESCRIPTION@,
        parameters: web_fetch::schema(),
    }
}

/// What is known of the agent that tells the time.
pub open spec fn datetime_view() -> AgentView {
    AgentView {
        name: "get_datetime"@,
        description: datetime_agent::DESCRIPTION@,
        parameters: datetime_agent::schema(),
    }
}

/// What is known of the agent that tells the weather.
pub open spec fn weather_view() -> AgentView {
    AgentView {
        name: "get_weather"@,
        description: weather_agent::DESCRIPTION@,
        parameters: weather_agent::schema(),
    }
}

/// What is known of the agent that looks up shares.
pub open spec fn stock_view() -> AgentView {
    AgentView {
        name: "get_stock_quote"@,
        description: stock_agent::DESCRIPTION@,
        parameters: stock_agent::schema(),
    }
}

/// An agent, when the server has it.
pub open spec fn when(has: bool, a: AgentView) -> Seq<AgentView> {
    if has {
        seq![a]
    } else {
        Seq::empty()
    }
}

/// The agents of a server, in order; none when they are turned off.
pub open spec fn registered(enabled: bool, b: BuiltIn) -> Seq<AgentView> {
    if enabled {
        when(b.web, web_view()) + when(b.datetime, datetime_view()) + when(
            b.weather,
            weather_view(),
        ) + when(b.stock, stock_view())
    } else {
        Seq::empty()
    }
}

/// No two agents of a server have one name.
pub proof fn law_names_are_unique(enabled: bool, b: BuiltIn, i: int, j: int)
    requires
        0 <= i < j < registered(enabled, b).len(),
    ensures
        registered(enabled, b)[i].name != registered(enabled, b)[j].name,
{
    reveal_strlit("web_fetch");
    reveal_strlit("get_datetime");
    reveal_strlit("get_weather");
    reveal_strlit("get_stock_quote");
    assert("web_fetch"@.len() == 9 && "get_datetime"@.len() == 12);
    assert("get_weather"@.len() == 11 && "get_stock_quote"@.len() == 15);
}

impl AgentRegistry {
    /// A registry without agents.
    pub fn empty() -> (r: Self)
        ensures
            r@ == Seq::<AgentView>::empty(),
    {
        let r = AgentRegistry { agents: Vec::new() };
        assert(r@ == Seq::<AgentView>::empty());
        r
    }

    /// The registry of the agents that this server has, when the configuration
    /// turns them on.
    pub fn from_config(cfg: &AgentConfig, built_in: BuiltIn) -> (r: Self)
        ensures
            r@ == registered(cfg.enabled, built_in),
    {
        if !cfg.enabled {
            return Self::empty();
        }
        let mut agents: Vec<AgentInfo> = Vec::new();
        let ghost f = |a: AgentInfo| a@;
        if built_in.web {
            agents.push(WebFetchAgent::new(cfg.web_fetch.clone()).info());
        }
        assert(agents@.map_values(f) == when(built_in.web, web_view()));
        let ghost one = agents@.map_values(f);
        if built_in.datetime {
            agents.push(DateTimeAgent::new().info());
        }
        assert(agents@.map_values(f) == one + when(built_in.datetime, datetime_view()));
        let ghost two = agents@.map_values(f);
        if built_in.weather {
            agents.push(WeatherAgent::new(cfg.weather.clone()).info());
        }
        assert(agents@.map_values(f) == two + when(built_in.weather, weather_view()));
        let ghost three = agents@.map_values(f);
        if built_in.stock {
            agents.push(StockAgent::new().info());
        }
        assert(agents@.map_values(f) == three + when(built_in.stock, stock_view()));
        AgentRegistry { agents }
    }

    /// Name and description of each agent.
    pub fn list(&self) -> (r: Vec<AgentSummary>)
        ensures
            r@.len() == self@.len(),
            forall|i: int|
                0 <= i < r@.len() ==> (#[trigger] r@[i]).name@ == self@[i].name
                    && r@[i].description@ == self@[i].description,
    {
        let mut out: Vec<AgentSummary> = Vec::new();
        let mut i: usize = 0;
        while i < self.agents.len()
            invariant
                i <= self.agents.len(),
                out@.len() == i,
                forall|k: int|
                    0 <= k < i ==> (#[trigger] out@[k]).name@ == self@[k].name
                        && out@[k].description@ == self@[k].description,
            decreases self.agents.len() - i,
        {
            out.push(
                AgentSummary {
                    name: self.agents[i].name.clone(),
                    description: self.agents[i].description.clone(),
                },
            );
            i += 1;
        }
        out
    }

    /// The first agent called `name`.
    pub fn get(&self, name: &str) -> (r: Option<&AgentInfo>)
        ensures
            match r {
                Some(a) => agent_index(self@, name@, 0) < self@.len() && a@ == self@[agent_index(
                    self@,
                    name@,
                    0,
                )],
                None => agent_index(self@, name@, 0) == self@.len(),
            },
    {
        let mut i: usize = 0;
        while i < self.agents.len()
            invariant
                i <= self.agents.len(),
                agent_index(self@, name@, 0) == agent_index(self@, name@, i as int),
            decreases self.agents.len() - i,
        {
            if text::same(self.agents[i].name.as_str(), name) {
                return Some(&self.agents[i]);
            }
            i += 1;
        }
        None
    }

    /// The `tools` list for the model's request.
    pub fn tools_schema(&self) -> (r: Vec<Json>)
        ensures
            json::items_view(r@, r@.len()) == self@.map_values(|a: AgentView| tool_entry(a)),
    {
        let mut out: Vec<Json> = Vec::new();
        let mut i: usize = 0;
        while i < self.agents.len()
            invariant
                i <= self.agents.len(),
                out@.len() == i,
                json::items_view(out@, i as nat) == self@.map_values(
                    |a: AgentView| tool_entry(a),
                ).take(i as int),
            decreases self.agents.len() - i,
        {
            let a = &self.agents[i];
            let mut function = Json::object();
            function.set("name", Json::text(a.name.as_str()));
            function.set("description", Json::text(a.description.as_str()));
            function.set("parameters", a.parameters.copy());
            let mut entry = Json::object();
            entry.set("type", Json::text("function"));
            entry.set("function", function);
            assert(entry@ == tool_entry(a@));
            let ghost before = out@;
            out.push(entry);
            proof {
                json::lemma_items_prefix(before, out@, i as nat);
            }
            i += 1;
        }
        assert(self@.map_values(|a: AgentView| tool_entry(a)).take(i as int) == self@.map_values(
            |a: AgentView| tool_entry(a),
        ));
        out
    }

    /// How many agents there are.
    pub fn len(&self) -> (r: usize)
        ensures
            r == self@.len(),
    {
        self.agents.len()
    }

    /// Whether there is no agent.
    pub fn is_empty(&self) -> (r: bool)
        ensures
            r == (self@.len() == 0),
    {
        self.agents.len() == 0
    }
}

// ---- Laws ---------------------------------------------------------------

/// The model is told of an agent what the agent says of itself: its name, what it does
/// and what arguments it takes.
pub proof fn law_model_is_told_of_the_agent(a: AgentView)
    ensures
        ({
            let t = tool_entry(a);
            let f = json::field(t, "function"@)->0;
            &&& json::field(t, "type"@) == Some(JsonView::Str("function"@))
            &&& json::field(t, "function"@) is Some
            &&& json::field(f, "name"@) == Some(JsonView::Str(a.name))
            &&& json::field(f, "description"@) == Some(JsonView::Str(a.description))
            &&& json::field(f, "parameters"@) == Some(a.parameters)
        }),
{
    reveal_strlit("type");
    reveal_strlit("function");
    reveal_strlit("name");
    reveal_strlit("description");
    reveal_strlit("parameters");
    assert("type"@.len() == 4);
    assert("function"@.len() == 8);
    assert("name"@.len() == 4);
    assert("description"@.len() == 11);
    assert("parameters"@.len() == 10);
}

/// Which agents there are: those that are switched on, under their own names, in a
/// fixed order; none when agents are switched off.
pub proof fn law_switches_decide_on_agents(b: BuiltIn)
    ensures
        registered(false, b).len() == 0,
        registered(
            true,
            BuiltIn { web: true, datetime: true, weather: true, stock: true },
        ).map_values(|a: AgentView| a.name) == seq![
            "web_fetch"@,
            "get_datetime"@,
            "get_weather"@,
            "get_stock_quote"@,
        ],
        (exists|i: int|
            0 <= i < registered(true, b).len() && (#[trigger] registered(true, b)[i]).name
                == "web_fetch"@) <==> b.web,
        (exists|i: int|
            0 <= i < registered(true, b).len() && (#[trigger] registered(true, b)[i]).name
                == "get_datetime"@) <==> b.datetime,
        (exists|i: int|
            0 <= i < registered(true, b).len() && (#[trigger] registered(true, b)[i]).name
                == "get_weather"@) <==> b.weather,
        (exists|i: int|
            0 <= i < registered(true, b).len() && (#[trigger] registered(true, b)[i]).name
                == "get_stock_quote"@) <==> b.stock,
{
    reveal_strlit("web_fetch");
    reveal_strlit("get_datetime");
    reveal_strlit("get_weather");
    reveal_strlit("get_stock_quote");
    assert("web_fetch"@.len() == 9);
    assert("get_datetime"@.len() == 12);
    assert("get_weather"@.len() == 11);
    assert("get_stock_quote"@.len() == 15);
    let all = registered(true, BuiltIn { web: true, datetime: true, weather: true, stock: true });
    assert(all.map_values(|a: AgentView| a.name) =~= seq![
        "web_fetch"@,
        "get_datetime"@,
        "get_weather"@,
        "get_stock_quote"@,
    ]);
    let some = registered(true, b);
    let w = when(b.web, web_view());
    let d = when(b.datetime, datetime_view());
    let e = when(b.weather, weather_view());
    let s = when(b.stock, stock_view());
    if b.web {
        assert(some[0] == web_view());
    }
    if b.datetime {
        assert(some[w.len() as int] == datetime_view());
    }
    if b.weather {
        assert(some[(w + d).len() as int] == weather_view());
    }
    if b.stock {
        assert(some[(w + d + e).len() as int] == stock_view());
    }
}

/// What is said of each failure of an agent begins with its kind and goes on with its
/// own words.
pub proof fn law_failures_are_told_apart(e: AgentError)
    ensures
        e is SandboxDenied ==> e.text() == "sandbox denied: "@ + e->SandboxDenied_0@,
        e is InvalidArguments ==> e.text() == "invalid arguments: "@ + e->InvalidArguments_0@,
        e is AgentFailed ==> e.text() == "agent failed: "@ + e->AgentFailed_0@,
        e is Upstream ==> e.text() == "upstream returned "@ + text::digits(e->status as nat)
            + ": "@ + e->body@,
        e is ResponseExceeded ==> e.text() == "response exceeded max_bytes="@ + text::digits(
            e->budget as nat,
        ),
{
}

/// An agent is found by its name, the first of that name.
pub proof fn law_agents_are_found_by_name(s: Seq<AgentView>, name: Seq<char>, from: int, i: int)
    requires
        0 <= from <= i <= s.len(),
        i < s.len() ==> s[i].name == name,
        forall|j: int| from <= j < i ==> (#[trigger] s[j]).name != name,
    ensures
        agent_index(s, name, from) == i,
    decreases i - from,
{
    if from < i {
        assert(s[from].name != name);
        law_agents_are_found_by_name(s, name, from + 1, i);
    }
}

/// Text for the model is described as text.
pub proof fn law_text_is_described(description: Seq<char>)
    ensures
        json::field(string_schema(description), "type"@) == Some(JsonView::Str("string"@)),
        json::field(string_schema(description), "description"@) == Some(
            JsonView::Str(description),
        ),
{
    reveal_strlit("type");
    reveal_strlit("description");
    assert("type"@.len() == 4);
    assert("description"@.len() == 11);
}

} // verus!
