//! The proxy to the chat model and the routes of the agents.

use vstd::prelude::*;

use crate::agents;
use crate::agents::{AgentError, AgentRegistry, AgentView};
use crate::config::{LlmConfig, LlmSettings};
use crate::http;
use crate::http::{BodyType, Caching, Reply, ReplyView};
use crate::json;
use crate::json::{Json, JsonView};
use crate::llm_prompt;
use crate::middleware::HeaderPair;
use crate::text;

verus! {

// ---- Errors -------------------------------------------------------------

/// Why a request gets no answer.
#[derive(Debug, Clone, PartialEq, Eq)]
pub enum LlmError {
    /// There is no proxy.
    Disabled,
    /// The request is not one the proxy takes.
    BadRequest(String),
    /// The model's server refused.
    Upstream { status: u16, body: String },
    /// There are no agents.
    AgentsDisabled,
    /// There is no such agent.
    AgentNotFound(String),
}

/// Why a request gets no answer, as values.
pub enum LlmErrorView {
    Disabled,
    BadRequest(Seq<char>),
    Upstream { status: u16, body: Seq<char> },
    AgentsDisabled,
    AgentNotFound(Seq<char>),
}

impl View for LlmError {
    type V = LlmErrorView;

    open spec fn view(&self) -> LlmErrorView {
        match *self {
            LlmError::Disabled => LlmErrorView::Disabled,
            LlmError::BadRequest(m) => LlmErrorView::BadRequest(m@),
            LlmError::Upstream { status, body } => LlmErrorView::Upstream { status, body: body@ },
            LlmError::AgentsDisabled => LlmErrorView::AgentsDisabled,
            LlmError::AgentNotFound(n) => LlmErrorView::AgentNotFound(n@),
        }
    }
}

/// The message of an error.
pub open spec fn error_text(e: LlmErrorView) -> Seq<char> {
    match e {
        LlmErrorView::Disabled => "chat proxy is disabled on this server"@,
        LlmErrorView::BadRequest(m) => "bad request: "@ + m,
        LlmErrorView::Upstream { status, body } => "upstream returned "@ + http::status_text(
            http::valid_status(status),
        ) + ": "@ + body,
        LlmErrorView::AgentsDisabled => "agents disabled on this server"@,
        LlmErrorView::AgentNotFound(n) => "agent `"@ + n + "` not found"@,
    }
}

/// The answer that an error gives. What the model's server said is not to be
/// kept by a cache.
pub open spec fn error_reply(e: LlmErrorView) -> ReplyView {
    match e {
        LlmErrorView::Disabled => ReplyView {
            status: 404,
            body_type: BodyType::Text,
            caching: Caching::Unsaid,
            body: "llm disabled"@,
        },
        LlmErrorView::BadRequest(m) => ReplyView {
            status: 400,
            body_type: BodyType::Text,
            caching: Caching::Unsaid,
            body: m,
        },
        LlmErrorView::Upstream { status, body } => ReplyView {
            status: http::valid_status(status),
            body_type: BodyType::Text,
            caching: Caching::NoStore,
            body,
        },
        LlmErrorView::AgentsDisabled => ReplyView {
            status: 404,
            body_type: BodyType::Text,
            caching: Caching::Unsaid,
            body: "agents disabled"@,
        },
        LlmErrorView::AgentNotFound(n) => ReplyView {
            status: 404,
            body_type: BodyType::Text,
            caching: Caching::Unsaid,
            body: "agent `"@ + n + "` not found"@,
        },
    }
}

/// A plain text answer.
fn text_reply(status: u16, caching: Caching, body: String) -> (r: Reply)
    ensures
        r@ == (ReplyView { status, body_type: BodyType::Text, caching, body: body@ }),
{
    Reply { status, body_type: BodyType::Text, caching, body }
}

/// The sentence about an agent that is not there.
fn not_found_text(name: &str) -> (r: String)
    ensures
        r@ == "agent `"@ + name@ + "` not found"@,
{
    let mut r = text::own("agent `");
    r.append(name);
    r.append("` not found");
    r
}

impl LlmError {
    /// The message of the error.
    pub fn message(&self) -> (r: String)
        ensures
            r@ == error_text(self@),
    {
        match self {
            LlmError::Disabled => text::own("chat proxy is disabled on this server"),
            LlmError::BadRequest(m) => text::own("bad request: ").concat(m.as_str()),
            LlmError::Upstream { status, body } => {
                let line = http::status_line(*status);
                let mut r = text::own("upstream returned ");
                r.append(line.as_str());
                r.append(": ");
                r.append(body.as_str());
                r
            },
            LlmError::AgentsDisabled => text::own("agents disabled on this server"),
            LlmError::AgentNotFound(n) => not_found_text(n.as_str()),
        }
    }

    /// The answer that the error gives.
    pub fn into_response(self) -> (r: Reply)
        ensures
            r@ == error_reply(self@),
    {
        match self {
            LlmError::Disabled => text_reply(404, Caching::Unsaid, text::own("llm disabled")),
            LlmError::BadRequest(m) => text_reply(400, Caching::Unsaid, m),
            LlmError::Upstream { status, body } => text_reply(
                http::status_or_bad_gateway(status),
                Caching::NoStore,
                body,
            ),
            LlmError::AgentsDisabled => text_reply(
                404,
                Caching::Unsaid,
                text::own("agents disabled"),
            ),
            LlmError::AgentNotFound(n) => text_reply(
                404,
                Caching::Unsaid,
                not_found_text(n.as_str()),
            ),
        }
    }
}

// ---- The way to the model's server --------------------------------------

/// `s` without the slashes at its end.
pub open spec fn strip_slashes(s: Seq<char>) -> Seq<char>
    decreases s.len(),
{
    if s.len() > 0 && s[s.len() - 1] == '/' {
        strip_slashes(s.subrange(0, s.len() - 1))
    } else {
        s
    }
}

/// The address of a route of the model's server.
pub open spec fn route_url(base: Seq<char>, route: Seq<char>) -> Seq<char> {
    strip_slashes(base) + route
}

/// The value of the authorization header: the key as a bearer token, when there
/// is one that can stand in a header.
pub open spec fn bearer(key: Option<Seq<char>>) -> Option<Seq<char>> {
    match key {
        Some(k) => if http::header_bytes(text::utf8("Bearer "@ + k)) {
            Some("Bearer "@ + k)
        } else {
            None
        },
        None => None,
    }
}

/// The address of a route of the model's server.
pub fn upstream_url(base: &str, route: &str) -> (r: String)
    ensures
        r@ == route_url(base@, route@),
{
    let mut v = text::chars_of(base);
    while v.len() > 0 && v[v.len() - 1] == '/'
        invariant
            strip_slashes(v@) == strip_slashes(base@),
        decreases v.len(),
    {
        let ghost before = v@;
        let _ = v.pop();
        assert(v@ == before.subrange(0, before.len() - 1));
    }
    let mut r = text::string_of(v.as_slice(), 0, v.len());
    assert(v@.subrange(0, v@.len() as int) == v@);
    r.append(route);
    r
}

/// The value of the authorization header.
pub fn auth_header(cfg: &LlmConfig) -> (r: Option<String>)
    ensures
        text::opt_text(r) == bearer(cfg@.api_key),
{
    match &cfg.api_key {
        Some(k) => {
            let v = text::own("Bearer ").concat(k.as_str());
            if http::is_header_value(v.as_str()) {
                Some(v)
            } else {
                None
            }
        },
        None => None,
    }
}

// ---- Chat requests ------------------------------------------------------

/// Drop location messages, unless they are allowed.
pub fn strip_user_location_if_disabled(body: &mut Json, allow: bool)
    ensures
        final(body)@ == llm_prompt::without_location(old(body)@, allow),
{
    if allow {
        return ;
    }
    let mut kept: Vec<Json> = Vec::new();
    {
        let ms: &Vec<Json> = match body.get("messages") {
            Some(m) => match m.as_array() {
                Some(a) => a,
                None => {
                    return ;
                },
            },
            None => {
                return ;
            },
        };
        let ghost mv = json::items_view(ms@, ms@.len());
        let ghost keep = |m: JsonView| !llm_prompt::is_location(m);
        proof {
            json::lemma_items(ms@, ms@.len());
            reveal(Seq::filter);
        }
        let mut i: usize = 0;
        while i < ms.len()
            invariant
                i <= ms.len(),
                mv.len() == ms@.len(),
                keep == (|m: JsonView| !llm_prompt::is_location(m)),
                forall|k: int| 0 <= k < ms@.len() ==> mv[k] == (#[trigger] ms@[k])@,
                json::items_view(kept@, kept@.len()) == mv.take(i as int).filter(keep),
            decreases ms.len() - i,
        {
            proof {
                reveal(Seq::filter);
                assert(mv.take(i + 1).drop_last() == mv.take(i as int));
                assert(mv.take(i + 1).last() == ms@[i as int]@);
            }
            if !location_message(&ms[i]) {
                let ghost before = kept@;
                kept.push(ms[i].copy());
                proof {
                    json::lemma_items_prefix(before, kept@, before.len());
                }
            }
            i += 1;
        }
        assert(mv.take(i as int) == mv);
    }
    body.set("messages", Json::Array(kept));
}

/// Whether a message is a location that the browser put in.
fn location_message(m: &Json) -> (r: bool)
    ensures
        r == llm_prompt::is_location(m@),
{
    let system = match m.get("role") {
        Some(v) => match v.as_str() {
            Some(t) => text::same(t, "system"),
            None => false,
        },
        None => false,
    };
    if !system {
        return false;
    }
    match m.get("content") {
        Some(v) => match v.as_str() {
            Some(t) => text::begins(t, llm_prompt::USER_LOCATION_MARKER),
            None => false,
        },
        None => false,
    }
}

/// The fields of a chat request that the proxy reads.
#[derive(Debug, Clone, PartialEq, Eq)]
pub struct ChatRequest {
    pub stream: Option<bool>,
    pub model: Option<String>,
}

/// The fields of a chat request that the proxy reads, as values.
pub struct RequestView {
    pub stream: Option<bool>,
    pub model: Option<Seq<char>>,
}

impl View for ChatRequest {
    type V = RequestView;

    open spec fn view(&self) -> RequestView {
        RequestView { stream: self.stream, model: text::opt_text(self.model) }
    }
}

/// The wish of a body to be streamed, unsaid when it is missing or null; or what is
/// wrong with it.
pub open spec fn stream_of(body: JsonView) -> Result<Option<bool>, Seq<char>> {
    match json::field(body, "stream"@) {
        None => Ok(None),
        Some(JsonView::Null) => Ok(None),
        Some(JsonView::Bool(b)) => Ok(Some(b)),
        Some(_) => Err("`stream` is neither true nor false"@),
    }
}

/// The model that a body names, unsaid when it is missing or null; or what is wrong
/// with it.
pub open spec fn model_of(body: JsonView) -> Result<Option<Seq<char>>, Seq<char>> {
    match json::field(body, "model"@) {
        None => Ok(None),
        Some(JsonView::Null) => Ok(None),
        Some(JsonView::Str(m)) => Ok(Some(m)),
        Some(_) => Err("`model` is no text"@),
    }
}

/// The fields in a body, or what is wrong with them. There has to be a list of
/// messages.
pub open spec fn request_of(body: JsonView) -> Result<RequestView, Seq<char>> {
    if llm_prompt::messages_of(body) is None {
        Err("missing field `messages`"@)
    } else {
        match stream_of(body) {
            Err(e) => Err(e),
            Ok(stream) => match model_of(body) {
                Err(e) => Err(e),
                Ok(model) => Ok(RequestView { stream, model }),
            },
        }
    }
}

/// Read the fields in a body.
pub fn read_request(body: &Json) -> (r: Result<ChatRequest, String>)
    ensures
        match r {
            Ok(q) => request_of(body@) == Ok::<RequestView, Seq<char>>(q@),
            Err(e) => request_of(body@) == Err::<RequestView, Seq<char>>(e@),
        },
{
    let has_messages = match body.get("messages") {
        Some(m) => match m.as_array() {
            Some(_) => true,
            None => false,
        },
        None => false,
    };
    if !has_messages {
        return Err(text::own("missing field `messages`"));
    }
    let stream = match body.get("stream") {
        None => None,
        Some(Json::Null) => None,
        Some(Json::Bool(b)) => Some(*b),
        Some(_) => {
            return Err(text::own("`stream` is neither true nor false"));
        },
    };
    let model = match body.get("model") {
        None => None,
        Some(Json::Null) => None,
        Some(Json::Str(m)) => Some(text::own(m.as_str())),
        Some(_) => {
            return Err(text::own("`model` is no text"));
        },
    };
    Ok(ChatRequest { stream, model })
}

/// The tools that the client sent.
pub open spec fn client_tools(body: JsonView) -> Seq<JsonView> {
    match json::items_of(json::field(body, "tools"@)) {
        Some(t) => t,
        None => Seq::empty(),
    }
}

/// The body with the model, with streaming on, and with the server's tools
/// before the client's. A body that is no object stays as it is.
pub open spec fn with_tools(body: JsonView, model: Seq<char>, tools: Seq<JsonView>) -> JsonView {
    let named = llm_prompt::with_member(
        llm_prompt::with_member(body, "model"@, JsonView::Str(model)),
        "stream"@,
        JsonView::Bool(true),
    );
    if tools.len() == 0 {
        named
    } else {
        llm_prompt::with_member(named, "tools"@, JsonView::Array(tools + client_tools(named)))
    }
}

/// The body that goes to the model's server.
pub open spec fn forwarded(
    cfg: LlmSettings,
    body: JsonView,
    model: Seq<char>,
    tools: Seq<JsonView>,
) -> JsonView {
    llm_prompt::without_location(
        llm_prompt::prompted(with_tools(body, model, tools), cfg.system_prompt),
        cfg.allow_user_location,
    )
}

/// Put the server's tools before the client's.
fn merge_tools(body: &mut Json, tools: Vec<Json>)
    requires
        tools@.len() > 0,
    ensures
        final(body)@ == llm_prompt::with_member(
            old(body)@,
            "tools"@,
            JsonView::Array(json::items_view(tools@, tools@.len()) + client_tools(old(body)@)),
        ),
{
    let mut all = tools;
    let ghost server = json::items_view(all@, all@.len());
    let ghost client = client_tools(body@);
    match body.get("tools") {
        Some(t) => match t.as_array() {
            Some(a) => {
                proof {
                    json::lemma_items(a@, a@.len());
                }
                let mut i: usize = 0;
                assert(server + client.take(0) == server);
                while i < a.len()
                    invariant
                        i <= a.len(),
                        client.len() == a@.len(),
                        forall|k: int| 0 <= k < a@.len() ==> client[k] == (#[trigger] a@[k])@,
                        json::items_view(all@, all@.len()) == server + client.take(i as int),
                    decreases a.len() - i,
                {
                    let ghost before = all@;
                    all.push(a[i].copy());
                    proof {
                        json::lemma_items_prefix(before, all@, before.len());
                        assert(client.take(i + 1) == client.take(i as int).push(
                            client[i as int],
                        ));
                        assert(server + client.take(i + 1) == (server + client.take(
                            i as int,
                        )).push(client[i as int]));
                    }
                    i += 1;
                }
                assert(client.take(i as int) == client);
            },
            None => {
                assert(server + client == server);
            },
        },
        None => {
            assert(server + client == server);
        },
    }
    body.set("tools", Json::Array(all));
}

/// The body that goes to the model's server.
pub fn forward_body(cfg: &LlmConfig, body: Json, model: &str, tools: Vec<Json>) -> (r: Json)
    ensures
        r@ == forwarded(cfg@, body@, model@, json::items_view(tools@, tools@.len())),
{
    let mut body = body;
    body.set("model", Json::text(model));
    body.set("stream", Json::Bool(true));
    proof {
        json::lemma_items(tools@, tools@.len());
    }
    if tools.len() > 0 {
        merge_tools(&mut body, tools);
    }
    match &cfg.system_prompt {
        Some(p) => {
            llm_prompt::inject_default_system_prompt(&mut body, Some(p.as_str()));
        },
        None => {},
    }
    strip_user_location_if_disabled(&mut body, cfg.allow_user_location);
    body
}

/// A chat request on its way to the model's server.
#[derive(Debug)]
pub struct ChatPlan {
    /// Where it goes.
    pub url: String,
    /// The content type, as bytes.
    pub content_type: Vec<u8>,
    /// The authorization header.
    pub authorization: Option<String>,
    /// The body.
    pub body: Json,
}

/// A chat request on its way, as values.
pub struct ChatPlanView {
    pub url: Seq<char>,
    pub content_type: Seq<u8>,
    pub authorization: Option<Seq<char>>,
    pub body: JsonView,
}

impl View for ChatPlan {
    type V = ChatPlanView;

    open spec fn view(&self) -> ChatPlanView {
        ChatPlanView {
            url: self.url@,
            content_type: self.content_type@,
            authorization: text::opt_text(self.authorization),
            body: self.body@,
        }
    }
}

/// What is wrong with a request's wish to be streamed.
pub open spec fn stream_error(stream: Option<bool>) -> Option<Seq<char>> {
    match stream {
        Some(true) => None,
        Some(false) => Some(
            "stream must be true; this proxy only supports streaming responses"@,
        ),
        None => Some("missing `stream` field; this proxy only supports streaming responses"@),
    }
}

/// What is wrong with a body that has been read: its fields, or that it does not
/// ask to be streamed.
pub open spec fn body_error(body: JsonView) -> Option<Seq<char>> {
    match request_of(body) {
        Err(e) => Some("invalid json body: "@ + e),
        Ok(req) => stream_error(req.stream),
    }
}

/// What is wrong with a request: a complaint of the caller's about its form, that
/// its body cannot be read, or what the body says.
pub open spec fn request_error(
    complaint: Option<String>,
    body: Result<JsonView, Seq<char>>,
) -> Option<Seq<char>> {
    match complaint {
        Some(e) => Some("invalid json body: "@ + e@),
        None => match body {
            Err(e) => Some("invalid json body: "@ + e),
            Ok(v) => body_error(v),
        },
    }
}

/// The model that a request is for.
pub open spec fn request_model(cfg: LlmSettings, req: RequestView) -> Seq<char> {
    match req.model {
        Some(m) => m,
        None => cfg.default_model,
    }
}

/// What goes to the model's server for a body that is in order.
pub open spec fn chat_plan(
    cfg: LlmSettings,
    body: JsonView,
    tools: Seq<JsonView>,
    content_type: Option<Vec<u8>>,
) -> ChatPlanView {
    ChatPlanView {
        url: route_url(cfg.base_url, "/v1/chat/completions"@),
        content_type: match content_type {
            Some(t) => t@,
            None => text::utf8("application/json"@),
        },
        authorization: bearer(cfg.api_key),
        body: forwarded(cfg, body, request_model(cfg, request_of(body)->Ok_0), tools),
    }
}

/// A chat request has come with these bytes. `complaint` is what a stricter reader
/// of its form has found wrong with it. Without a proxy, with a complaint, with an
/// unreadable body, without a list of messages or without `stream: true` it is
/// refused, and nothing is sent; else it goes on to the model's server.
pub fn chat_completions(
    llm: Option<&LlmConfig>,
    complaint: Option<String>,
    body: &[u8],
    tools: Vec<Json>,
    content_type: Option<Vec<u8>>,
) -> (r: Result<ChatPlan, LlmError>)
    ensures
        match llm {
            None => r is Err && r->Err_0@ == LlmErrorView::Disabled,
            Some(cfg) => match request_error(complaint, json::json_parse_bytes(body@)) {
                Some(e) => r is Err && r->Err_0@ == LlmErrorView::BadRequest(e),
                None => r is Ok && r->Ok_0@ == chat_plan(
                    cfg@,
                    json::json_parse_bytes(body@)->Ok_0,
                    json::items_view(tools@, tools@.len()),
                    content_type,
                ),
            },
        },
{
    let cfg = match llm {
        Some(c) => c,
        None => {
            return Err(LlmError::Disabled);
        },
    };
    match complaint {
        Some(e) => {
            return Err(
                LlmError::BadRequest(text::own("invalid json body: ").concat(e.as_str())),
            );
        },
        None => {},
    }
    match json::parse_bytes(body) {
        Ok(v) => checked_plan(cfg, v, tools, content_type),
        Err(e) => Err(LlmError::BadRequest(text::own("invalid json body: ").concat(e.as_str()))),
    }
}

/// A chat request whose body has been read: what goes on to the model's server, or
/// why it is refused.
pub fn checked_plan(
    cfg: &LlmConfig,
    body: Json,
    tools: Vec<Json>,
    content_type: Option<Vec<u8>>,
) -> (r: Result<ChatPlan, LlmError>)
    ensures
        match body_error(body@) {
            Some(e) => r is Err && r->Err_0@ == LlmErrorView::BadRequest(e),
            None => r is Ok && r->Ok_0@ == chat_plan(
                cfg@,
                body@,
                json::items_view(tools@, tools@.len()),
                content_type,
            ),
        },
{
    let req = match read_request(&body) {
        Ok(q) => q,
        Err(e) => {
            return Err(
                LlmError::BadRequest(text::own("invalid json body: ").concat(e.as_str())),
            );
        },
    };
    match req.stream {
        Some(true) => {},
        Some(false) => {
            return Err(
                LlmError::BadRequest(
                    text::own("stream must be true; this proxy only supports streaming responses"),
                ),
            );
        },
        None => {
            return Err(
                LlmError::BadRequest(
                    text::own(
                        "missing `stream` field; this proxy only supports streaming responses",
                    ),
                ),
            );
        },
    }
    let model = match req.model {
        Some(m) => m,
        None => cfg.default_model.clone(),
    };
    let content_type = match content_type {
        Some(t) => t,
        None => text::utf8_bytes("application/json"),
    };
    Ok(
        ChatPlan {
            url: upstream_url(cfg.base_url.as_str(), "/v1/chat/completions"),
            content_type,
            authorization: auth_header(cfg),
            body: forward_body(cfg, body, model.as_str(), tools),
        },
    )
}

/// The headers of an answer that is streamed: its type, that it is not kept, and
/// that nothing on its way holds it back.
pub fn stream_headers() -> (r: Vec<HeaderPair>)
    ensures
        r@.len() == 3,
        r@[0].name@ == "content-type"@ && r@[0].value@ == "text/event-stream"@,
        r@[1].name@ == "cache-control"@ && r@[1].value@ == "no-cache"@,
        r@[2].name@ == "x-accel-buffering"@ && r@[2].value@ == "no"@,
{
    vec![
        HeaderPair { name: "content-type", value: "text/event-stream" },
        HeaderPair { name: "cache-control", value: "no-cache" },
        HeaderPair { name: "x-accel-buffering", value: "no" },
    ]
}

/// What asking the model's server gave, when it did not give a stream.
#[derive(Debug, Clone, PartialEq, Eq)]
pub enum UpstreamFailure {
    /// No connection.
    Unreachable(String),
    /// A status that is no success.
    Refused { status: u16, body: String },
}

/// The error of a chat request whose first answer could not be opened.
pub fn chat_failure(f: UpstreamFailure) -> (r: LlmError)
    ensures
        r@ == match f {
            UpstreamFailure::Unreachable(e) => LlmErrorView::BadRequest(
                "upstream connect failed: "@ + e@,
            ),
            UpstreamFailure::Refused { status, body } => LlmErrorView::Upstream {
                status: http::valid_status(status),
                body: body@,
            },
        },
        f is Unreachable ==> error_reply(r@).status == 400 && error_reply(r@).body
            == "upstream connect failed: "@ + f->Unreachable_0@,
        f is Refused && 100 <= f->status <= 999 ==> error_reply(r@).status == f->status
            && error_reply(r@).body == f->body@,
{
    match f {
        UpstreamFailure::Unreachable(e) => LlmError::BadRequest(
            text::own("upstream connect failed: ").concat(e.as_str()),
        ),
        UpstreamFailure::Refused { status, body } => LlmError::Upstream {
            status: http::status_or_bad_gateway(status),
            body,
        },
    }
}

// ---- Models -------------------------------------------------------------

/// What asking for the models gave.
#[derive(Debug, Clone, PartialEq, Eq)]
pub enum ModelsOutcome {
    /// No connection.
    Unreachable,
    /// A status that is no success.
    Refused { status: u16, body: String },
    /// The answer broke off.
    ReadFailed(String),
    /// The list.
    Listed(Vec<u8>),
}

/// The answer to a request for the models.
#[derive(Debug, PartialEq, Eq)]
pub enum ModelsReply {
    /// The list as it came, as JSON that no cache keeps.
    Verbatim(Vec<u8>),
    /// A list of the server's own.
    Own(Reply),
}

/// A list with the default model alone.
pub open spec fn fallback_models(model: Seq<char>) -> JsonView {
    JsonView::Object(
        map![
            "object"@ => JsonView::Str("list"@),
            "data"@ => JsonView::Array(seq![
                JsonView::Object(map![
                    "id"@ => JsonView::Str(model),
                    "object"@ => JsonView::Str("model"@),
                ]),
            ]),
        ],
    )
}

/// A JSON answer that no cache keeps.
pub open spec fn json_reply(v: JsonView) -> ReplyView {
    ReplyView {
        status: 200,
        body_type: BodyType::JsonText,
        caching: Caching::NoStore,
        body: json::json_text(v),
    }
}

/// A JSON answer that no cache keeps.
fn reply_with(j: &Json) -> (r: Reply)
    ensures
        r@ == json_reply(j@),
{
    Reply {
        status: 200,
        body_type: BodyType::JsonText,
        caching: Caching::NoStore,
        body: json::render(j),
    }
}

/// A list with the default model alone.
pub fn make_fallback_models(model: &str) -> (r: Json)
    ensures
        r@ == fallback_models(model@),
{
    let mut entry = Json::object();
    entry.set("id", Json::text(model));
    entry.set("object", Json::text("model"));
    let ghost ev = entry@;
    let mut data: Vec<Json> = Vec::new();
    data.push(entry);
    proof {
        reveal_with_fuel(json::items_view, 2);
        assert(json::items_view(data@, 1) == seq![ev]);
    }
    let mut j = Json::object();
    j.set("object", Json::text("list"));
    j.set("data", Json::Array(data));
    j
}

/// Answer a request for the models: the list of the model's server as it is, or
/// when that cannot be reached a list with the default model.
pub fn models_list(llm: Option<&LlmConfig>, outcome: ModelsOutcome) -> (r: Result<
    ModelsReply,
    LlmError,
>)
    ensures
        match llm {
            None => r is Err && r->Err_0@ == LlmErrorView::Disabled,
            Some(cfg) => match outcome {
                ModelsOutcome::Unreachable => r is Ok && r->Ok_0 is Own && r->Ok_0->Own_0@
                    == json_reply(fallback_models(cfg@.default_model)),
                ModelsOutcome::Refused { status, body } => r is Err && r->Err_0@
                    == (LlmErrorView::Upstream {
                    status: http::valid_status(status),
                    body: body@,
                }),
                ModelsOutcome::ReadFailed(e) => r is Err && r->Err_0@ == LlmErrorView::BadRequest(
                    "upstream read failed: "@ + e@,
                ),
                ModelsOutcome::Listed(bytes) => r == Ok::<ModelsReply, LlmError>(
                    ModelsReply::Verbatim(bytes),
                ),
            },
        },
        llm is None ==> r is Err && error_reply(r->Err_0@).status == 404,
        llm is Some && outcome is Listed ==> r is Ok && r->Ok_0 is Verbatim
            && r->Ok_0->Verbatim_0@ == outcome->Listed_0@,
        llm is Some && outcome is Unreachable ==> r is Ok && r->Ok_0 is Own
            && r->Ok_0->Own_0.status == 200,
        llm is Some && outcome is ReadFailed ==> r is Err && error_reply(r->Err_0@).status == 400,
{
    let cfg = match llm {
        Some(c) => c,
        None => {
            return Err(LlmError::Disabled);
        },
    };
    match outcome {
        ModelsOutcome::Unreachable => {
            let j = make_fallback_models(cfg.default_model.as_str());
            Ok(ModelsReply::Own(reply_with(&j)))
        },
        ModelsOutcome::Refused { status, body } => Err(
            LlmError::Upstream { status: http::status_or_bad_gateway(status), body },
        ),
        ModelsOutcome::ReadFailed(e) => Err(
            LlmError::BadRequest(text::own("upstream read failed: ").concat(e.as_str())),
        ),
        ModelsOutcome::Listed(bytes) => Ok(ModelsReply::Verbatim(bytes)),
    }
}

// ---- Agents -------------------------------------------------------------

/// What the browser is told of an agent.
pub open spec fn summary_entry(a: AgentView) -> JsonView {
    JsonView::Object(
        map!["name"@ => JsonView::Str(a.name), "description"@ => JsonView::Str(a.description)],
    )
}

/// The list of the agents.
pub open spec fn agents_data(s: Seq<AgentView>) -> JsonView {
    JsonView::Object(
        map!["data"@ => JsonView::Array(s.map_values(|a: AgentView| summary_entry(a)))],
    )
}

/// The list of the agents as a value.
pub fn make_agents_data(registry: &AgentRegistry) -> (r: Json)
    ensures
        r@ == agents_data(registry@),
{
    let all = registry.list();
    let ghost want = registry@.map_values(|a: AgentView| summary_entry(a));
    let mut data: Vec<Json> = Vec::new();
    let mut i: usize = 0;
    while i < all.len()
        invariant
            i <= all.len(),
            all@.len() == registry@.len(),
            forall|k: int|
                0 <= k < all@.len() ==> (#[trigger] all@[k]).name@ == registry@[k].name
                    && all@[k].description@ == registry@[k].description,
            want == registry@.map_values(|a: AgentView| summary_entry(a)),
            data@.len() == i,
            json::items_view(data@, i as nat) == want.take(i as int),
        decreases all.len() - i,
    {
        let mut e = Json::object();
        e.set("name", Json::text(all[i].name.as_str()));
        e.set("description", Json::text(all[i].description.as_str()));
        assert(e@ == want[i as int]);
        let ghost before = data@;
        data.push(e);
        proof {
            json::lemma_items_prefix(before, data@, i as nat);
            assert(want.take(i + 1) == want.take(i as int).push(want[i as int]));
        }
        i += 1;
    }
    assert(want.take(i as int) == want);
    let mut j = Json::object();
    j.set("data", Json::Array(data));
    j
}

/// Answer a request for the agents.
pub fn agents_list(registry: Option<&AgentRegistry>) -> (r: Result<Reply, LlmError>)
    ensures
        match registry {
            None => r is Err && r->Err_0@ == LlmErrorView::AgentsDisabled,
            Some(g) => r is Ok && r->Ok_0@ == json_reply(agents_data(g@)),
        },
        registry is None ==> r is Err && error_reply(r->Err_0@).status == 404,
        registry is Some ==> r is Ok && r->Ok_0.status == 200,
{
    match registry {
        None => Err(LlmError::AgentsDisabled),
        Some(g) => {
            let j = make_agents_data(g);
            Ok(reply_with(&j))
        },
    }
}

/// The arguments in the body of a call: the member `arguments`, else an object
/// without members.
pub open spec fn call_arguments(body: JsonView) -> JsonView {
    match json::field(body, "arguments"@) {
        Some(a) => a,
        None => JsonView::Object(Map::empty()),
    }
}

/// The arguments in the body of a call.
pub fn arguments_of(body: &Json) -> (r: Json)
    ensures
        r@ == call_arguments(body@),
{
    match body.get("arguments") {
        Some(a) => a.copy(),
        None => Json::object(),
    }
}

/// A direct call of an agent has come: the arguments to run it with, or why it
/// is not run.
pub fn agent_invoke(registry: Option<&AgentRegistry>, name: &str, body: &[u8]) -> (r: Result<
    Json,
    LlmError,
>)
    ensures
        match registry {
            None => r is Err && r->Err_0@ == LlmErrorView::AgentsDisabled,
            Some(g) => if agents::agent_index(g@, name@, 0) >= g@.len() {
                r is Err && r->Err_0@ == LlmErrorView::AgentNotFound(name@)
            } else {
                match json::json_parse_bytes(body@) {
                    Err(e) => r is Err && r->Err_0@ == LlmErrorView::BadRequest(
                        "invalid json body: "@ + e,
                    ),
                    Ok(v) => r is Ok && r->Ok_0@ == call_arguments(v),
                }
            },
        },
        registry is None ==> r is Err && error_reply(r->Err_0@).status == 404,
        registry is Some && (forall|i: int|
            0 <= i < registry->0@.len() ==> (#[trigger] registry->0@[i]).name != name@) ==> r is Err
            && error_reply(r->Err_0@).status == 404,
{
    let g = match registry {
        None => {
            return Err(LlmError::AgentsDisabled);
        },
        Some(g) => g,
    };
    proof {
        if forall|i: int| 0 <= i < g@.len() ==> (#[trigger] g@[i]).name != name@ {
            agents::law_agents_are_found_by_name(g@, name@, 0, g@.len() as int);
        }
    }
    if g.get(name).is_none() {
        return Err(LlmError::AgentNotFound(text::own(name)));
    }
    match json::parse_bytes(body) {
        Err(e) => Err(LlmError::BadRequest(text::own("invalid json body: ").concat(e.as_str()))),
        Ok(v) => Ok(arguments_of(&v)),
    }
}

/// The result of a direct call.
pub open spec fn invoke_data(name: Seq<char>, result: Seq<char>) -> JsonView {
    JsonView::Object(
        map!["name"@ => JsonView::Str(name), "result"@ => JsonView::Str(result)],
    )
}

/// The error of a direct call: what the caller did wrong is a bad request, what
/// failed behind the agent is a bad gateway. The status that a server behind the
/// agent answered with is told in the text.
pub open spec fn invoke_error(e: AgentError) -> LlmErrorView {
    match e {
        AgentError::InvalidArguments(m) => LlmErrorView::BadRequest(m@),
        AgentError::SandboxDenied(m) => LlmErrorView::BadRequest(m@),
        AgentError::Upstream { status, body } => LlmErrorView::Upstream {
            status: 502,
            body: e.text(),
        },
        AgentError::ResponseExceeded { budget } => LlmErrorView::BadRequest(
            "response exceeded max_bytes="@ + text::digits(budget as nat),
        ),
        AgentError::AgentFailed(m) => LlmErrorView::Upstream { status: 502, body: m@ },
    }
}

/// Answer a direct call.
pub fn invoke_reply(name: &str, result: Result<String, AgentError>) -> (r: Result<Reply, LlmError>)
    ensures
        match result {
            Ok(t) => r is Ok && r->Ok_0@ == json_reply(invoke_data(name@, t@)),
            Err(e) => r is Err && r->Err_0@ == invoke_error(e),
        },
        result is Ok <==> r is Ok,
        r is Ok ==> r->Ok_0.status == 200,
        result is Err && (result->Err_0 is InvalidArguments || result->Err_0 is SandboxDenied)
            ==> error_reply(r->Err_0@).status == 400,
        result is Err && (result->Err_0 is AgentFailed || result->Err_0 is Upstream) ==> error_reply(
            r->Err_0@,
        ).status == 502,
{
    match result {
        Ok(t) => {
            let mut j = Json::object();
            j.set("name", Json::text(name));
            j.set("result", Json::text(t.as_str()));
            Ok(reply_with(&j))
        },
        Err(AgentError::InvalidArguments(m)) => Err(LlmError::BadRequest(m)),
        Err(AgentError::SandboxDenied(m)) => Err(LlmError::BadRequest(m)),
        Err(AgentError::Upstream { status, body }) => {
            let e = AgentError::Upstream { status, body };
            Err(LlmError::Upstream { status: 502, body: e.message() })
        },
        Err(AgentError::ResponseExceeded { budget }) => {
            let mut m = text::own("response exceeded max_bytes=");
            text::push_digits(&mut m, budget as u64);
            Err(LlmError::BadRequest(m))
        },
        Err(AgentError::AgentFailed(m)) => Err(LlmError::Upstream { status: 502, body: m }),
    }
}

// ---- Laws ---------------------------------------------------------------

/// The operator's prompt comes first in what goes to the model, also when
/// locations are dropped, unless the prompt itself looks like one.
pub proof fn law_prompt_comes_first(
    cfg: LlmSettings,
    body: JsonView,
    model: Seq<char>,
    tools: Seq<JsonView>,
    prompt: Seq<char>,
)
    requires
        cfg.system_prompt == Some(prompt),
        text::trim(prompt).len() > 0,
        llm_prompt::messages_of(body) is Some,
        cfg.allow_user_location || !text::starts_with(
            text::trim(prompt),
            llm_prompt::USER_LOCATION_MARKER@,
        ),
    ensures
        match llm_prompt::messages_of(forwarded(cfg, body, model, tools)) {
            Some(ms) => ms.len() > 0 && ms[0] == llm_prompt::message(
                "system"@,
                text::trim(prompt),
            ),
            None => false,
        },
{
    lemma_other_names();
    let b1 = with_tools(body, model, tools);
    let ms = llm_prompt::messages_of(body)->0;
    assert(llm_prompt::messages_of(b1) == Some(ms));
    let p = llm_prompt::message("system"@, text::trim(prompt));
    let b2 = llm_prompt::prompted(b1, cfg.system_prompt);
    assert(llm_prompt::messages_of(b2) == Some(seq![p] + ms));
    if !cfg.allow_user_location {
        let keep = |m: JsonView| !llm_prompt::is_location(m);
        assert(p->Object_0["role"@] == JsonView::Str("system"@));
        assert(p->Object_0["content"@] == JsonView::Str(text::trim(prompt)));
        assert(keep(p));
        lemma_filter_keeps_first(seq![p] + ms, keep);
    }
}

/// A first element that passes a filter stays first.
proof fn lemma_filter_keeps_first(s: Seq<JsonView>, keep: spec_fn(JsonView) -> bool)
    requires
        s.len() > 0,
        keep(s[0]),
    ensures
        s.filter(keep).len() > 0,
        s.filter(keep)[0] == s[0],
    decreases s.len(),
{
    reveal(Seq::filter);
    if s.len() == 1 {
        assert(s.drop_last().filter(keep) == Seq::<JsonView>::empty());
    } else {
        lemma_filter_keeps_first(s.drop_last(), keep);
    }
}

/// The names of the members that the proxy touches differ.
proof fn lemma_other_names()
    ensures
        "messages"@ != "model"@,
        "messages"@ != "stream"@,
        "messages"@ != "tools"@,
        "tools"@ != "model"@,
        "tools"@ != "stream"@,
        "model"@ != "stream"@,
        "role"@ != "content"@,
{
    reveal_strlit("messages");
    reveal_strlit("model");
    reveal_strlit("stream");
    reveal_strlit("tools");
    reveal_strlit("role");
    reveal_strlit("content");
    assert("messages"@.len() == 8);
    assert("model"@.len() == 5 && "model"@[0] == 'm');
    assert("stream"@.len() == 6);
    assert("tools"@.len() == 5 && "tools"@[0] == 't');
    assert("role"@.len() == 4);
    assert("content"@.len() == 7);
}

/// When locations are not allowed, none reaches the model, and every other
/// message does, in its order.
pub proof fn law_no_location_is_forwarded(body: JsonView, ms: Seq<JsonView>)
    requires
        llm_prompt::messages_of(body) == Some(ms),
    ensures
        ({
            let kept = llm_prompt::messages_of(llm_prompt::without_location(body, false));
            &&& kept == Some(ms.filter(|m: JsonView| !llm_prompt::is_location(m)))
            &&& forall|i: int|
                0 <= i < kept->0.len() ==> !llm_prompt::is_location(#[trigger] kept->0[i])
            &&& forall|m: JsonView|
                ms.contains(m) && !llm_prompt::is_location(m) ==> kept->0.contains(m)
        }),
{
    let keep = |m: JsonView| !llm_prompt::is_location(m);
    lemma_filter(ms, keep);
}

/// What passes a filter is kept, and nothing else.
proof fn lemma_filter(s: Seq<JsonView>, keep: spec_fn(JsonView) -> bool)
    ensures
        forall|i: int| 0 <= i < s.filter(keep).len() ==> keep(#[trigger] s.filter(keep)[i]),
        forall|m: JsonView| s.contains(m) && keep(m) ==> #[trigger] s.filter(keep).contains(m),
    decreases s.len(),
{
    reveal(Seq::filter);
    if s.len() > 0 {
        let t = s.drop_last();
        lemma_filter(t, keep);
        assert forall|m: JsonView| s.contains(m) && keep(m) implies #[trigger] s.filter(
            keep,
        ).contains(m) by {
            let i = choose|i: int| 0 <= i < s.len() && s[i] == m;
            if i < s.len() - 1 {
                assert(t[i] == m);
                assert(t.contains(m));
                assert(t.filter(keep).contains(m));
                let j = choose|j: int| 0 <= j < t.filter(keep).len() && t.filter(keep)[j] == m;
                assert(s.filter(keep)[j] == m);
            } else {
                assert(s.filter(keep).last() == m);
            }
        }
    }
}

/// The server's tools come before the client's, and all of them are kept.
pub proof fn law_server_tools_come_first(
    cfg: LlmSettings,
    body: JsonView,
    model: Seq<char>,
    tools: Seq<JsonView>,
)
    requires
        body is Object,
        tools.len() > 0,
    ensures
        json::field(forwarded(cfg, body, model, tools), "tools"@) == Some(
            JsonView::Array(tools + client_tools(body)),
        ),
        json::field(forwarded(cfg, body, model, tools), "model"@) == Some(JsonView::Str(model)),
        json::field(forwarded(cfg, body, model, tools), "stream"@) == Some(JsonView::Bool(true)),
{
    lemma_other_names();
}

/// What reaches the model of a request without a location in it: the prompt first where
/// there is one, then every message in its order; the model and that the answer is
/// streamed; and every other member as the client sent it.
pub proof fn law_conversation_is_forwarded(
    cfg: LlmSettings,
    body: JsonView,
    model: Seq<char>,
    tools: Seq<JsonView>,
    ms: Seq<JsonView>,
)
    requires
        json::field(body, "messages"@) == Some(JsonView::Array(ms)),
        cfg.allow_user_location,
    ensures
        ({
            let f = forwarded(cfg, body, model, tools);
            let after = json::field(f, "messages"@);
            &&& cfg.system_prompt is None || text::trim(cfg.system_prompt->0).len() == 0
                ==> after == Some(JsonView::Array(ms))
            &&& cfg.system_prompt is Some && text::trim(cfg.system_prompt->0).len() > 0 ==> {
                &&& after is Some && after->0 is Array
                &&& after->0->Array_0.skip(1) == ms
                &&& json::field(after->0->Array_0[0], "role"@) == Some(JsonView::Str("system"@))
                &&& json::field(after->0->Array_0[0], "content"@) == Some(
                    JsonView::Str(text::trim(cfg.system_prompt->0)),
                )
            }
            &&& json::field(f, "model"@) == Some(JsonView::Str(model))
            &&& json::field(f, "stream"@) == Some(JsonView::Bool(true))
            &&& tools.len() == 0 ==> json::field(f, "tools"@) == json::field(body, "tools"@)
            &&& forall|name: Seq<char>|
                name != "messages"@ && name != "model"@ && name != "stream"@ && name != "tools"@
                    ==> #[trigger] json::field(f, name) == json::field(body, name)
        }),
{
    lemma_other_names();
    let b = with_tools(body, model, tools);
    assert(json::field(b, "messages"@) == Some(JsonView::Array(ms)));
    match cfg.system_prompt {
        Some(p) => {
            llm_prompt::law_prompt_is_put_first(b, ms, p);
        },
        None => {},
    }
    let f = forwarded(cfg, body, model, tools);
    assert forall|name: Seq<char>|
        name != "messages"@ && name != "model"@ && name != "stream"@ && name
            != "tools"@ implies #[trigger] json::field(f, name) == json::field(body, name) by {
        assert(json::field(b, name) == json::field(body, name));
    }
}

/// What a request asks for: its model where it names one, and a streamed answer. It is
/// taken exactly when it has messages, asks for a stream, and names its model by a text
/// if at all.
pub proof fn law_which_requests_are_taken(body: JsonView, m: Seq<char>)
    ensures
        body_error(body) is None <==> {
            &&& json::field(body, "messages"@) is Some && json::field(body, "messages"@)->0
                is Array
            &&& json::field(body, "stream"@) == Some(JsonView::Bool(true))
            &&& json::field(body, "model"@) is None || json::field(body, "model"@)->0 is Null
                || json::field(body, "model"@)->0 is Str
        },
        body_error(body) is None && json::field(body, "model"@) == Some(JsonView::Str(m))
            ==> request_of(body)->Ok_0.model == Some(m),
        body_error(body) is None && json::field(body, "model"@) is None ==> request_of(
            body,
        )->Ok_0.model is None,
        json::field(body, "messages"@) is None ==> body_error(body) == Some(
            "invalid json body: "@ + "missing field `messages`"@,
        ),
        request_of(body) is Ok && json::field(body, "stream"@) == Some(JsonView::Bool(false))
            ==> body_error(body) == Some(
            "stream must be true; this proxy only supports streaming responses"@,
        ),
        request_of(body) is Ok && json::field(body, "stream"@) is None ==> body_error(body) == Some(
            "missing `stream` field; this proxy only supports streaming responses"@,
        ),
{
}

/// A body that is no JSON is refused with the reader's words, and a complaint of the
/// caller comes first.
pub proof fn law_unreadable_body_is_refused(
    complaint: Option<String>,
    body: Result<JsonView, Seq<char>>,
)
    ensures
        complaint is Some ==> request_error(complaint, body) == Some(
            "invalid json body: "@ + complaint->0@,
        ),
        complaint is None && body is Err ==> request_error(complaint, body) == Some(
            "invalid json body: "@ + body->Err_0,
        ),
        complaint is None && body is Ok ==> request_error(complaint, body) == body_error(
            body->Ok_0,
        ),
{
}

/// Where a conversation goes and with what: to the completions of the configured server,
/// with its key, with the model that was asked for or the default one, and with the
/// client's own content type or that of JSON.
pub proof fn law_where_a_conversation_goes(
    cfg: LlmSettings,
    body: JsonView,
    tools: Seq<JsonView>,
    content_type: Option<Vec<u8>>,
    m: Seq<char>,
)
    requires
        body_error(body) is None,
    ensures
        ({
            let p = chat_plan(cfg, body, tools, content_type);
            &&& p.url == strip_slashes(cfg.base_url) + "/v1/chat/completions"@
            &&& content_type is Some ==> p.content_type == content_type->0@
            &&& content_type is None ==> p.content_type == text::utf8("application/json"@)
            &&& p.authorization == bearer(cfg.api_key)
            &&& json::field(body, "model"@) == Some(JsonView::Str(m)) ==> p.body == forwarded(
                cfg,
                body,
                m,
                tools,
            )
            &&& json::field(body, "model"@) is None ==> p.body == forwarded(
                cfg,
                body,
                cfg.default_model,
                tools,
            )
        }),
{
}

/// A key is sent as a bearer token where a header can hold it; without a key nothing is.
pub proof fn law_key_is_sent_as_bearer(k: Seq<char>)
    ensures
        bearer(None) is None,
        bearer(Some(k)) is Some <==> http::header_bytes(text::utf8("Bearer "@ + k)),
        bearer(Some(k)) is Some ==> bearer(Some(k))->0 == "Bearer "@ + k,
{
}

/// The end of a server's address loses its slashes, all of them and nothing else.
pub proof fn law_slashes_are_stripped(s: Seq<char>, route: Seq<char>)
    ensures
        strip_slashes(s).len() > 0 ==> strip_slashes(s).last() != '/',
        strip_slashes(s).len() <= s.len(),
        s.take(strip_slashes(s).len() as int) == strip_slashes(s),
        forall|i: int| strip_slashes(s).len() <= i < s.len() ==> #[trigger] s[i] == '/',
        route_url(s, route) == strip_slashes(s) + route,
    decreases s.len(),
{
    if s.len() > 0 && s[s.len() - 1] == '/' {
        let r = s.subrange(0, s.len() - 1);
        law_slashes_are_stripped(r, route);
        assert(s.take(strip_slashes(s).len() as int) =~= r.take(strip_slashes(r).len() as int));
        assert forall|i: int| strip_slashes(s).len() <= i < s.len() implies #[trigger] s[i]
            == '/' by {
            if i < s.len() - 1 {
                assert(s[i] == r[i]);
            }
        }
    } else {
        assert(s.take(s.len() as int) =~= s);
    }
}

/// How failures are answered: what is not there with 404, a bad request with 400 and its
/// words, and a refusal of the model's server with its status and words, which no cache
/// keeps.
pub proof fn law_how_failures_are_answered(e: LlmErrorView)
    ensures
        error_reply(e).body_type == BodyType::Text,
        e is Disabled ==> error_reply(e).status == 404 && error_reply(e).body == "llm disabled"@,
        e is AgentsDisabled ==> error_reply(e).status == 404 && error_reply(e).body
            == "agents disabled"@,
        e is AgentNotFound ==> error_reply(e).status == 404 && error_reply(e).body == "agent `"@
            + e->AgentNotFound_0 + "` not found"@,
        e is BadRequest ==> error_reply(e).status == 400 && error_reply(e).body
            == e->BadRequest_0,
        e is Upstream ==> {
            &&& error_reply(e).body == e->body
            &&& error_reply(e).caching == Caching::NoStore
            &&& 100 <= e->status <= 999 ==> error_reply(e).status == e->status
            &&& e->status < 100 || e->status > 999 ==> error_reply(e).status == 502
        },
        e is Disabled ==> error_text(e) == "chat proxy is disabled on this server"@,
        e is BadRequest ==> error_text(e) == "bad request: "@ + e->BadRequest_0,
        e is AgentsDisabled ==> error_text(e) == "agents disabled on this server"@,
        e is AgentNotFound ==> error_text(e) == "agent `"@ + e->AgentNotFound_0
            + "` not found"@,
        e is Upstream ==> error_text(e) == "upstream returned "@ + http::status_text(
            http::valid_status(e->status),
        ) + ": "@ + e->body,
{
}

/// How a direct call that fails is answered: what the caller did wrong with 400, what
/// the agent or its service did with 502, in its words.
pub proof fn law_how_failed_calls_are_answered(e: AgentError)
    ensures
        ({
            let r = error_reply(invoke_error(e));
            &&& e is InvalidArguments ==> r.status == 400 && r.body == e->InvalidArguments_0@
            &&& e is SandboxDenied ==> r.status == 400 && r.body == e->SandboxDenied_0@
            &&& e is ResponseExceeded ==> r.status == 400 && r.body
                == "response exceeded max_bytes="@ + text::digits(e->budget as nat)
            &&& e is AgentFailed ==> r.status == 502 && r.body == e->AgentFailed_0@
            &&& e is Upstream ==> r.status == 502 && r.body == "upstream returned "@
                + text::digits(e->status as nat) + ": "@ + e->body@
        }),
{
}

/// The list of models where the server cannot be reached names the default model.
pub proof fn law_fallback_names_the_default_model(model: Seq<char>)
    ensures
        ({
            let v = fallback_models(model);
            let d = json::field(v, "data"@);
            &&& json::field(v, "object"@) == Some(JsonView::Str("list"@))
            &&& d is Some && d->0 is Array && d->0->Array_0.len() == 1
            &&& json::field(d->0->Array_0[0], "id"@) == Some(JsonView::Str(model))
            &&& json::field(d->0->Array_0[0], "object"@) == Some(JsonView::Str("model"@))
        }),
{
    reveal_strlit("object");
    reveal_strlit("data");
    reveal_strlit("id");
    assert("object"@.len() == 6);
    assert("data"@.len() == 4);
    assert("id"@.len() == 2);
}

/// What the browser is told of the agents, and of a direct call: names, descriptions and
/// the result, as they are.
pub proof fn law_browser_is_told_of_agents(
    s: Seq<AgentView>,
    i: int,
    name: Seq<char>,
    result: Seq<char>,
)
    requires
        0 <= i < s.len(),
    ensures
        ({
            let d = json::field(agents_data(s), "data"@);
            &&& d is Some && d->0 is Array && d->0->Array_0.len() == s.len()
            &&& json::field(d->0->Array_0[i], "name"@) == Some(JsonView::Str(s[i].name))
            &&& json::field(d->0->Array_0[i], "description"@) == Some(
                JsonView::Str(s[i].description),
            )
            &&& json::field(invoke_data(name, result), "name"@) == Some(JsonView::Str(name))
            &&& json::field(invoke_data(name, result), "result"@) == Some(JsonView::Str(result))
            &&& json_reply(invoke_data(name, result)).status == 200
            &&& json_reply(invoke_data(name, result)).body == json::json_text(
                invoke_data(name, result),
            )
            &&& json_reply(invoke_data(name, result)).caching == Caching::NoStore
            &&& json_reply(invoke_data(name, result)).body_type == BodyType::JsonText
        }),
{
    reveal_strlit("name");
    reveal_strlit("description");
    reveal_strlit("result");
    reveal_strlit("data");
    assert("name"@.len() == 4);
    assert("description"@.len() == 11);
    assert("result"@.len() == 6);
    assert("data"@.len() == 4);
    assert("name"@[0] == 'n');
    assert("data"@[0] == 'd');
}

/// An agent is called directly with the arguments of the request, or with none.
pub proof fn law_arguments_are_handed_on(body: JsonView, a: JsonView)
    ensures
        json::field(body, "arguments"@) == Some(a) ==> call_arguments(body) == a,
        json::field(body, "arguments"@) is None ==> call_arguments(body) is Object
            && call_arguments(body)->Object_0.dom() =~= Set::<Seq<char>>::empty(),
{
}

/// What is said of a request whose entries are of the wrong form.
pub proof fn law_malformed_requests_say_why(body: JsonView)
    requires
        json::field(body, "messages"@) is Some && json::field(body, "messages"@)->0 is Array,
    ensures
        json::field(body, "stream"@) is Some && json::field(body, "stream"@)->0 is Str
            ==> body_error(body) == Some(
            "invalid json body: "@ + "`stream` is neither true nor false"@,
        ),
        json::field(body, "stream"@) == Some(JsonView::Bool(true)) && json::field(body, "model"@)
            is Some && json::field(body, "model"@)->0 is Bool ==> body_error(body) == Some(
            "invalid json body: "@ + "`model` is no text"@,
        ),
{
}

} // verus!
