//! The conversation loop between the chat model and the agents.
//!
//! Each round reads one answer of the model. Its text goes to the client as it
//! comes; the tool calls in it are collected piece by piece. When there are
//! any, the agents run, their results join the conversation and the model is
//! asked again, until it calls no tool or the rounds are used up.

use std::collections::BTreeMap;

use vstd::prelude::*;

use crate::http;
use crate::json;
use crate::json::{Json, JsonView, NumView};
use crate::llm_prompt;
use crate::sse;
use crate::sse::{SseEvent, SseFrame};
use crate::text;

verus! {

// ---- Tool calls ---------------------------------------------------------

/// A tool call as far as it has arrived.
#[derive(Debug, PartialEq, Eq)]
pub struct PendingToolCall {
    pub id: String,
    pub name: Option<String>,
    pub arguments: String,
}

/// A tool call, as values.
pub struct CallView {
    pub id: Seq<char>,
    pub name: Option<Seq<char>>,
    pub arguments: Seq<char>,
}

impl View for PendingToolCall {
    type V = CallView;

    open spec fn view(&self) -> CallView {
        CallView { id: self.id@, name: text::opt_text(self.name), arguments: self.arguments@ }
    }
}

/// The views of a list of calls.
pub open spec fn calls_view(s: Seq<PendingToolCall>) -> Seq<CallView> {
    s.map_values(|c: PendingToolCall| c@)
}

/// A call of which nothing has arrived.
pub open spec fn no_call() -> CallView {
    CallView { id: Seq::empty(), name: None, arguments: Seq::empty() }
}

/// The place of a call among those of its round: the low 32 bits of `index`,
/// zero when there is none.
pub open spec fn call_index(tc: JsonView) -> u32 {
    match json::int_of(json::field(tc, "index"@), 0, u64::MAX as int) {
        Some(i) => (i % 0x1_0000_0000) as u32,
        None => 0,
    }
}

/// A call with what one piece adds: a new id, a new name, more arguments.
pub open spec fn extended(c: CallView, tc: JsonView) -> CallView {
    let id = match json::str_of(json::field(tc, "id"@)) {
        Some(id) => id,
        None => c.id,
    };
    match json::field(tc, "function"@) {
        Some(f) => CallView {
            id,
            name: match json::str_of(json::field(f, "name"@)) {
                Some(n) => Some(n),
                None => c.name,
            },
            arguments: match json::str_of(json::field(f, "arguments"@)) {
                Some(a) => c.arguments + a,
                None => c.arguments,
            },
        },
        None => CallView { id, ..c },
    }
}

/// The calls with one piece added.
pub open spec fn add_piece(m: Map<u32, CallView>, tc: JsonView) -> Map<u32, CallView> {
    let i = call_index(tc);
    let before = if m.dom().contains(i) {
        m[i]
    } else {
        no_call()
    };
    m.insert(i, extended(before, tc))
}

/// The calls with pieces added one after the other.
pub open spec fn add_pieces(m: Map<u32, CallView>, tcs: Seq<JsonView>) -> Map<u32, CallView>
    decreases tcs.len(),
{
    if tcs.len() == 0 {
        m
    } else {
        add_piece(add_pieces(m, tcs.drop_last()), tcs.last())
    }
}

/// The calls with the `tool_calls` of one message added; a value that is no
/// list adds nothing.
pub open spec fn add_delta(m: Map<u32, CallView>, raw: JsonView) -> Map<u32, CallView> {
    match raw {
        JsonView::Array(a) => add_pieces(m, a),
        _ => m,
    }
}

/// The calls whose place is below `n`, by rising place.
pub open spec fn ordered(m: Map<u32, CallView>, n: nat) -> Seq<CallView>
    decreases n,
{
    if n == 0 {
        Seq::empty()
    } else {
        let before = ordered(m, (n - 1) as nat);
        let k = (n - 1) as u32;
        if m.dom().contains(k) {
            before.push(m[k])
        } else {
            before
        }
    }
}

/// All calls by rising place.
pub open spec fn in_order(m: Map<u32, CallView>) -> Seq<CallView> {
    ordered(m, 0x1_0000_0000)
}

/// The tool calls of one round, collected by place.
#[derive(Debug)]
pub struct ToolCallAccumulator {
    by_index: BTreeMap<u32, PendingToolCall>,
}

/// Places in the order of the map rise.
proof fn lemma_rising(s: Seq<&u32>)
    requires
        vstd::std_specs::btree::increasing_seq(s),
    ensures
        forall|a: int, b: int| 0 <= a < b < s.len() ==> *s[a] < *s[b],
{
    assert(vstd::laws_cmp::obeys_cmp::<u32>());
    assert(vstd::laws_cmp::obeys_cmp::<&u32>());
    assert forall|a: int, b: int| 0 <= a < b < s.len() implies *s[a] < *s[b] by {
        assert(vstd::std_specs::cmp::OrdSpec::cmp_spec(&s[a], &s[b]) is Less);
    }
}

/// With rising places, the calls below `n` stand at those of the places.
proof fn lemma_ordered(m: Map<u32, CallView>, places: Seq<u32>, n: nat, j: int)
    requires
        forall|a: int, b: int| 0 <= a < b < places.len() ==> places[a] < places[b],
        places.to_set() == m.dom(),
        0 <= j <= places.len(),
        n <= 0x1_0000_0000,
        forall|i: int| 0 <= i < j ==> places[i] < n,
        forall|i: int| j <= i < places.len() ==> places[i] >= n,
    ensures
        ordered(m, n) == places.take(j).map_values(|k: u32| m[k]),
    decreases n,
{
    let f = |k: u32| m[k];
    if n == 0 {
        if j > 0 {
            assert(places[0] < 0);
        }
        assert(places.take(0).map_values(f) == Seq::<CallView>::empty());
    } else {
        let k = (n - 1) as u32;
        if j > 0 && places[j - 1] == k {
            lemma_ordered(m, places, (n - 1) as nat, j - 1);
            assert(places.to_set().contains(k));
            assert(places.take(j).map_values(f) == places.take(j - 1).map_values(f).push(m[k]));
        } else {
            assert forall|i: int| 0 <= i < places.len() implies places[i] != k by {
                if i < j - 1 {
                    assert(places[i] < places[j - 1]);
                }
            }
            assert(!places.to_set().contains(k));
            lemma_ordered(m, places, (n - 1) as nat, j);
        }
    }
}

impl View for ToolCallAccumulator {
    type V = Map<u32, CallView>;

    closed spec fn view(&self) -> Map<u32, CallView> {
        self.by_index@.map_values(|c: PendingToolCall| c@)
    }
}

/// Take the text that a piece may carry.
fn owned_text(v: Option<&Json>) -> (r: Option<String>)
    ensures
        text::opt_text(r) == json::str_of(json::opt_view(v)),
{
    match v {
        Some(j) => match j.as_str() {
            Some(s) => Some(text::own(s)),
            None => None,
        },
        None => None,
    }
}

/// A call with what one piece adds.
fn extend_call(c: PendingToolCall, tc: &Json) -> (r: PendingToolCall)
    ensures
        r@ == extended(c@, tc@),
{
    let mut c = c;
    match owned_text(tc.get("id")) {
        Some(id) => {
            c.id = id;
        },
        None => {},
    }
    match tc.get("function") {
        Some(f) => {
            match owned_text(f.get("name")) {
                Some(n) => {
                    c.name = Some(n);
                },
                None => {},
            }
            match owned_text(f.get("arguments")) {
                Some(a) => {
                    c.arguments.append(a.as_str());
                },
                None => {},
            }
        },
        None => {},
    }
    c
}

impl ToolCallAccumulator {
    /// No call has arrived.
    pub fn new() -> (r: Self)
        ensures
            r@ == Map::<u32, CallView>::empty(),
    {
        let r = ToolCallAccumulator { by_index: BTreeMap::new() };
        assert(r@ == Map::<u32, CallView>::empty());
        r
    }

    /// One piece of a call has arrived.
    fn apply_piece(&mut self, tc: &Json)
        ensures
            final(self)@ == add_piece(old(self)@, tc@),
    {
        let place: u32 = match tc.get("index") {
            Some(j) => match j.as_u64() {
                Some(u) => (u % 0x1_0000_0000) as u32,
                None => 0,
            },
            None => 0,
        };
        assert(place == call_index(tc@));
        let call = match self.by_index.remove(&place) {
            Some(c) => c,
            None => PendingToolCall { id: String::new(), name: None, arguments: String::new() },
        };
        let call = extend_call(call, tc);
        self.by_index.insert(place, call);
        assert(self@ == add_piece(old(self)@, tc@));
    }

    /// The `tool_calls` of one message have arrived.
    pub fn apply_delta(&mut self, raw: &Json)
        ensures
            final(self)@ == add_delta(old(self)@, raw@),
    {
        match raw.as_array() {
            Some(arr) => {
                let ghost items = json::items_view(arr@, arr@.len());
                proof {
                    json::lemma_items(arr@, arr@.len());
                }
                let mut i: usize = 0;
                while i < arr.len()
                    invariant
                        i <= arr.len(),
                        items.len() == arr@.len(),
                        forall|k: int| 0 <= k < arr@.len() ==> items[k] == (#[trigger] arr@[k])@,
                        self@ == add_pieces(old(self)@, items.take(i as int)),
                    decreases arr.len() - i,
                {
                    self.apply_piece(&arr[i]);
                    proof {
                        assert(items.take(i + 1).drop_last() == items.take(i as int));
                    }
                    i += 1;
                }
                assert(items.take(i as int) == items);
            },
            None => {},
        }
    }

    /// The calls by rising place.
    pub fn into_sorted(self) -> (r: Vec<PendingToolCall>)
        ensures
            calls_view(r@) == in_order(self@),
    {
        let mut places: Vec<u32> = Vec::new();
        let keys = self.by_index.keys();
        let ghost rising = vstd::std_specs::iter::IteratorSpec::remaining(&keys);
        for k in it: keys
            invariant
                it.seq() == rising,
                places@ == rising.unref().take(it.index()),
        {
            places.push(*k);
        }
        let ghost m = self.by_index@;
        proof {
            assert(places@ == rising.unref());
            assert(rising.unref().to_set() == m.dom());
            assert(self@.dom() == m.dom());
            lemma_rising(rising);
            lemma_ordered(self@, places@, 0x1_0000_0000, places@.len() as int);
        }
        let mut rest = self.by_index;
        let mut out: Vec<PendingToolCall> = Vec::new();
        let mut i: usize = 0;
        while i < places.len()
            invariant
                i <= places.len(),
                out@.len() == i,
                forall|a: int, b: int| 0 <= a < b < places@.len() ==> places@[a] < places@[b],
                forall|k: int|
                    i <= k < places@.len() ==> rest@.dom().contains(#[trigger] places@[k])
                        && rest@[places@[k]] == m[places@[k]],
                forall|k: int| 0 <= k < i ==> #[trigger] out@[k] == m[places@[k]],
            decreases places.len() - i,
        {
            match rest.remove(&places[i]) {
                Some(c) => {
                    out.push(c);
                },
                None => {},
            }
            i += 1;
        }
        assert(places@.take(places@.len() as int) == places@);
        assert(calls_view(out@) == places@.map_values(|k: u32| self@[k]));
        out
    }
}

/// The names of the calls, with a stand-in for a name that never arrived.
pub open spec fn call_names(s: Seq<CallView>) -> Seq<Seq<char>> {
    s.map_values(
        |c: CallView|
            match c.name {
                Some(n) => n,
                None => "<unknown>"@,
            },
    )
}

/// The names of the calls for a log line.
pub fn tool_call_names(calls: &[PendingToolCall]) -> (r: String)
    ensures
        r@ == text::join(call_names(calls@.map_values(|c: PendingToolCall| c@)), ", "@),
{
    let mut names: Vec<String> = Vec::new();
    let mut i: usize = 0;
    while i < calls.len()
        invariant
            i <= calls.len(),
            names@.len() == i,
            text::texts(names@) == call_names(calls@.map_values(|c: PendingToolCall| c@)).take(
                i as int,
            ),
        decreases calls.len() - i,
    {
        let n = match &calls[i].name {
            Some(n) => n.clone(),
            None => text::own("<unknown>"),
        };
        let ghost before = text::texts(names@);
        names.push(n);
        assert(text::texts(names@) == before.push(n@));
        i += 1;
    }
    assert(call_names(calls@.map_values(|c: PendingToolCall| c@)).take(i as int) == call_names(
        calls@.map_values(|c: PendingToolCall| c@),
    ));
    text::joined(&names, ", ")
}

// ---- What the client is sent --------------------------------------------

/// The frame that ends a response.
pub open spec fn done_frame() -> Seq<char> {
    "data: [DONE]\n\n"@
}

/// The frame of an event called `name` with JSON data.
pub open spec fn json_frame(name: Seq<char>, data: JsonView) -> Seq<char> {
    "event: "@ + name + "\ndata: "@ + json::json_text(data) + "\n\n"@
}

/// The JSON value that a text holds; null when it holds none.
pub open spec fn parsed_or_null(s: Seq<char>) -> JsonView {
    match json::json_parse(s) {
        Ok(v) => v,
        Err(_) => JsonView::Null,
    }
}

/// The first `n` characters.
pub open spec fn first_chars(s: Seq<char>, n: int) -> Seq<char> {
    if s.len() <= n {
        s
    } else {
        s.take(n)
    }
}

/// The data of the event that announces a call.
pub open spec fn call_data(c: CallView, name: Seq<char>, args: JsonView, round: int) -> JsonView {
    JsonView::Object(
        map![
            "id"@ => JsonView::Str(c.id),
            "name"@ => JsonView::Str(name),
            "args"@ => args,
            "arguments_raw"@ => JsonView::Str(c.arguments),
            "index"@ => JsonView::Num(NumView::Int(round)),
        ],
    )
}

/// What a result is summed up to: the `summary` in a good result that is JSON,
/// else its beginning.
pub open spec fn summary_of(
    ok: bool,
    payload: Seq<char>,
    parsed: Result<JsonView, Seq<char>>,
) -> Seq<char> {
    if ok {
        match parsed {
            Ok(v) => match json::str_of(json::field(v, "summary"@)) {
                Some(t) => t,
                None => first_chars(payload, 80),
            },
            Err(_) => first_chars(payload, 80),
        }
    } else {
        first_chars(payload, 160)
    }
}

/// The data of the event that reports a call's result.
pub open spec fn result_data(
    id: Seq<char>,
    name: Seq<char>,
    ok: bool,
    summary: Seq<char>,
    payload: Seq<char>,
) -> JsonView {
    JsonView::Object(
        map![
            "id"@ => JsonView::Str(id),
            "name"@ => JsonView::Str(name),
            "ok"@ => JsonView::Bool(ok),
            "summary"@ => JsonView::Str(summary),
            "content"@ => JsonView::Str(payload),
        ],
    )
}

/// The data of the event that reports a failure.
pub open spec fn error_data(reason: Seq<char>, detail: Seq<char>) -> JsonView {
    JsonView::Object(
        map!["error"@ => JsonView::Str(reason), "detail"@ => JsonView::Str(detail)],
    )
}

/// The frame that announces a call.
pub open spec fn call_frame(c: CallView, name: Seq<char>, round: int) -> Seq<char> {
    json_frame("tool_call"@, call_data(c, name, parsed_or_null(c.arguments), round))
}

/// The frame that reports a call's result.
pub open spec fn result_frame(
    id: Seq<char>,
    name: Seq<char>,
    ok: bool,
    payload: Seq<char>,
) -> Seq<char> {
    json_frame(
        "tool_result"@,
        result_data(id, name, ok, summary_of(ok, payload, json::json_parse(payload)), payload),
    )
}

/// The frame that reports a failure.
pub open spec fn error_frame(reason: Seq<char>, detail: Seq<char>) -> Seq<char> {
    json_frame("error"@, error_data(reason, detail))
}

/// The frame of an event called `name` with JSON data.
fn make_frame(name: &str, data: &Json) -> (r: String)
    ensures
        r@ == json_frame(name@, data@),
{
    let body = json::render(data);
    let mut r = text::own("event: ");
    r.append(name);
    r.append("\ndata: ");
    r.append(body.as_str());
    r.append("\n\n");
    r
}

/// The first `n` characters.
fn take_chars(s: &str, n: usize) -> (r: String)
    ensures
        r@ == first_chars(s@, n as int),
{
    let v = text::chars_of(s);
    if v.len() <= n {
        text::own(s)
    } else {
        text::string_of(v.as_slice(), 0, n)
    }
}

/// The data of the event that announces a call whose arguments hold `args`.
pub fn tool_call_data(c: &PendingToolCall, name: &str, args: Json, round: u32) -> (r: Json)
    ensures
        r@ == call_data(c@, name@, args@, round as int),
{
    let mut data = Json::object();
    data.set("id", Json::text(c.id.as_str()));
    data.set("name", Json::text(name));
    data.set("args", args);
    data.set("arguments_raw", Json::text(c.arguments.as_str()));
    data.set("index", Json::uint(round as u64));
    data
}

/// The value of a call's arguments; null when they are no JSON.
pub fn arguments_value(c: &PendingToolCall) -> (r: Json)
    ensures
        r@ == parsed_or_null(c.arguments@),
{
    match json::parse(c.arguments.as_str()) {
        Ok(v) => v,
        Err(_) => Json::Null,
    }
}

/// The frame that announces a call.
pub fn sse_tool_call_event(c: &PendingToolCall, name: &str, round: u32) -> (r: String)
    ensures
        r@ == call_frame(c@, name@, round as int),
{
    let args = arguments_value(c);
    let data = tool_call_data(c, name, args, round);
    make_frame("tool_call", &data)
}

/// What a result is summed up to, given what reading it as JSON gave.
pub fn result_summary(ok: bool, payload: &str, parsed: &Result<Json, String>) -> (r: String)
    ensures
        r@ == summary_of(
            ok,
            payload@,
            match *parsed {
                Ok(v) => Ok(v@),
                Err(e) => Err(e@),
            },
        ),
{
    if !ok {
        return take_chars(payload, 160);
    }
    match parsed {
        Ok(v) => match owned_text(v.get("summary")) {
            Some(t) => t,
            None => take_chars(payload, 80),
        },
        Err(_) => take_chars(payload, 80),
    }
}

/// The frame that reports a call's result. An agent that gives a plain object
/// with a summary has that summary shown.
pub fn sse_tool_result_event(id: &str, name: &str, ok: bool, payload: &str) -> (r: String)
    ensures
        r@ == result_frame(id@, name@, ok, payload@),
        forall|v: JsonView|
            ok && json::plain(v) && payload@ == #[trigger] json::json_text(v) && json::str_of(
                json::field(v, "summary"@),
            ) is Some ==> r@ == json_frame(
                "tool_result"@,
                result_data(
                    id@,
                    name@,
                    ok,
                    json::str_of(json::field(v, "summary"@))->0,
                    payload@,
                ),
            ),
{
    let parsed = json::parse(payload);
    let summary = result_summary(ok, payload, &parsed);
    let mut data = Json::object();
    data.set("id", Json::text(id));
    data.set("name", Json::text(name));
    data.set("ok", Json::Bool(ok));
    data.set("summary", Json::text(summary.as_str()));
    data.set("content", Json::text(payload));
    make_frame("tool_result", &data)
}

/// The frame that reports a failure.
pub fn sse_error_event(reason: &str, detail: &str) -> (r: String)
    ensures
        r@ == error_frame(reason@, detail@),
{
    let mut data = Json::object();
    data.set("error", Json::text(reason));
    data.set("detail", Json::text(detail));
    make_frame("error", &data)
}

// ---- One round ----------------------------------------------------------

/// What a round has given so far.
pub struct RoundView {
    /// The assistant's text.
    pub text: Seq<char>,
    /// The tool calls by place.
    pub calls: Map<u32, CallView>,
}

/// What one choice of a message adds.
pub open spec fn add_choice(r: RoundView, choice: JsonView) -> RoundView {
    match json::field(choice, "delta"@) {
        Some(delta) => RoundView {
            text: match json::str_of(json::field(delta, "content"@)) {
                Some(t) => r.text + t,
                None => r.text,
            },
            calls: match json::field(delta, "tool_calls"@) {
                Some(tcs) => add_delta(r.calls, tcs),
                None => r.calls,
            },
        },
        None => r,
    }
}

/// What choices add one after the other.
pub open spec fn add_choices(r: RoundView, choices: Seq<JsonView>) -> RoundView
    decreases choices.len(),
{
    if choices.len() == 0 {
        r
    } else {
        add_choice(add_choices(r, choices.drop_last()), choices.last())
    }
}

/// What a message adds: its choices, when it has a list of them.
pub open spec fn add_message(r: RoundView, m: JsonView) -> RoundView {
    match json::items_of(json::field(m, "choices"@)) {
        Some(choices) => add_choices(r, choices),
        None => r,
    }
}

/// Whether an event is the sentinel that ends a stream.
pub open spec fn is_done(data: Seq<char>) -> bool {
    text::trim(data) == "[DONE]"@
}

/// What a round has given so far.
#[derive(Debug)]
pub struct RoundOutcome {
    assistant_text: String,
    acc: ToolCallAccumulator,
}

impl View for RoundOutcome {
    type V = RoundView;

    closed spec fn view(&self) -> RoundView {
        RoundView { text: self.assistant_text@, calls: self.acc@ }
    }
}

/// What is to be done with an event of the model's stream.
#[derive(Debug, PartialEq, Eq)]
pub enum Forward {
    /// The stream is over; nothing is handed on.
    Finished,
    /// Hand these bytes on, then take the event in.
    Send(Vec<u8>),
}

/// Decide what is to be done with an event: its bytes are handed on as they came.
/// The model's own end sentinel is kept back: the client would hang up on it.
pub fn forward_event(f: &SseFrame) -> (r: Forward)
    ensures
        match r {
            Forward::Finished => is_done(f@.event.data),
            Forward::Send(bytes) => !is_done(f@.event.data) && bytes@ == f@.raw,
        },
{
    let t = text::trimmed(f.event.data.as_str());
    if text::same(t.as_str(), "[DONE]") {
        return Forward::Finished;
    }
    Forward::Send(sse::bytes_between(&f.raw, 0, f.raw.len()))
}

impl RoundOutcome {
    /// Nothing has been read.
    pub fn new() -> (r: Self)
        ensures
            r@ == (RoundView { text: Seq::empty(), calls: Map::empty() }),
    {
        RoundOutcome { assistant_text: String::new(), acc: ToolCallAccumulator::new() }
    }

    /// Take in what one choice adds.
    fn absorb_choice(&mut self, choice: &Json)
        ensures
            final(self)@ == add_choice(old(self)@, choice@),
    {
        match choice.get("delta") {
            Some(delta) => {
                match owned_text(delta.get("content")) {
                    Some(t) => {
                        self.assistant_text.append(t.as_str());
                    },
                    None => {},
                }
                match delta.get("tool_calls") {
                    Some(tcs) => {
                        self.acc.apply_delta(tcs);
                    },
                    None => {},
                }
            },
            None => {},
        }
    }

    /// Take in a message of the model.
    pub fn absorb_message(&mut self, m: &Json)
        ensures
            final(self)@ == add_message(old(self)@, m@),
    {
        let choices: &Vec<Json> = match m.get("choices") {
            Some(c) => match c.as_array() {
                Some(a) => a,
                None => {
                    return ;
                },
            },
            None => {
                return ;
            },
        };
        let ghost items = json::items_view(choices@, choices@.len());
        proof {
            json::lemma_items(choices@, choices@.len());
        }
        let mut i: usize = 0;
        while i < choices.len()
            invariant
                i <= choices.len(),
                items.len() == choices@.len(),
                forall|k: int| 0 <= k < choices@.len() ==> items[k] == (#[trigger] choices@[k])@,
                self@ == add_choices(old(self)@, items.take(i as int)),
            decreases choices.len() - i,
        {
            self.absorb_choice(&choices[i]);
            proof {
                assert(items.take(i + 1).drop_last() == items.take(i as int));
            }
            i += 1;
        }
        assert(items.take(i as int) == items);
    }

    /// Take in an event; data that is no JSON adds nothing.
    pub fn absorb(&mut self, ev: &SseEvent)
        ensures
            final(self)@ == match json::json_parse(ev@.data) {
                Ok(m) => add_message(old(self)@, m),
                Err(_) => old(self)@,
            },
    {
        match json::parse(ev.data.as_str()) {
            Ok(m) => {
                self.absorb_message(&m);
            },
            Err(_) => {},
        }
    }

    /// The assistant's text and the calls by rising place.
    pub fn into_parts(self) -> (r: (String, Vec<PendingToolCall>))
        ensures
            r.0@ == self@.text,
            calls_view(r.1@) == in_order(self@.calls),
    {
        (self.assistant_text, self.acc.into_sorted())
    }
}

// ---- The loop -----------------------------------------------------------

/// What the loop knows between two steps.
pub struct LoopView {
    /// The request body, with the conversation so far.
    pub body: JsonView,
    /// The current round, from one.
    pub round: int,
    /// How many rounds there may be.
    pub max: int,
    /// The names of the agents.
    pub names: Seq<Seq<char>>,
    /// The calls of the current round.
    pub calls: Seq<CallView>,
    /// The call that runs.
    pub at: int,
}

/// What has happened outside.
pub enum HappenedView {
    /// The loop begins; the first answer is already open.
    Begin,
    /// The model's answer has been read to its end.
    Drained { text: Seq<char>, calls: Seq<CallView> },
    /// Reading the answer failed.
    ReadFailed(Seq<char>),
    /// The next answer is open.
    Connected,
    /// No connection to the model.
    ConnectFailed(Seq<char>),
    /// The model's server refused.
    Refused { status: u16, body: Seq<char> },
    /// The agent has run.
    Invoked(Result<Seq<char>, Seq<char>>),
}

/// What goes to the client.
pub enum OutView {
    /// These bytes.
    Frame(Seq<char>),
    /// The response breaks off with this error.
    Fail(Seq<char>),
}

/// What is to be done next outside.
pub enum NextView {
    /// Read the open answer.
    Drain,
    /// Ask the model with this body.
    Open(Seq<char>),
    /// Run this agent.
    Invoke { name: Seq<char>, args: JsonView },
    /// The response is complete.
    Stop,
}

/// A step's result.
pub struct StepView {
    pub state: LoopView,
    pub out: Seq<OutView>,
    pub next: NextView,
}

/// A call as the conversation keeps it.
pub open spec fn call_entry(c: CallView) -> JsonView {
    JsonView::Object(
        map![
            "id"@ => JsonView::Str(c.id),
            "type"@ => JsonView::Str("function"@),
            "function"@ => JsonView::Object(map![
                "name"@ => match c.name {
                    Some(n) => JsonView::Str(n),
                    None => JsonView::Null,
                },
                "arguments"@ => JsonView::Str(c.arguments),
            ]),
        ],
    )
}

/// The assistant's turn as the conversation keeps it.
pub open spec fn assistant_turn(t: Seq<char>, calls: Seq<CallView>) -> JsonView {
    JsonView::Object(
        map![
            "role"@ => JsonView::Str("assistant"@),
            "content"@ => JsonView::Str(t),
            "tool_calls"@ => JsonView::Array(calls.map_values(|c: CallView| call_entry(c))),
        ],
    )
}

/// The result of a call as the conversation keeps it.
pub open spec fn tool_turn(id: Seq<char>, payload: Seq<char>) -> JsonView {
    JsonView::Object(
        map![
            "role"@ => JsonView::Str("tool"@),
            "tool_call_id"@ => JsonView::Str(id),
            "content"@ => JsonView::Str(payload),
        ],
    )
}

/// What the model is told of a failure.
pub open spec fn failure(e: Seq<char>) -> Seq<char> {
    "[error] "@ + e
}

/// The running call has given `payload`.
pub open spec fn call_done(st: LoopView, payload: Seq<char>) -> LoopView {
    LoopView {
        body: json::pushed(st.body, "messages"@, tool_turn(st.calls[st.at].id, payload)),
        at: st.at + 1,
        ..st
    }
}

/// The next round begins, unless the rounds are used up. The first round's
/// answer is open already; for the others the model is asked.
pub open spec fn next_round(st: LoopView) -> StepView {
    if st.round >= st.max {
        StepView {
            state: st,
            out: seq![
                OutView::Frame(
                    error_frame(
                        "agent loop exceeded"@,
                        "max tool rounds ("@ + text::digits(st.max as nat) + ") reached"@,
                    ),
                ),
                OutView::Frame(done_frame()),
            ],
            next: NextView::Stop,
        }
    } else {
        StepView {
            state: LoopView { round: st.round + 1, ..st },
            out: Seq::empty(),
            next: if st.round == 0 {
                NextView::Drain
            } else {
                NextView::Open(json::json_text(st.body))
            },
        }
    }
}

/// What is sent comes before what `s` sends.
pub open spec fn after_sending(out: Seq<OutView>, s: StepView) -> StepView {
    StepView { out: out + s.out, ..s }
}

/// The calls from the current one on, up to the first that an agent has to
/// run. A call without a name, or of an agent that is not there, is answered
/// with an error at once.
pub open spec fn run_calls(st: LoopView) -> StepView
    decreases st.calls.len() - st.at,
{
    if st.at >= st.calls.len() {
        next_round(st)
    } else {
        let c = st.calls[st.at];
        match c.name {
            None => {
                let payload = failure("tool call arrived without a function name"@);
                after_sending(
                    seq![OutView::Frame(result_frame(c.id, "<unknown>"@, false, payload))],
                    run_calls(call_done(st, payload)),
                )
            },
            Some(n) => if st.names.contains(n) {
                StepView {
                    state: st,
                    out: seq![OutView::Frame(call_frame(c, n, st.round))],
                    next: NextView::Invoke { name: n, args: parsed_or_null(c.arguments) },
                }
            } else {
                let payload = failure("unknown agent: `"@ + n + "`"@);
                after_sending(
                    seq![
                        OutView::Frame(call_frame(c, n, st.round)),
                        OutView::Frame(result_frame(c.id, n, false, payload)),
                    ],
                    run_calls(call_done(st, payload)),
                )
            },
        }
    }
}

/// Whether an agent is running.
pub open spec fn running(st: LoopView) -> bool {
    0 <= st.at < st.calls.len() && st.calls[st.at].name is Some
}

/// What the loop does when something has happened.
pub open spec fn step_of(st: LoopView, ev: HappenedView) -> StepView {
    match ev {
        HappenedView::Begin => next_round(st),
        HappenedView::Drained { text: t, calls } => if calls.len() == 0 {
            StepView {
                state: st,
                out: seq![OutView::Frame(done_frame())],
                next: NextView::Stop,
            }
        } else if llm_prompt::messages_of(st.body) is None {
            StepView {
                state: st,
                out: seq![OutView::Fail("internal: body has no messages array"@)],
                next: NextView::Stop,
            }
        } else {
            run_calls(
                LoopView {
                    body: json::pushed(st.body, "messages"@, assistant_turn(t, calls)),
                    calls,
                    at: 0,
                    ..st
                },
            )
        },
        HappenedView::ReadFailed(e) => StepView {
            state: st,
            out: seq![OutView::Fail("upstream read failed: "@ + e)],
            next: NextView::Stop,
        },
        HappenedView::Connected => StepView {
            state: st,
            out: Seq::empty(),
            next: NextView::Drain,
        },
        HappenedView::ConnectFailed(e) => StepView {
            state: st,
            out: seq![OutView::Fail("upstream connect failed: "@ + e)],
            next: NextView::Stop,
        },
        HappenedView::Refused { status, body } => StepView {
            state: st,
            out: seq![
                OutView::Frame(
                    error_frame(
                        "upstream error"@,
                        "status "@ + http::status_text(http::valid_status(status)) + ": "@ + body,
                    ),
                ),
                OutView::Frame(done_frame()),
            ],
            next: NextView::Stop,
        },
        HappenedView::Invoked(r) => {
            let c = st.calls[st.at];
            let ok = r is Ok;
            let payload = match r {
                Ok(t) => t,
                Err(e) => failure(e),
            };
            after_sending(
                seq![OutView::Frame(result_frame(c.id, c.name->0, ok, payload))],
                run_calls(call_done(st, payload)),
            )
        },
    }
}

/// What has happened outside.
#[derive(Debug)]
pub enum Happened {
    Begin,
    Drained { text: String, calls: Vec<PendingToolCall> },
    ReadFailed(String),
    Connected,
    ConnectFailed(String),
    Refused { status: u16, body: String },
    Invoked(Result<String, String>),
}

impl View for Happened {
    type V = HappenedView;

    open spec fn view(&self) -> HappenedView {
        match *self {
            Happened::Begin => HappenedView::Begin,
            Happened::Drained { text: t, calls } => HappenedView::Drained {
                text: t@,
                calls: calls_view(calls@),
            },
            Happened::ReadFailed(e) => HappenedView::ReadFailed(e@),
            Happened::Connected => HappenedView::Connected,
            Happened::ConnectFailed(e) => HappenedView::ConnectFailed(e@),
            Happened::Refused { status, body } => HappenedView::Refused { status, body: body@ },
            Happened::Invoked(r) => HappenedView::Invoked(
                match r {
                    Ok(t) => Ok(t@),
                    Err(e) => Err(e@),
                },
            ),
        }
    }
}

/// What goes to the client.
#[derive(Debug, PartialEq, Eq)]
pub enum Out {
    Frame(String),
    Fail(String),
}

impl View for Out {
    type V = OutView;

    open spec fn view(&self) -> OutView {
        match *self {
            Out::Frame(t) => OutView::Frame(t@),
            Out::Fail(t) => OutView::Fail(t@),
        }
    }
}

/// What is to be done next outside.
#[derive(Debug)]
pub enum Next {
    Drain,
    Open(String),
    Invoke { name: String, args: Json },
    Stop,
}

impl View for Next {
    type V = NextView;

    open spec fn view(&self) -> NextView {
        match *self {
            Next::Drain => NextView::Drain,
            Next::Open(t) => NextView::Open(t@),
            Next::Invoke { name, args } => NextView::Invoke { name: name@, args: args@ },
            Next::Stop => NextView::Stop,
        }
    }
}

/// The views of what goes to the client.
pub open spec fn outs_view(s: Seq<Out>) -> Seq<OutView> {
    s.map_values(|o: Out| o@)
}

/// The conversation loop.
#[derive(Debug)]
pub struct ToolLoop {
    body: Json,
    round: u32,
    max: u32,
    names: Vec<String>,
    calls: Vec<PendingToolCall>,
    at: usize,
}

impl View for ToolLoop {
    type V = LoopView;

    closed spec fn view(&self) -> LoopView {
        LoopView {
            body: self.body@,
            round: self.round as int,
            max: self.max as int,
            names: text::texts(self.names@),
            calls: calls_view(self.calls@),
            at: self.at as int,
        }
    }
}

/// A call as the conversation keeps it.
fn make_call_entry(c: &PendingToolCall) -> (r: Json)
    ensures
        r@ == call_entry(c@),
{
    let mut function = Json::object();
    match &c.name {
        Some(n) => {
            function.set("name", Json::text(n.as_str()));
        },
        None => {
            function.set("name", Json::Null);
        },
    }
    function.set("arguments", Json::text(c.arguments.as_str()));
    let mut e = Json::object();
    e.set("id", Json::text(c.id.as_str()));
    e.set("type", Json::text("function"));
    e.set("function", function);
    e
}

/// The assistant's turn as the conversation keeps it.
fn make_assistant_turn(t: &str, calls: &Vec<PendingToolCall>) -> (r: Json)
    ensures
        r@ == assistant_turn(t@, calls_view(calls@)),
{
    let mut entries: Vec<Json> = Vec::new();
    let ghost want = calls_view(calls@).map_values(|c: CallView| call_entry(c));
    let mut i: usize = 0;
    while i < calls.len()
        invariant
            i <= calls.len(),
            entries@.len() == i,
            want == calls_view(calls@).map_values(|c: CallView| call_entry(c)),
            json::items_view(entries@, i as nat) == want.take(i as int),
        decreases calls.len() - i,
    {
        let ghost before = entries@;
        entries.push(make_call_entry(&calls[i]));
        proof {
            json::lemma_items_prefix(before, entries@, i as nat);
            assert(want.take(i + 1) == want.take(i as int).push(want[i as int]));
        }
        i += 1;
    }
    assert(want.take(i as int) == want);
    let mut m = Json::object();
    m.set("role", Json::text("assistant"));
    m.set("content", Json::text(t));
    m.set("tool_calls", Json::Array(entries));
    m
}

/// The result of a call as the conversation keeps it.
fn make_tool_turn(id: &str, payload: &str) -> (r: Json)
    ensures
        r@ == tool_turn(id@, payload@),
{
    let mut m = Json::object();
    m.set("role", Json::text("tool"));
    m.set("tool_call_id", Json::text(id));
    m.set("content", Json::text(payload));
    m
}

/// Whether `names` has `name`.
fn has_name(names: &Vec<String>, name: &str) -> (r: bool)
    ensures
        r == text::texts(names@).contains(name@),
{
    let mut i: usize = 0;
    while i < names.len()
        invariant
            i <= names.len(),
            forall|k: int| 0 <= k < i ==> text::texts(names@)[k] != name@,
        decreases names.len() - i,
    {
        if text::same(names[i].as_str(), name) {
            assert(text::texts(names@)[i as int] == name@);
            return true;
        }
        i += 1;
    }
    false
}

impl ToolLoop {
    /// A loop over the request `body`.
    pub fn new(body: Json, names: Vec<String>, max_rounds: u32) -> (r: Self)
        ensures
            r@ == (LoopView {
                body: body@,
                round: 0,
                max: max_rounds as int,
                names: text::texts(names@),
                calls: Seq::empty(),
                at: 0,
            }),
    {
        let r = ToolLoop { body, round: 0, max: max_rounds, names, calls: Vec::new(), at: 0 };
        assert(r@.calls == Seq::<CallView>::empty());
        r
    }

    /// The running call has given `payload`.
    fn finish_call(&mut self, payload: &str)
        requires
            old(self).at < old(self).calls.len(),
        ensures
            final(self)@ == call_done(old(self)@, payload@),
            final(self).at == old(self).at + 1,
            final(self).calls == old(self).calls,
            final(self).names == old(self).names,
            final(self).round == old(self).round,
            final(self).max == old(self).max,
    {
        let turn = make_tool_turn(self.calls[self.at].id.as_str(), payload);
        self.body.push_to("messages", turn);
        self.at += 1;
    }

    /// The next round begins, unless the rounds are used up.
    fn begin_round(&mut self, out: &mut Vec<Out>) -> (r: Next)
        ensures
            ({
                let s = next_round(old(self)@);
                &&& final(self)@ == s.state
                &&& outs_view(final(out)@) == outs_view(old(out)@) + s.out
                &&& r@ == s.next
            }),
    {
        let ghost sent = outs_view(out@);
        if self.round >= self.max {
            let mut detail = text::own("max tool rounds (");
            text::push_digits(&mut detail, self.max as u64);
            detail.append(") reached");
            let f = sse_error_event("agent loop exceeded", detail.as_str());
            let d = text::own("data: [DONE]\n\n");
            out.push(Out::Frame(f));
            out.push(Out::Frame(d));
            assert(outs_view(out@) == sent + seq![OutView::Frame(f@), OutView::Frame(d@)]);
            return Next::Stop;
        }
        assert(sent + Seq::<OutView>::empty() == sent);
        let first = self.round == 0;
        self.round += 1;
        if first {
            Next::Drain
        } else {
            Next::Open(json::render(&self.body))
        }
    }

    /// Answer calls up to the first that an agent has to run.
    fn advance(&mut self, out: &mut Vec<Out>) -> (r: Next)
        requires
            old(self).at <= old(self).calls.len(),
        ensures
            ({
                let s = run_calls(old(self)@);
                &&& final(self)@ == s.state
                &&& outs_view(final(out)@) == outs_view(old(out)@) + s.out
                &&& r@ == s.next
            }),
    {
        let ghost start = self@;
        let ghost sent0 = outs_view(out@);
        while self.at < self.calls.len()
            invariant
                self.at <= self.calls.len(),
                start == old(self)@,
                sent0 == outs_view(old(out)@),
                ({
                    let s = run_calls(start);
                    let t = run_calls(self@);
                    &&& s.state == t.state
                    &&& s.next == t.next
                    &&& sent0 + s.out == outs_view(out@) + t.out
                }),
            decreases self.calls.len() - self.at,
        {
            let ghost here = self@;
            let ghost sent = outs_view(out@);
            let c = &self.calls[self.at];
            let id = c.id.clone();
            match &c.name {
                None => {
                    let payload = text::own("[error] ").concat(
                        "tool call arrived without a function name",
                    );
                    let f = sse_tool_result_event(
                        id.as_str(),
                        "<unknown>",
                        false,
                        payload.as_str(),
                    );
                    out.push(Out::Frame(f));
                    self.finish_call(payload.as_str());
                    proof {
                        assert(outs_view(out@) == sent + seq![OutView::Frame(f@)]);
                        let rest = run_calls(self@).out;
                        assert(sent + (seq![OutView::Frame(f@)] + rest) == (sent
                            + seq![OutView::Frame(f@)]) + rest);
                    }
                },
                Some(n) => {
                    let name = n.clone();
                    let f = sse_tool_call_event(c, name.as_str(), self.round);
                    out.push(Out::Frame(f));
                    assert(outs_view(out@) == sent + seq![OutView::Frame(f@)]);
                    if has_name(&self.names, name.as_str()) {
                        let args = arguments_value(c);
                        return Next::Invoke { name, args };
                    }
                    let mut payload = text::own("[error] ");
                    payload.append("unknown agent: `");
                    payload.append(name.as_str());
                    payload.append("`");
                    proof {
                        assert(payload@ == failure("unknown agent: `"@ + name@ + "`"@));
                    }
                    let g = sse_tool_result_event(
                        id.as_str(),
                        name.as_str(),
                        false,
                        payload.as_str(),
                    );
                    out.push(Out::Frame(g));
                    self.finish_call(payload.as_str());
                    proof {
                        let two = seq![OutView::Frame(f@), OutView::Frame(g@)];
                        assert(outs_view(out@) == sent + two);
                        let rest = run_calls(self@).out;
                        assert(sent + (two + rest) == (sent + two) + rest);
                    }
                },
            }
        }
        self.begin_round(out)
    }

    /// Something has happened outside: what goes to the client, and what is to
    /// be done next. A result is reported only while an agent runs.
    pub fn step(&mut self, ev: Happened) -> (r: (Vec<Out>, Next))
        requires
            ev is Invoked ==> running(old(self)@),
        ensures
            ({
                let s = step_of(old(self)@, ev@);
                &&& final(self)@ == s.state
                &&& outs_view(r.0@) == s.out
                &&& r.1@ == s.next
            }),
    {
        let mut out: Vec<Out> = Vec::new();
        assert(outs_view(out@) == Seq::<OutView>::empty());
        match ev {
            Happened::Begin => {
                let next = self.begin_round(&mut out);
                assert(Seq::<OutView>::empty() + next_round(old(self)@).out == next_round(
                    old(self)@,
                ).out);
                (out, next)
            },
            Happened::Drained { text: t, calls } => {
                if calls.len() == 0 {
                    let d = text::own("data: [DONE]\n\n");
                    out.push(Out::Frame(d));
                    assert(outs_view(out@) == seq![OutView::Frame(d@)]);
                    return (out, Next::Stop);
                }
                let has_messages = match self.body.get("messages") {
                    Some(m) => m.as_array().is_some(),
                    None => false,
                };
                if !has_messages {
                    let e = text::own("internal: body has no messages array");
                    out.push(Out::Fail(e));
                    assert(outs_view(out@) == seq![OutView::Fail(e@)]);
                    return (out, Next::Stop);
                }
                let turn = make_assistant_turn(t.as_str(), &calls);
                self.body.push_to("messages", turn);
                self.calls = calls;
                self.at = 0;
                let ghost st = self@;
                let next = self.advance(&mut out);
                assert(Seq::<OutView>::empty() + run_calls(st).out == run_calls(st).out);
                (out, next)
            },
            Happened::ReadFailed(e) => {
                let m = text::own("upstream read failed: ").concat(e.as_str());
                out.push(Out::Fail(m));
                assert(outs_view(out@) == seq![OutView::Fail(m@)]);
                (out, Next::Stop)
            },
            Happened::Connected => (out, Next::Drain),
            Happened::ConnectFailed(e) => {
                let m = text::own("upstream connect failed: ").concat(e.as_str());
                out.push(Out::Fail(m));
                assert(outs_view(out@) == seq![OutView::Fail(m@)]);
                (out, Next::Stop)
            },
            Happened::Refused { status, body } => {
                let line = http::status_line(status);
                let mut detail = text::own("status ");
                detail.append(line.as_str());
                detail.append(": ");
                detail.append(body.as_str());
                let f = sse_error_event("upstream error", detail.as_str());
                let d = text::own("data: [DONE]\n\n");
                out.push(Out::Frame(f));
                out.push(Out::Frame(d));
                assert(outs_view(out@) == seq![OutView::Frame(f@), OutView::Frame(d@)]);
                (out, Next::Stop)
            },
            Happened::Invoked(result) => {
                let id = self.calls[self.at].id.clone();
                let name = match &self.calls[self.at].name {
                    Some(n) => n.clone(),
                    None => String::new(),
                };
                let (ok, payload) = match result {
                    Ok(t) => (true, t),
                    Err(e) => (false, text::own("[error] ").concat(e.as_str())),
                };
                let f = sse_tool_result_event(id.as_str(), name.as_str(), ok, payload.as_str());
                out.push(Out::Frame(f));
                assert(outs_view(out@) == seq![OutView::Frame(f@)]);
                self.finish_call(payload.as_str());
                let next = self.advance(&mut out);
                (out, next)
            },
        }
    }
}

// ---- Laws ---------------------------------------------------------------

/// Whether a message is the result of the call `id`.
pub open spec fn answers(m: JsonView, id: Seq<char>) -> bool {
    &&& json::str_of(json::field(m, "role"@)) == Some("tool"@)
    &&& json::str_of(json::field(m, "tool_call_id"@)) == Some(id)
}

/// Whether `b` is `a` but for its messages.
pub open spec fn same_but_messages(a: JsonView, b: JsonView) -> bool {
    forall|name: Seq<char>|
        name != "messages"@ ==> #[trigger] json::field(b, name) == json::field(a, name)
}

/// What is sent ends the response exactly when the loop stops: the end frame or
/// an error stands last, and nowhere else.
pub open spec fn ends_once(s: StepView) -> bool {
    &&& s.next is Stop <==> s.out.len() > 0 && (s.out.last() == OutView::Frame(done_frame())
        || s.out.last() is Fail)
    &&& forall|i: int|
        0 <= i < s.out.len() - 1 ==> (#[trigger] s.out[i]) != OutView::Frame(done_frame())
            && !(s.out[i] is Fail)
}

/// An event's frame is not the end frame.
proof fn lemma_json_frame_is_not_done(name: Seq<char>, data: JsonView)
    ensures
        json_frame(name, data) != done_frame(),
{
    reveal_strlit("event: ");
    reveal_strlit("data: [DONE]\n\n");
    assert(json_frame(name, data)[0] == 'e');
    assert(done_frame()[0] == 'd');
}

/// The bytes that ask a client to hang up read as the end sentinel.
proof fn lemma_end_frame()
    ensures
        text::utf8(done_frame()) == text::utf8("data: [DONE]"@) + seq![sse::LF, sse::LF],
        text::utf8("data: [DONE]"@).len() == 12,
        forall|i: int| 0 <= i < 12 ==> #[trigger] text::utf8("data: [DONE]"@)[i] != sse::LF,
        is_done(sse::event_of(sse::decoded(text::utf8("data: [DONE]"@))).data),
{
    let line = "data: [DONE]"@;
    reveal_strlit("data: [DONE]");
    reveal_strlit("data: [DONE]\n\n");
    reveal_strlit("[DONE]");
    reveal_strlit("data:");
    reveal_strlit("event:");
    vstd::utf8::is_ascii_chars_encode_utf8(line);
    vstd::utf8::is_ascii_chars_encode_utf8(done_frame());
    assert(text::utf8(done_frame()) =~= text::utf8(line) + seq![sse::LF, sse::LF]) by {
        assert forall|i: int| 0 <= i < 14 implies text::utf8(done_frame())[i] == (text::utf8(line)
            + seq![sse::LF, sse::LF])[i] by {
            assert(done_frame()[i] as u8 == text::utf8(done_frame())[i]);
            if i < 12 {
                assert(line[i] as u8 == text::utf8(line)[i]);
                assert(line[i] == done_frame()[i]);
            } else {
                assert(done_frame()[i] == '\n');
            }
        }
    }
    assert forall|i: int| 0 <= i < 12 implies #[trigger] text::utf8(line)[i] != sse::LF by {
        assert(line[i] as u8 == text::utf8(line)[i]);
    }
    vstd::utf8::encode_utf8_valid_utf8(line);
    vstd::utf8::encode_utf8_decode_utf8(line);
    assert(sse::decoded(text::utf8(line)) == line);
    text::lemma_index_is(line, '\n', 0, 12);
    let lines = text::split(line, '\n');
    assert(lines == seq![line]);
    assert(lines.last() == line && lines.drop_last() == Seq::<Seq<char>>::empty());
    assert(sse::strip_crs(line) == line);
    assert(line.subrange(0, 5) == "data:"@);
    let said = sse::after(line, "data:"@);
    assert(said[0] == ' ');
    assert(said.subrange(1, said.len() as int) =~= "[DONE]"@);
    reveal_with_fuel(text::trim_start, 2);
    assert(text::trim_start(said) == "[DONE]"@);
    let data = sse::data_in(lines);
    assert(sse::data_in(lines.drop_last()) == Seq::<Seq<char>>::empty());
    assert(data == seq!["[DONE]"@]);
    assert(text::join(data, seq!['\n']) == "[DONE]"@) by {
        reveal_with_fuel(text::join, 2);
    }
    assert(text::trim("[DONE]"@) == "[DONE]"@);
}

/// An event of the model that is handed on never looks like the end frame: the
/// client sees the one that the loop sends, and no other.
pub proof fn law_forwarded_is_not_done(s: Seq<u8>)
    ensures
        sse::first_blank(s, 0) matches Some(i) ==> !is_done(
            sse::frame_before(s, i).event.data,
        ) ==> sse::frame_before(s, i).raw != text::utf8(done_frame()),
        !is_done(sse::last_frame(s).event.data) ==> sse::last_frame(s).raw != text::utf8(
            done_frame(),
        ),
{
    lemma_end_frame();
    let line = text::utf8("data: [DONE]"@);
    let end = text::utf8(done_frame());
    assert(line.len() == 12);
    assert(end.len() == 14) by {
        assert(end == line + seq![sse::LF, sse::LF]);
    }
    match sse::first_blank(s, 0) {
        Some(i) => {
            sse::lemma_first_blank_extend(s, Seq::empty(), 0);
            let f = sse::frame_before(s, i);
            if f.raw == end {
                assert(s[i] == sse::LF && f.raw[i] == s[i]);
                assert(f.raw.len() == i + sse::blank_len(s, i));
                if i < 12 {
                    assert(end[i] == line[i]);
                    assert(line[i] != sse::LF);
                }
                assert(i == 12);
                assert(s.take(i) =~= f.raw.take(12));
                assert(end.take(12) =~= line);
            }
        },
        None => {},
    }
    if sse::last_frame(s).raw == end {
        assert(sse::last_frame(s).raw.len() == s.len() + 2);
        assert(sse::last_frame(s).raw.take(12) =~= s);
        assert(end.take(12) =~= line);
    }
}

proof fn lemma_next_round_ends_once(st: LoopView)
    ensures
        ends_once(next_round(st)),
{
    lemma_json_frame_is_not_done(
        "error"@,
        error_data(
            "agent loop exceeded"@,
            "max tool rounds ("@ + text::digits(st.max as nat) + ") reached"@,
        ),
    );
}

proof fn lemma_run_calls_ends_once(st: LoopView)
    requires
        0 <= st.at,
    ensures
        ends_once(run_calls(st)),
    decreases st.calls.len() - st.at,
{
    if st.at >= st.calls.len() {
        lemma_next_round_ends_once(st);
    } else {
        let c = st.calls[st.at];
        match c.name {
            None => {
                let payload = failure("tool call arrived without a function name"@);
                lemma_run_calls_ends_once(call_done(st, payload));
                lemma_json_frame_is_not_done(
                    "tool_result"@,
                    result_data(
                        c.id,
                        "<unknown>"@,
                        false,
                        summary_of(false, payload, json::json_parse(payload)),
                        payload,
                    ),
                );
                lemma_prepend_ends_once(
                    result_frame(c.id, "<unknown>"@, false, payload),
                    run_calls(call_done(st, payload)),
                );
            },
            Some(n) => {
                lemma_json_frame_is_not_done(
                    "tool_call"@,
                    call_data(c, n, parsed_or_null(c.arguments), st.round),
                );
                if !st.names.contains(n) {
                    let payload = failure("unknown agent: `"@ + n + "`"@);
                    let rest = run_calls(call_done(st, payload));
                    lemma_run_calls_ends_once(call_done(st, payload));
                    lemma_json_frame_is_not_done(
                        "tool_result"@,
                        result_data(
                            c.id,
                            n,
                            false,
                            summary_of(false, payload, json::json_parse(payload)),
                            payload,
                        ),
                    );
                    let f = call_frame(c, n, st.round);
                    let g = result_frame(c.id, n, false, payload);
                    lemma_prepend_ends_once(g, rest);
                    let mid = after_sending(seq![OutView::Frame(g)], rest);
                    lemma_prepend_ends_once(f, mid);
                    assert(seq![OutView::Frame(f)] + mid.out == seq![
                        OutView::Frame(f),
                        OutView::Frame(g),
                    ] + rest.out);
                }
            },
        }
    }
}

/// A frame that is not the end frame may stand before what ends once.
proof fn lemma_prepend_ends_once(frame: Seq<char>, rest: StepView)
    requires
        frame != done_frame(),
        ends_once(rest),
    ensures
        ends_once(after_sending(seq![OutView::Frame(frame)], rest)),
{
    let s = after_sending(seq![OutView::Frame(frame)], rest);
    assert forall|i: int| 1 <= i < s.out.len() implies #[trigger] s.out[i] == rest.out[i - 1] by {
    }
    if rest.out.len() > 0 {
        assert(s.out.last() == rest.out.last());
    }
}

/// Whatever happens, the end frame is sent once, as the last thing, when the
/// loop stops; an error that breaks the response off stands in its place.
pub proof fn law_done_is_sent_once_and_last(st: LoopView, ev: HappenedView)
    requires
        ev is Invoked ==> running(st),
    ensures
        ends_once(step_of(st, ev)),
{
    match ev {
        HappenedView::Begin => {
            lemma_next_round_ends_once(st);
        },
        HappenedView::Drained { text: t, calls } => {
            if calls.len() > 0 && llm_prompt::messages_of(st.body) is Some {
                lemma_run_calls_ends_once(
                    LoopView {
                        body: json::pushed(st.body, "messages"@, assistant_turn(t, calls)),
                        calls,
                        at: 0,
                        ..st
                    },
                );
            }
        },
        HappenedView::Refused { status, body } => {
            lemma_json_frame_is_not_done(
                "error"@,
                error_data(
                    "upstream error"@,
                    "status "@ + http::status_text(http::valid_status(status)) + ": "@ + body,
                ),
            );
        },
        HappenedView::Invoked(r) => {
            let c = st.calls[st.at];
            let payload = match r {
                Ok(t) => t,
                Err(e) => failure(e),
            };
            lemma_run_calls_ends_once(call_done(st, payload));
            lemma_json_frame_is_not_done(
                "tool_result"@,
                result_data(
                    c.id,
                    c.name->0,
                    r is Ok,
                    summary_of(r is Ok, payload, json::json_parse(payload)),
                    payload,
                ),
            );
            lemma_prepend_ends_once(
                result_frame(c.id, c.name->0, r is Ok, payload),
                run_calls(call_done(st, payload)),
            );
        },
        _ => {},
    }
}

/// What a list of happenings makes of a loop.
pub open spec fn after_all(st: LoopView, evs: Seq<HappenedView>) -> LoopView
    decreases evs.len(),
{
    if evs.len() == 0 {
        st
    } else {
        step_of(after_all(st, evs.drop_last()), evs.last()).state
    }
}

/// How often the model is asked anew.
pub open spec fn times_asked(st: LoopView, evs: Seq<HappenedView>) -> nat
    decreases evs.len(),
{
    if evs.len() == 0 {
        0
    } else {
        times_asked(st, evs.drop_last()) + if step_of(
            after_all(st, evs.drop_last()),
            evs.last(),
        ).next is Open {
            1nat
        } else {
            0nat
        }
    }
}

proof fn lemma_run_calls_round(st: LoopView)
    ensures
        ({
            let s = run_calls(st);
            &&& s.state.max == st.max
            &&& s.next is Open ==> s.state.round == st.round + 1 && st.round < st.max
            &&& s.state.round == st.round || (s.state.round == st.round + 1 && st.round < st.max)
        }),
    decreases st.calls.len() - st.at,
{
    if st.at < st.calls.len() {
        let c = st.calls[st.at];
        match c.name {
            None => lemma_run_calls_round(
                call_done(st, failure("tool call arrived without a function name"@)),
            ),
            Some(n) => if !st.names.contains(n) {
                lemma_run_calls_round(call_done(st, failure("unknown agent: `"@ + n + "`"@)));
            },
        }
    }
}

/// However long the model keeps calling tools, it is asked anew at most as many
/// times as there are rounds left.
pub proof fn law_rounds_are_bounded(st: LoopView, evs: Seq<HappenedView>)
    requires
        0 <= st.round <= st.max,
    ensures
        times_asked(st, evs) + st.round <= st.max,
        times_asked(st, evs) + st.round <= after_all(st, evs).round <= st.max,
        after_all(st, evs).max == st.max,
    decreases evs.len(),
{
    if evs.len() > 0 {
        law_rounds_are_bounded(st, evs.drop_last());
        let here = after_all(st, evs.drop_last());
        match evs.last() {
            HappenedView::Drained { text: t, calls } => {
                lemma_run_calls_round(
                    LoopView {
                        body: json::pushed(here.body, "messages"@, assistant_turn(t, calls)),
                        calls,
                        at: 0,
                        ..here
                    },
                );
            },
            HappenedView::Invoked(r) => {
                let payload = match r {
                    Ok(t) => t,
                    Err(e) => failure(e),
                };
                lemma_run_calls_round(call_done(here, payload));
            },
            _ => {},
        }
    }
}

/// How running calls changes the conversation: each call up to the one that
/// runs is answered, in order, and nothing else changes.
pub open spec fn conversation_kept(
    before: JsonView,
    after: JsonView,
    calls: Seq<CallView>,
    from: int,
    to: int,
) -> bool {
    &&& same_but_messages(before, after)
    &&& from <= to <= calls.len()
    &&& match (llm_prompt::messages_of(before), llm_prompt::messages_of(after)) {
        (Some(a), Some(b)) => {
            &&& b.len() == a.len() + (to - from)
            &&& forall|i: int| 0 <= i < a.len() ==> #[trigger] b[i] == a[i]
            &&& forall|i: int|
                from <= i < to ==> answers(b[a.len() + (i - from)], (#[trigger] calls[i]).id)
        },
        (None, None) => true,
        _ => false,
    }
}

/// One result joins the conversation.
proof fn lemma_push_answer(body: JsonView, calls: Seq<CallView>, at: int, payload: Seq<char>)
    requires
        0 <= at < calls.len(),
    ensures
        conversation_kept(
            body,
            json::pushed(body, "messages"@, tool_turn(calls[at].id, payload)),
            calls,
            at,
            at + 1,
        ),
{
    let turn = tool_turn(calls[at].id, payload);
    let after = json::pushed(body, "messages"@, turn);
    reveal_strlit("role");
    reveal_strlit("tool_call_id");
    reveal_strlit("content");
    assert("role"@.len() == 4);
    assert("tool_call_id"@.len() == 12);
    assert("content"@.len() == 7);
    let m = turn->Object_0;
    assert(m.dom().contains("role"@));
    assert(m["role"@] == JsonView::Str("tool"@));
    assert(m["tool_call_id"@] == JsonView::Str(calls[at].id));
    assert(answers(turn, calls[at].id));
    assert forall|name: Seq<char>| name != "messages"@ implies #[trigger] json::field(after, name)
        == json::field(body, name) by {
    }
}

proof fn lemma_run_calls_keep(st: LoopView)
    requires
        0 <= st.at <= st.calls.len(),
    ensures
        ({
            let s = run_calls(st);
            &&& s.state.calls == st.calls
            &&& conversation_kept(st.body, s.state.body, st.calls, st.at, s.state.at)
            &&& s.next is Invoke ==> running(s.state)
            &&& !(s.next is Invoke) ==> s.state.at == st.calls.len()
        }),
    decreases st.calls.len() - st.at,
{
    if st.at < st.calls.len() {
        let c = st.calls[st.at];
        match c.name {
            None => {
                let payload = failure("tool call arrived without a function name"@);
                let next = call_done(st, payload);
                lemma_push_answer(st.body, st.calls, st.at, payload);
                lemma_run_calls_keep(next);
                lemma_kept_chain(st.body, next.body, run_calls(next).state, st.at);
            },
            Some(n) => if !st.names.contains(n) {
                let payload = failure("unknown agent: `"@ + n + "`"@);
                let next = call_done(st, payload);
                lemma_push_answer(st.body, st.calls, st.at, payload);
                lemma_run_calls_keep(next);
                lemma_kept_chain(st.body, next.body, run_calls(next).state, st.at);
            },
        }
    }
}

/// Answers in a row.
proof fn lemma_kept_chain(a: JsonView, b: JsonView, end: LoopView, from: int)
    requires
        0 <= from,
        conversation_kept(a, b, end.calls, from, from + 1),
        conversation_kept(b, end.body, end.calls, from + 1, end.at),
    ensures
        conversation_kept(a, end.body, end.calls, from, end.at),
{
    assert forall|name: Seq<char>| name != "messages"@ implies #[trigger] json::field(
        end.body,
        name,
    ) == json::field(a, name) by {
        assert(json::field(b, name) == json::field(a, name));
    }
    match (
        llm_prompt::messages_of(a),
        llm_prompt::messages_of(b),
        llm_prompt::messages_of(end.body),
    ) {
        (Some(x), Some(y), Some(z)) => {
            assert forall|i: int| 0 <= i < x.len() implies #[trigger] z[i] == x[i] by {
                assert(y[i] == x[i]);
            }
            assert forall|i: int| from <= i < end.at implies answers(
                z[x.len() + (i - from)],
                (#[trigger] end.calls[i]).id,
            ) by {
                if i == from {
                    assert(answers(y[x.len() + (i - from)], end.calls[i].id));
                    assert(z[x.len() as int] == y[x.len() as int]);
                } else {
                    assert(answers(z[y.len() + (i - (from + 1))], end.calls[i].id));
                }
            }
        },
        _ => {},
    }
}

/// When the model's calls have been read, the conversation keeps every message
/// it had, takes the assistant's turn, and answers the calls in their order
/// with messages that carry their ids: all calls before the one that runs, and
/// all of them when the model is asked again.
pub proof fn law_calls_are_answered_in_order(
    st: LoopView,
    t: Seq<char>,
    calls: Seq<CallView>,
    messages: Seq<JsonView>,
)
    requires
        calls.len() > 0,
        llm_prompt::messages_of(st.body) == Some(messages),
    ensures
        ({
            let s = step_of(st, HappenedView::Drained { text: t, calls });
            let asked = json::pushed(st.body, "messages"@, assistant_turn(t, calls));
            &&& llm_prompt::messages_of(asked) == Some(messages.push(assistant_turn(t, calls)))
            &&& same_but_messages(st.body, asked)
            &&& s.state.calls == calls
            &&& conversation_kept(asked, s.state.body, calls, 0, s.state.at)
            &&& s.next is Invoke ==> running(s.state)
            &&& !(s.next is Invoke) ==> s.state.at == calls.len()
        }),
{
    let asked = json::pushed(st.body, "messages"@, assistant_turn(t, calls));
    lemma_run_calls_keep(LoopView { body: asked, calls, at: 0, ..st });
}

/// The same when a running agent has given its result: its call is answered,
/// then those that follow.
pub proof fn law_results_are_kept_in_order(st: LoopView, r: Result<Seq<char>, Seq<char>>)
    requires
        running(st),
    ensures
        ({
            let s = step_of(st, HappenedView::Invoked(r));
            &&& s.state.calls == st.calls
            &&& s.state.at > st.at
            &&& conversation_kept(st.body, s.state.body, st.calls, st.at, s.state.at)
            &&& s.next is Invoke ==> running(s.state)
            &&& !(s.next is Invoke) ==> s.state.at == st.calls.len()
        }),
{
    let payload = match r {
        Ok(t) => t,
        Err(e) => failure(e),
    };
    let next = call_done(st, payload);
    lemma_push_answer(st.body, st.calls, st.at, payload);
    lemma_run_calls_keep(next);
    lemma_kept_chain(st.body, next.body, run_calls(next).state, st.at);
}

/// The message that a result becomes says that it is a tool's, whose call it answers,
/// and all of the result.
pub proof fn law_message_holds_the_whole_result(id: Seq<char>, payload: Seq<char>)
    ensures
        json::field(tool_turn(id, payload), "role"@) == Some(JsonView::Str("tool"@)),
        json::field(tool_turn(id, payload), "tool_call_id"@) == Some(JsonView::Str(id)),
        json::field(tool_turn(id, payload), "content"@) == Some(JsonView::Str(payload)),
{
    reveal_strlit("role");
    reveal_strlit("tool_call_id");
    reveal_strlit("content");
    assert("role"@.len() == 4);
    assert("tool_call_id"@.len() == 12);
    assert("content"@.len() == 7);
}

/// Whether a message answers the call `id` with all of `content`.
pub open spec fn answers_with(m: JsonView, id: Seq<char>, content: Seq<char>) -> bool {
    &&& json::field(m, "role"@) == Some(JsonView::Str("tool"@))
    &&& json::field(m, "tool_call_id"@) == Some(JsonView::Str(id))
    &&& json::field(m, "content"@) == Some(JsonView::Str(content))
}

/// Whether the messages from `k` on answer calls that no agent can run, each with what
/// is wrong with it.
pub open spec fn refusals(
    ms: Seq<JsonView>,
    k: int,
    names: Seq<Seq<char>>,
    calls: Seq<CallView>,
    from: int,
    to: int,
) -> bool {
    &&& ms.len() == k + (to - from)
    &&& forall|i: int|
        from <= i < to ==> {
            let c = #[trigger] calls[i];
            &&& c.name is None ==> answers_with(
                ms[k + (i - from)],
                c.id,
                "[error] "@ + "tool call arrived without a function name"@,
            )
            &&& c.name is Some ==> !names.contains(c.name->0) && answers_with(
                ms[k + (i - from)],
                c.id,
                "[error] "@ + ("unknown agent: `"@ + c.name->0 + "`"@),
            )
        }
}

proof fn lemma_pushed_messages(body: JsonView, ms: Seq<JsonView>, turn: JsonView)
    requires
        llm_prompt::messages_of(body) == Some(ms),
    ensures
        llm_prompt::messages_of(json::pushed(body, "messages"@, turn)) == Some(ms.push(turn)),
        forall|name: Seq<char>|
            name != "messages"@ ==> #[trigger] json::field(
                json::pushed(body, "messages"@, turn),
                name,
            ) == json::field(body, name),
{
}

/// What running calls does to the conversation, in full.
proof fn lemma_run_calls_says(st: LoopView, ms: Seq<JsonView>)
    requires
        0 <= st.at <= st.calls.len(),
        llm_prompt::messages_of(st.body) == Some(ms),
    ensures
        ({
            let s = run_calls(st);
            let after = llm_prompt::messages_of(s.state.body);
            &&& after is Some
            &&& st.at <= s.state.at <= st.calls.len()
            &&& after->0.take(ms.len() as int) == ms
            &&& refusals(after->0, ms.len() as int, st.names, st.calls, st.at, s.state.at)
            &&& same_but_messages(st.body, s.state.body)
            &&& s.state.calls == st.calls && s.state.names == st.names && s.state.max == st.max
            &&& s.next is Invoke ==> {
                let c = st.calls[s.state.at];
                &&& s.state.at < st.calls.len()
                &&& c.name is Some && st.names.contains(c.name->0)
                &&& s.next->name == c.name->0
                &&& s.next->args == match json::json_parse(c.arguments) {
                    Ok(v) => v,
                    Err(_) => JsonView::Null,
                }
                &&& s.state.round == st.round
            }
            &&& !(s.next is Invoke) ==> s.state.at == st.calls.len()
            &&& s.next is Open ==> s.next->Open_0 == json::json_text(s.state.body)
            &&& s.next is Stop ==> st.round >= st.max
            &&& !(s.next is Invoke) && st.round < st.max ==> s.state.round == st.round + 1
        }),
    decreases st.calls.len() - st.at,
{
    assert(ms.take(ms.len() as int) =~= ms);
    if st.at < st.calls.len() {
        let c = st.calls[st.at];
        if c.name is None || !st.names.contains(c.name->0) {
            let payload = match c.name {
                None => failure("tool call arrived without a function name"@),
                Some(n) => failure("unknown agent: `"@ + n + "`"@),
            };
            let turn = tool_turn(c.id, payload);
            law_message_holds_the_whole_result(c.id, payload);
            lemma_pushed_messages(st.body, ms, turn);
            let next = call_done(st, payload);
            lemma_run_calls_says(next, ms.push(turn));
            let s = run_calls(st);
            let rest = run_calls(next);
            assert(s.state == rest.state && s.next == rest.next);
            let after = llm_prompt::messages_of(s.state.body)->0;
            assert(after.take(ms.len() as int) =~= ms.push(turn).take(ms.len() as int)) by {
                assert(after.take(ms.len() as int + 1) == ms.push(turn));
                assert(after.take(ms.len() as int) =~= after.take(ms.len() as int + 1).take(
                    ms.len() as int,
                ));
            }
            assert(ms.push(turn).take(ms.len() as int) =~= ms);
            assert(after[ms.len() as int] == turn) by {
                assert(after.take(ms.len() as int + 1)[ms.len() as int] == turn);
            }
            assert forall|i: int| st.at <= i < s.state.at implies {
                let c = #[trigger] st.calls[i];
                &&& c.name is None ==> answers_with(
                    after[ms.len() + (i - st.at)],
                    c.id,
                    "[error] "@ + "tool call arrived without a function name"@,
                )
                &&& c.name is Some ==> !st.names.contains(c.name->0) && answers_with(
                    after[ms.len() + (i - st.at)],
                    c.id,
                    "[error] "@ + ("unknown agent: `"@ + c.name->0 + "`"@),
                )
            } by {
                if i > st.at {
                    assert(st.calls[i] == next.calls[i]);
                    assert(ms.push(turn).len() + (i - next.at) == ms.len() + (i - st.at));
                }
            }
            assert forall|name: Seq<char>| name != "messages"@ implies #[trigger] json::field(
                s.state.body,
                name,
            ) == json::field(st.body, name) by {
                assert(json::field(next.body, name) == json::field(st.body, name));
            }
        }
    }
}

/// When an agent has given its result, the conversation keeps every message it had and
/// takes the result whole: all of the text of a success, and of a failure its words
/// after `[error] `. Calls after it that no agent can run are answered with what is
/// wrong. When the model is asked again, it is sent this conversation.
pub proof fn law_model_sees_the_whole_result(
    st: LoopView,
    r: Result<Seq<char>, Seq<char>>,
    ms: Seq<JsonView>,
)
    requires
        running(st),
        llm_prompt::messages_of(st.body) == Some(ms),
    ensures
        ({
            let s = step_of(st, HappenedView::Invoked(r));
            let after = llm_prompt::messages_of(s.state.body);
            let content = match r {
                Ok(t) => t,
                Err(e) => "[error] "@ + e,
            };
            &&& after is Some && after->0.len() > ms.len()
            &&& after->0.take(ms.len() as int) == ms
            &&& answers_with(after->0[ms.len() as int], st.calls[st.at].id, content)
            &&& refusals(after->0, ms.len() as int + 1, st.names, st.calls, st.at + 1, s.state.at)
            &&& same_but_messages(st.body, s.state.body)
            &&& s.next is Open ==> s.next->Open_0 == json::json_text(s.state.body)
            &&& s.next is Invoke ==> s.next->name == st.calls[s.state.at].name->0
                && st.names.contains(s.next->name)
            &&& s.next is Stop ==> st.round >= st.max
        }),
{
    let payload = match r {
        Ok(t) => t,
        Err(e) => failure(e),
    };
    let turn = tool_turn(st.calls[st.at].id, payload);
    law_message_holds_the_whole_result(st.calls[st.at].id, payload);
    lemma_pushed_messages(st.body, ms, turn);
    let next = call_done(st, payload);
    lemma_run_calls_says(next, ms.push(turn));
    let s = step_of(st, HappenedView::Invoked(r));
    let after = llm_prompt::messages_of(s.state.body)->0;
    assert(after.take(ms.len() as int) =~= after.take(ms.len() as int + 1).take(ms.len() as int));
    assert(ms.push(turn).take(ms.len() as int) =~= ms);
    assert(after[ms.len() as int] == after.take(ms.len() as int + 1)[ms.len() as int]);
    assert forall|name: Seq<char>| name != "messages"@ implies #[trigger] json::field(
        s.state.body,
        name,
    ) == json::field(st.body, name) by {
        assert(json::field(next.body, name) == json::field(st.body, name));
    }
}

/// When the model has called tools, its turn joins the conversation: its text, and each
/// call in order with its id, its name and its arguments as they came. An agent that is
/// there is run with the arguments of the model.
pub proof fn law_turn_of_the_model_is_kept(
    st: LoopView,
    t: Seq<char>,
    calls: Seq<CallView>,
    ms: Seq<JsonView>,
)
    requires
        calls.len() > 0,
        llm_prompt::messages_of(st.body) == Some(ms),
    ensures
        ({
            let s = step_of(st, HappenedView::Drained { text: t, calls });
            let after = llm_prompt::messages_of(s.state.body);
            let turn = after->0[ms.len() as int];
            let list = json::field(turn, "tool_calls"@);
            &&& after is Some && after->0.len() > ms.len()
            &&& after->0.take(ms.len() as int) == ms
            &&& json::field(turn, "role"@) == Some(JsonView::Str("assistant"@))
            &&& json::field(turn, "content"@) == Some(JsonView::Str(t))
            &&& list is Some && list->0 is Array && list->0->Array_0.len() == calls.len()
            &&& forall|i: int|
                0 <= i < calls.len() ==> is_call_of(#[trigger] list->0->Array_0[i], calls[i])
            &&& refusals(after->0, ms.len() as int + 1, st.names, calls, 0, s.state.at)
            &&& same_but_messages(st.body, s.state.body)
            &&& s.next is Invoke ==> {
                let c = calls[s.state.at];
                &&& c.name is Some && st.names.contains(c.name->0)
                &&& s.next->name == c.name->0
                &&& json::json_parse(c.arguments) is Ok ==> s.next->args == json::json_parse(
                    c.arguments,
                )->Ok_0
                &&& json::json_parse(c.arguments) is Err ==> s.next->args == JsonView::Null
            }
            &&& calls[0].name is Some && st.names.contains(calls[0].name->0) ==> s.next is Invoke
                && s.state.at == 0
            &&& s.next is Open ==> s.next->Open_0 == json::json_text(s.state.body)
        }),
{
    let turn = assistant_turn(t, calls);
    lemma_pushed_messages(st.body, ms, turn);
    let asked = json::pushed(st.body, "messages"@, turn);
    lemma_run_calls_says(LoopView { body: asked, calls, at: 0, ..st }, ms.push(turn));
    let s = step_of(st, HappenedView::Drained { text: t, calls });
    let after = llm_prompt::messages_of(s.state.body)->0;
    assert(after.take(ms.len() as int) =~= after.take(ms.len() as int + 1).take(ms.len() as int));
    assert(ms.push(turn).take(ms.len() as int) =~= ms);
    assert(after[ms.len() as int] == after.take(ms.len() as int + 1)[ms.len() as int]);
    reveal_strlit("role");
    reveal_strlit("content");
    reveal_strlit("tool_calls");
    assert("role"@.len() == 4);
    assert("content"@.len() == 7);
    assert("tool_calls"@.len() == 10);
    let list = turn->Object_0["tool_calls"@]->Array_0;
    assert forall|i: int| 0 <= i < calls.len() implies is_call_of(#[trigger] list[i], calls[i]) by {
        law_call_is_kept_as_it_came(calls[i]);
    }
    assert forall|name: Seq<char>| name != "messages"@ implies #[trigger] json::field(
        s.state.body,
        name,
    ) == json::field(st.body, name) by {
        assert(json::field(asked, name) == json::field(st.body, name));
    }
}

/// Whether a value is the call `c` as the model made it.
pub open spec fn is_call_of(v: JsonView, c: CallView) -> bool {
    let f = json::field(v, "function"@);
    &&& json::field(v, "id"@) == Some(JsonView::Str(c.id))
    &&& json::field(v, "type"@) == Some(JsonView::Str("function"@))
    &&& f is Some
    &&& c.name is Some ==> json::field(f->0, "name"@) == Some(JsonView::Str(c.name->0))
    &&& c.name is None ==> json::field(f->0, "name"@) == Some(JsonView::Null)
    &&& json::field(f->0, "arguments"@) == Some(JsonView::Str(c.arguments))
}

/// A call is kept with its id, its name and its arguments.
pub proof fn law_call_is_kept_as_it_came(c: CallView)
    ensures
        is_call_of(call_entry(c), c),
{
    reveal_strlit("id");
    reveal_strlit("type");
    reveal_strlit("function");
    reveal_strlit("name");
    reveal_strlit("arguments");
    assert("id"@.len() == 2);
    assert("type"@.len() == 4);
    assert("function"@.len() == 8);
    assert("name"@.len() == 4);
    assert("arguments"@.len() == 9);
}

/// Whether a frame is an event of this name whose data is `data`.
pub open spec fn is_event(out: OutView, name: Seq<char>, data: JsonView) -> bool {
    out == OutView::Frame("event: "@ + name + "\ndata: "@ + json::json_text(data) + "\n\n"@)
}

/// The client is told of a result: whose it is, whether it is good, and all of it, with
/// a summary beside it.
pub proof fn law_client_sees_the_result(st: LoopView, r: Result<Seq<char>, Seq<char>>)
    requires
        running(st),
    ensures
        ({
            let s = step_of(st, HappenedView::Invoked(r));
            let c = st.calls[st.at];
            let content = match r {
                Ok(t) => t,
                Err(e) => "[error] "@ + e,
            };
            &&& s.out.len() > 0
            &&& exists|d: JsonView| #[trigger]
                is_event(s.out[0], "tool_result"@, d) && is_result(
                    d,
                    c.id,
                    c.name->0,
                    r is Ok,
                    content,
                )
        }),
{
    let s = step_of(st, HappenedView::Invoked(r));
    let c = st.calls[st.at];
    let payload = match r {
        Ok(t) => t,
        Err(e) => failure(e),
    };
    let d = result_data(
        c.id,
        c.name->0,
        r is Ok,
        summary_of(r is Ok, payload, json::json_parse(payload)),
        payload,
    );
    law_result_data(c.id, c.name->0, r is Ok, payload);
    assert(s.out[0] == OutView::Frame(result_frame(c.id, c.name->0, r is Ok, payload)));
    assert(is_event(s.out[0], "tool_result"@, d));
}

/// Whether a value reports the result of a call.
pub open spec fn is_result(
    d: JsonView,
    id: Seq<char>,
    name: Seq<char>,
    ok: bool,
    content: Seq<char>,
) -> bool {
    &&& json::field(d, "id"@) == Some(JsonView::Str(id))
    &&& json::field(d, "name"@) == Some(JsonView::Str(name))
    &&& json::field(d, "ok"@) == Some(JsonView::Bool(ok))
    &&& json::field(d, "content"@) == Some(JsonView::Str(content))
    &&& json::field(d, "summary"@) is Some
    &&& ok && json::json_parse(content) is Ok && json::field(
        json::json_parse(content)->Ok_0,
        "summary"@,
    ) is Some && json::field(json::json_parse(content)->Ok_0, "summary"@)->0 is Str
        ==> json::field(d, "summary"@) == json::field(json::json_parse(content)->Ok_0, "summary"@)
    &&& !ok && content.len() <= 160 ==> json::field(d, "summary"@) == Some(JsonView::Str(content))
    &&& !ok && content.len() > 160 ==> json::field(d, "summary"@) == Some(
        JsonView::Str(content.take(160)),
    )
    &&& ok && json::json_parse(content) is Err && content.len() > 80 ==> json::field(d, "summary"@)
        == Some(JsonView::Str(content.take(80)))
    &&& ok && json::json_parse(content) is Err && content.len() <= 80 ==> json::field(
        d,
        "summary"@,
    ) == Some(JsonView::Str(content))
    &&& ok && json::json_parse(content) is Ok && !(json::field(
        json::json_parse(content)->Ok_0,
        "summary"@,
    ) is Some && json::field(json::json_parse(content)->Ok_0, "summary"@)->0 is Str)
        && content.len() > 80 ==> json::field(d, "summary"@) == Some(
        JsonView::Str(content.take(80)),
    )
    &&& ok && json::json_parse(content) is Ok && !(json::field(
        json::json_parse(content)->Ok_0,
        "summary"@,
    ) is Some && json::field(json::json_parse(content)->Ok_0, "summary"@)->0 is Str)
        && content.len() <= 80 ==> json::field(d, "summary"@) == Some(JsonView::Str(content))
}

/// What is reported of a result says all of it.
pub proof fn law_result_data(id: Seq<char>, name: Seq<char>, ok: bool, content: Seq<char>)
    ensures
        is_result(
            result_data(
                id,
                name,
                ok,
                summary_of(ok, content, json::json_parse(content)),
                content,
            ),
            id,
            name,
            ok,
            content,
        ),
{
    reveal_strlit("id");
    reveal_strlit("name");
    reveal_strlit("ok");
    reveal_strlit("summary");
    reveal_strlit("content");
    assert("id"@.len() == 2);
    assert("name"@.len() == 4);
    assert("ok"@.len() == 2);
    assert("summary"@.len() == 7);
    assert("content"@.len() == 7);
    assert("id"@[0] == 'i');
    assert("ok"@[0] == 'o');
    assert("summary"@[0] == 's');
    assert("content"@[0] == 'c');
}

/// The client is told of a call before it runs: its id, its name, its arguments as the
/// model wrote them and as they were read, and the round.
pub proof fn law_client_sees_the_call(c: CallView, name: Seq<char>, round: int)
    ensures
        exists|d: JsonView| #[trigger]
            is_event(OutView::Frame(call_frame(c, name, round)), "tool_call"@, d) && {
                &&& json::field(d, "id"@) == Some(JsonView::Str(c.id))
                &&& json::field(d, "name"@) == Some(JsonView::Str(name))
                &&& json::field(d, "arguments_raw"@) == Some(JsonView::Str(c.arguments))
                &&& json::field(d, "index"@) == Some(JsonView::Num(NumView::Int(round)))
                &&& json::json_parse(c.arguments) is Ok ==> json::field(d, "args"@) == Some(
                    json::json_parse(c.arguments)->Ok_0,
                )
                &&& json::json_parse(c.arguments) is Err ==> json::field(d, "args"@) == Some(
                    JsonView::Null,
                )
            },
{
    let d = call_data(c, name, parsed_or_null(c.arguments), round);
    reveal_strlit("id");
    reveal_strlit("name");
    reveal_strlit("args");
    reveal_strlit("arguments_raw");
    reveal_strlit("index");
    assert("id"@.len() == 2);
    assert("name"@.len() == 4);
    assert("args"@.len() == 4);
    assert("arguments_raw"@.len() == 13);
    assert("index"@.len() == 5);
    assert("name"@[0] == 'n');
    assert("args"@[0] == 'a');
    assert(is_event(OutView::Frame(call_frame(c, name, round)), "tool_call"@, d));
}

/// A call of an agent that is there is announced and run; the announcement is all that
/// is sent before its result.
pub proof fn law_known_agent_is_run(st: LoopView)
    requires
        running(st),
        st.names.contains(st.calls[st.at].name->0),
    ensures
        ({
            let s = run_calls(st);
            let c = st.calls[st.at];
            &&& s.next is Invoke && s.next->name == c.name->0
            &&& s.state == st
            &&& s.out == seq![OutView::Frame(call_frame(c, c.name->0, st.round))]
        }),
{
}

/// How the rounds go: the first answer is there already, the model is asked anew for the
/// others, and when they are used up the client is told so and the response ends.
pub proof fn law_rounds_follow_each_other(st: LoopView)
    requires
        0 <= st.round,
    ensures
        ({
            let s = step_of(st, HappenedView::Begin);
            &&& st.round == 0 && st.max > 0 ==> s.next is Drain && s.out.len() == 0
            &&& 0 < st.round < st.max ==> s.next == NextView::Open(json::json_text(st.body))
                && s.out.len() == 0
            &&& st.round < st.max ==> s.state == (LoopView { round: st.round + 1, ..st })
            &&& st.round >= st.max ==> {
                &&& s.next is Stop
                &&& s.out.len() == 2
                &&& exists|d: JsonView| #[trigger]
                    is_event(s.out[0], "error"@, d) && json::field(d, "error"@) == Some(
                        JsonView::Str("agent loop exceeded"@),
                    ) && json::field(d, "detail"@) == Some(
                        JsonView::Str(
                            "max tool rounds ("@ + text::digits(st.max as nat) + ") reached"@,
                        ),
                    )
                &&& s.out[1] == OutView::Frame("data: [DONE]\n\n"@)
            }
        }),
{
    let detail = "max tool rounds ("@ + text::digits(st.max as nat) + ") reached"@;
    let d = error_data("agent loop exceeded"@, detail);
    let s = step_of(st, HappenedView::Begin);
    if st.round >= st.max {
        reveal_strlit("error");
        reveal_strlit("detail");
        assert("error"@.len() == 5);
        assert("detail"@.len() == 6);
        assert(is_event(s.out[0], "error"@, d));
    }
}

/// An answer without calls ends the response, and so does a model that cannot be asked
/// or read: with what went wrong.
pub proof fn law_how_the_loop_ends(
    st: LoopView,
    t: Seq<char>,
    e: Seq<char>,
    status: u16,
    body: Seq<char>,
)
    ensures
        ({
            let s = step_of(st, HappenedView::Drained { text: t, calls: Seq::empty() });
            s.next is Stop && s.out == seq![OutView::Frame("data: [DONE]\n\n"@)] && s.state == st
        }),
        forall|calls: Seq<CallView>| calls.len() > 0 && llm_prompt::messages_of(st.body) is None ==> {
            let s = #[trigger] step_of(st, HappenedView::Drained { text: t, calls });
            s.next is Stop && s.out == seq![OutView::Fail("internal: body has no messages array"@)]
        },
        ({
            let s = step_of(st, HappenedView::ReadFailed(e));
            s.next is Stop && s.out == seq![OutView::Fail("upstream read failed: "@ + e)]
        }),
        ({
            let s = step_of(st, HappenedView::ConnectFailed(e));
            s.next is Stop && s.out == seq![OutView::Fail("upstream connect failed: "@ + e)]
        }),
        ({
            let s = step_of(st, HappenedView::Connected);
            s.next is Drain && s.out.len() == 0 && s.state == st
        }),
        ({
            let s = step_of(st, HappenedView::Refused { status, body });
            &&& s.next is Stop && s.out.len() == 2
            &&& exists|d: JsonView| #[trigger]
                is_event(s.out[0], "error"@, d) && json::field(d, "error"@) == Some(
                    JsonView::Str("upstream error"@),
                ) && json::field(d, "detail"@) == Some(
                    JsonView::Str(
                        "status "@ + http::status_text(http::valid_status(status)) + ": "@ + body,
                    ),
                )
            &&& s.out[1] == OutView::Frame("data: [DONE]\n\n"@)
        }),
{
    let detail = "status "@ + http::status_text(http::valid_status(status)) + ": "@ + body;
    let d = error_data("upstream error"@, detail);
    reveal_strlit("error");
    reveal_strlit("detail");
    assert("error"@.len() == 5);
    assert("detail"@.len() == 6);
    let s = step_of(st, HappenedView::Refused { status, body });
    assert(is_event(s.out[0], "error"@, d));
}

/// A piece of a call adds to the call at its place and to no other: an id or a name
/// that it carries replaces the one before, and its arguments are put after those that
/// have come.
pub proof fn law_pieces_add_up(m: Map<u32, CallView>, tc: JsonView, i: int, other: u32)
    requires
        0 <= i <= u32::MAX,
        json::field(tc, "index"@) == Some(JsonView::Num(NumView::Int(i))),
    ensures
        ({
            let after = add_piece(m, tc);
            let c = after[i as u32];
            let f = json::field(tc, "function"@);
            let args = json::str_of(json::field(f->0, "arguments"@));
            let name = json::str_of(json::field(f->0, "name"@));
            let id = json::str_of(json::field(tc, "id"@));
            let old = if m.dom().contains(i as u32) {
                m[i as u32]
            } else {
                CallView { id: Seq::empty(), name: None, arguments: Seq::empty() }
            };
            &&& after.dom() == m.dom().insert(i as u32)
            &&& other != i && m.dom().contains(other) ==> after[other] == m[other]
            &&& f is Some && args is Some ==> c.arguments == old.arguments + args->0
            &&& f is None || args is None ==> c.arguments == old.arguments
            &&& f is Some && name is Some ==> c.name == name
            &&& f is None || name is None ==> c.name == old.name
            &&& id is Some ==> c.id == id->0
            &&& id is None ==> c.id == old.id
        }),
{
    assert(i % 0x1_0000_0000 == i);
    assert(add_piece(m, tc).dom() =~= m.dom().insert(i as u32));
}

/// Pieces that come in two messages add up as if they had come in one.
pub proof fn law_messages_add_up(m: Map<u32, CallView>, a: Seq<JsonView>, b: Seq<JsonView>)
    ensures
        add_delta(add_delta(m, JsonView::Array(a)), JsonView::Array(b)) == add_delta(
            m,
            JsonView::Array(a + b),
        ),
        add_delta(m, JsonView::Array(Seq::empty())) == m,
        add_delta(m, JsonView::Null) == m,
    decreases b.len(),
{
    if b.len() == 0 {
        assert(a + b =~= a);
    } else {
        law_messages_add_up(m, a, b.drop_last());
        assert((a + b).drop_last() =~= a + b.drop_last());
        assert((a + b).last() == b.last());
    }
}

/// What is collected of a choice: its text is put after the text so far, and the pieces
/// of its calls are added.
pub proof fn law_choice_adds_text_and_calls(r: RoundView, choice: JsonView, delta: JsonView)
    requires
        json::field(choice, "delta"@) == Some(delta),
    ensures
        ({
            let after = add_choice(r, choice);
            let t = json::str_of(json::field(delta, "content"@));
            &&& t is Some ==> after.text == r.text + t->0
            &&& t is None ==> after.text == r.text
            &&& json::field(delta, "tool_calls"@) is Some ==> after.calls == add_delta(
                r.calls,
                json::field(delta, "tool_calls"@)->0,
            )
            &&& json::field(delta, "tool_calls"@) is None ==> after.calls == r.calls
        }),
        forall|x: JsonView, m: JsonView|
            json::field(m, "choices"@) == Some(JsonView::Array(seq![x])) ==> #[trigger] add_message(
                r,
                m,
            ) == #[trigger] add_choice(r, x),
{
    assert forall|x: JsonView, m: JsonView|
        json::field(m, "choices"@) == Some(JsonView::Array(seq![x])) implies #[trigger] add_message(
        r,
        m,
    ) == #[trigger] add_choice(r, x) by {
        reveal_with_fuel(add_choices, 2);
        assert(seq![x].drop_last() =~= Seq::<JsonView>::empty());
    }
}

/// The calls come out by rising place, each once.
pub proof fn law_calls_come_by_rising_place(m: Map<u32, CallView>, places: Seq<u32>)
    requires
        forall|a: int, b: int| 0 <= a < b < places.len() ==> places[a] < places[b],
        places.to_set() == m.dom(),
    ensures
        in_order(m).len() == places.len(),
        forall|i: int| 0 <= i < places.len() ==> #[trigger] in_order(m)[i] == m[places[i]],
{
    lemma_ordered(m, places, 0x1_0000_0000, places.len() as int);
    assert(places.take(places.len() as int) =~= places);
}

/// The names for the log are those of the calls in order.
pub proof fn law_log_names_the_calls(s: Seq<CallView>, i: int)
    requires
        0 <= i < s.len(),
    ensures
        call_names(s).len() == s.len(),
        s[i].name is Some ==> call_names(s)[i] == s[i].name->0,
        s[i].name is None ==> call_names(s)[i] == "<unknown>"@,
{
}

/// The end of a stream is known by its data alone, with white space around it or not.
pub proof fn law_end_is_known(d: Seq<char>)
    ensures
        is_done(d) <==> text::trim(d) == "[DONE]"@,
        is_done("[DONE]"@),
        done_frame() == "data: [DONE]\n\n"@,
{
    lemma_end_frame();
    reveal_strlit("[DONE]");
    text::law_trim_takes_only_outer_white("[DONE]"@);
    assert("[DONE]"@[0] == '[' && "[DONE]"@[5] == ']' && "[DONE]"@.len() == 6);
}

} // verus!
