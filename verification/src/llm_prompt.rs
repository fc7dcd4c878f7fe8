//! The server's own system prompt.
//!
//! The prompt that the operator configures, or the built-in one where none is,
//! comes first in every conversation; what the browser adds stands after it. A
//! prompt of white space alone is none.

use vstd::prelude::*;

use crate::json;
use crate::json::{Json, JsonView};
use crate::text;

verus! {

/// The prompt where none is configured.
pub const DEFAULT_SYSTEM_PROMPT: &'static str = "\
You are nagent, a local, privacy-respecting assistant embedded in a \
speech-to-text and chat web app.

You have access to the following tool agents when the server has them \
enabled:
- get_datetime: current date and time, optionally in an IANA timezone \
(for example \"Europe/Paris\").
- get_weather: current weather, multi-day forecast, hourly data and \
astronomy for a location. The chat UI renders a structured weather card \
from the tool's JSON response; the assistant's prose should be a brief \
acknowledgment in the user's language (\"Voici les informations \
demandées.\" / \"Here are the details.\") and NOTHING ELSE — the card \
already shows temperature, condition, wind, humidity, UV and the 3-day \
strip, so do not re-state any of those fields in prose.
- get_stock_quote: latest stock quote for a ticker symbol.
- web_fetch: fetch a public URL and return its main text as Markdown.

Tool-usage rules:
- NEVER invent specific factual data: weather, current date or time, \
stock prices, or the content of a fetched URL. For these domains you \
either call the matching tool or you say you cannot answer. Guessing \
is a regression that breaks user trust. \
\
The earlier \"answer directly from general knowledge\" rule below is \
overridden for these domains only.
- Whenever the user's request is time-sensitive (\"today\", \"this week\", \
\"latest\", a past date, a forecast, a stock price), call `get_datetime` \
FIRST to learn the current date and time before invoking any other \
tool. The local model has no internal clock and stale context will \
produce wrong answers.
- When calling `get_weather` with an explicit date, build the YYYY-MM-DD \
argument from the value returned by `get_datetime`; never invent a \
date. The tool may also be called without a date for current conditions.
- If a tool call fails or returns an error, surface that to the user \
verbatim rather than substituting a plausible-sounding answer from \
memory.
- For domains outside the tool list (general knowledge, reasoning, \
writing, code), answer directly as before. Do not call tools when the \
user has not asked for live, factual, or externally-sourced data.

Formatting:
- Reply in the language the user wrote in.
- Use Markdown. Inline math in $...$ and block math in $$...$$ are \
rendered with KaTeX.
- Keep answers concise unless the user explicitly asks for more detail.";

/// What a browser-made location message begins with.
pub const USER_LOCATION_MARKER: &'static str = "User's approximate location:";

/// `v` with the member `name`, when it is an object.
pub open spec fn with_member(v: JsonView, name: Seq<char>, value: JsonView) -> JsonView {
    match v {
        JsonView::Object(m) => JsonView::Object(m.insert(name, value)),
        other => other,
    }
}

/// A message of the conversation.
pub open spec fn message(role: Seq<char>, content: Seq<char>) -> JsonView {
    JsonView::Object(
        map!["role"@ => JsonView::Str(role), "content"@ => JsonView::Str(content)],
    )
}

/// The messages of a request body.
pub open spec fn messages_of(body: JsonView) -> Option<Seq<JsonView>> {
    json::items_of(json::field(body, "messages"@))
}

/// The body with the prompt, without its outer white space, before all other
/// messages. Without a prompt that says something, or without messages,
/// nothing changes.
pub open spec fn prompted(body: JsonView, prompt: Option<Seq<char>>) -> JsonView {
    match prompt {
        Some(p) => match messages_of(body) {
            Some(ms) => if text::trim(p).len() > 0 {
                with_member(
                    body,
                    "messages"@,
                    JsonView::Array(seq![message("system"@, text::trim(p))] + ms),
                )
            } else {
                body
            },
            None => body,
        },
        None => body,
    }
}

/// Whether a message is a location that the browser put in: a system message
/// whose content is a text that begins with the marker.
pub open spec fn is_location(m: JsonView) -> bool {
    &&& json::str_of(json::field(m, "role"@)) == Some("system"@)
    &&& match json::str_of(json::field(m, "content"@)) {
        Some(c) => text::starts_with(c, USER_LOCATION_MARKER@),
        None => false,
    }
}

/// The body without location messages, unless they are allowed.
pub open spec fn without_location(body: JsonView, allow: bool) -> JsonView {
    match messages_of(body) {
        Some(ms) => if allow {
            body
        } else {
            with_member(
                body,
                "messages"@,
                JsonView::Array(ms.filter(|m: JsonView| !is_location(m))),
            )
        },
        None => body,
    }
}

/// Build a message.
pub fn new_message(role: &str, content: &str) -> (r: Json)
    ensures
        r@ == message(role@, content@),
{
    let mut m = Json::object();
    m.set("role", Json::text(role));
    m.set("content", Json::text(content));
    m
}

/// Put the operator's prompt before all messages.
pub fn inject_default_system_prompt(body: &mut Json, prompt: Option<&str>)
    ensures
        final(body)@ == prompted(
            old(body)@,
            match prompt {
                Some(p) => Some(p@),
                None => None,
            },
        ),
{
    let p = match prompt {
        Some(p) => p,
        None => {
            return ;
        },
    };
    let trimmed = text::trimmed(p);
    if trimmed.as_str().is_empty() {
        return ;
    }
    let mut all: Vec<Json> = Vec::new();
    {
        let ms: &Vec<Json> = match body.get("messages") {
            Some(m) => match m.as_array() {
                Some(a) => a,
                None => {
                    return ;
                },
            },
            None => {
                return ;
            },
        };
        let ghost mv = json::items_view(ms@, ms@.len());
        let first = new_message("system", trimmed.as_str());
        let ghost head = first@;
        all.push(first);
        let mut i: usize = 0;
        proof {
            json::lemma_items(ms@, ms@.len());
            reveal_with_fuel(json::items_view, 2);
            assert(json::items_view(all@, 1) == seq![head] + mv.take(0));
        }
        while i < ms.len()
            invariant
                i <= ms.len(),
                all@.len() == i + 1,
                mv == json::items_view(ms@, ms@.len()),
                mv.len() == ms@.len(),
                forall|k: int| 0 <= k < ms@.len() ==> mv[k] == (#[trigger] ms@[k])@,
                json::items_view(all@, all@.len()) == seq![head] + mv.take(i as int),
            decreases ms.len() - i,
        {
            let ghost before = all@;
            all.push(ms[i].copy());
            proof {
                json::lemma_items_prefix(before, all@, before.len());
                assert(mv.take(i + 1) == mv.take(i as int).push(mv[i as int]));
            }
            i += 1;
        }
        assert(mv.take(i as int) == mv);
    }
    body.set("messages", Json::Array(all));
}

// ---- Laws ---------------------------------------------------------------

/// A message says who speaks and what.
pub proof fn law_message_says_who_and_what(role: Seq<char>, content: Seq<char>)
    ensures
        json::field(message(role, content), "role"@) == Some(JsonView::Str(role)),
        json::field(message(role, content), "content"@) == Some(JsonView::Str(content)),
{
    reveal_strlit("role");
    reveal_strlit("content");
    assert("role"@.len() == 4);
    assert("content"@.len() == 7);
}

/// A prompt that is not blank comes before the messages of a conversation, which all stay
/// as they are; without a prompt nothing changes, and nothing but the messages ever does.
pub proof fn law_prompt_is_put_first(body: JsonView, ms: Seq<JsonView>, p: Seq<char>)
    requires
        json::field(body, "messages"@) == Some(JsonView::Array(ms)),
    ensures
        prompted(body, None) == body,
        text::trim(p).len() == 0 ==> prompted(body, Some(p)) == body,
        text::trim(p).len() > 0 ==> {
            let after = json::field(prompted(body, Some(p)), "messages"@);
            &&& after is Some && after->0 is Array
            &&& after->0->Array_0.len() == ms.len() + 1
            &&& json::field(after->0->Array_0[0], "role"@) == Some(JsonView::Str("system"@))
            &&& json::field(after->0->Array_0[0], "content"@) == Some(
                JsonView::Str(text::trim(p)),
            )
            &&& after->0->Array_0.skip(1) == ms
        },
        forall|name: Seq<char>|
            name != "messages"@ ==> #[trigger] json::field(prompted(body, Some(p)), name)
                == json::field(body, name),
{
    law_message_says_who_and_what("system"@, text::trim(p));
    let all = seq![message("system"@, text::trim(p))] + ms;
    assert(all.skip(1) =~= ms);
    assert(all[0] == message("system"@, text::trim(p)));
}

/// What counts as the user's location: a message of the system that begins with the
/// words for it.
pub proof fn law_what_is_a_location(m: JsonView, c: Seq<char>)
    requires
        json::field(m, "content"@) == Some(JsonView::Str(c)),
    ensures
        is_location(m) <==> json::field(m, "role"@) == Some(JsonView::Str("system"@))
            && text::starts_with(c, "User's approximate location:"@),
{
}

/// Where locations are allowed, nothing is taken away; else only messages are.
pub proof fn law_locations_stay_where_allowed(body: JsonView)
    ensures
        without_location(body, true) == body,
        forall|name: Seq<char>|
            name != "messages"@ ==> #[trigger] json::field(without_location(body, false), name)
                == json::field(body, name),
{
}

} // verus!
