//! The agent that fetches a web page and hands its text to the model.
//!
//! The address is the model's, so nothing is fetched but what the policy
//! admits: a host on the list of the operator, or, without a list, a host all of
//! whose addresses are public where public addresses are admitted. A response is
//! read up to a budget of bytes, which doubles when the page is larger, up to the
//! server's own limit.

use vstd::prelude::*;

use crate::agents;
use crate::agents::html;
use crate::agents::{AgentError, AgentInfo, AgentView, ErrorView};
use crate::backend;
use crate::config::WebFetchConfig;
use crate::http;
use crate::json;
use crate::json::{Json, JsonView, NumView};
use crate::net::{Endpoint, Ip};
use crate::sse;
use crate::text;

verus! {

/// How many bytes of a page's text are kept.
pub const MAX_TEXT_CHARS: usize = 102400;

/// How many bytes of an error page are kept.
pub const MAX_ERROR_CHARS: usize = 2048;

/// The smallest budget, in bytes.
pub const MIN_BUDGET: usize = 1024;

/// The shortest timeout, in milliseconds.
pub const MIN_TIMEOUT_MS: u64 = 1000;

// ---- Addresses ----------------------------------------------------------

/// Whether an IPv4 address can be one of the open internet: not this machine,
/// its link or its network, not one of a carrier's own, not of a group.
pub open spec fn public_v4(a: u8, b: u8, c: u8, d: u8) -> bool {
    &&& a != 127
    &&& !(a == 169 && b == 254)
    &&& a != 0
    &&& !(a == 100 && 64 <= b <= 127)
    &&& a != 10
    &&& !(a == 172 && 16 <= b <= 31)
    &&& !(a == 192 && b == 168)
    &&& !(224 <= a <= 239)
    &&& !(a == 255 && b == 255 && c == 255 && d == 255)
}

/// Whether an address can be one of the open internet. An IPv6 address that
/// stands for an IPv4 address is judged as that.
pub open spec fn public(ip: Ip) -> bool {
    match ip {
        Ip::V4(a, b, c, d) => public_v4(a, b, c, d),
        Ip::V6(a, b, c, d, e, f, g, h) => {
            let low = b == 0 && c == 0 && d == 0 && e == 0;
            &&& !(a == 0 && low && f == 0 && g == 0 && h <= 1)
            &&& !(0xfe80 <= a <= 0xfebf)
            &&& !(0xfc00 <= a <= 0xfdff)
            &&& !(a >= 0xff00)
            &&& (a == 0 && low && f == 0xffff) ==> public_v4(
                (g / 256) as u8,
                (g % 256) as u8,
                (h / 256) as u8,
                (h % 256) as u8,
            )
        },
    }
}

/// Whether an IPv4 address may be fetched from.
pub fn is_v4_allowed(a: u8, b: u8, c: u8, d: u8, allow_public: bool) -> (r: bool)
    ensures
        r == (allow_public && public_v4(a, b, c, d)),
{
    if a == 127 || (a == 169 && b == 254) || a == 0 {
        return false;
    }
    if a == 100 && 64 <= b && b <= 127 {
        return false;
    }
    if a == 10 || (a == 172 && 16 <= b && b <= 31) || (a == 192 && b == 168) {
        return false;
    }
    if (224 <= a && a <= 239) || (a == 255 && b == 255 && c == 255 && d == 255) {
        return false;
    }
    allow_public
}

/// Whether the IPv6 address of these segments may be fetched from.
pub fn is_v6_allowed(
    a: u16,
    b: u16,
    c: u16,
    d: u16,
    e: u16,
    f: u16,
    g: u16,
    h: u16,
    allow_public: bool,
) -> (r: bool)
    ensures
        r == (allow_public && public(Ip::V6(a, b, c, d, e, f, g, h))),
{
    let low = b == 0 && c == 0 && d == 0 && e == 0;
    if a == 0 && low && f == 0 && g == 0 && h <= 1 {
        return false;
    }
    if (0xfe80 <= a && a <= 0xfebf) || (0xfc00 <= a && a <= 0xfdff) || a >= 0xff00 {
        return false;
    }
    if a == 0 && low && f == 0xffff {
        return is_v4_allowed(
            (g / 256) as u8,
            (g % 256) as u8,
            (h / 256) as u8,
            (h % 256) as u8,
            allow_public,
        );
    }
    allow_public
}

/// Whether an address may be fetched from.
pub fn is_addr_allowed(ip: Ip, allow_public: bool) -> (r: bool)
    ensures
        r == (allow_public && public(ip)),
{
    match ip {
        Ip::V4(a, b, c, d) => is_v4_allowed(a, b, c, d, allow_public),
        Ip::V6(a, b, c, d, e, f, g, h) => is_v6_allowed(a, b, c, d, e, f, g, h, allow_public),
    }
}

// ---- The list of hosts --------------------------------------------------

/// Whether an entry of the list covers a host, both in lower case: `*` covers
/// every host, `*.name` covers `name` and what ends in `.name`, anything else
/// covers itself.
pub open spec fn entry_covers(entry: Seq<char>, host: Seq<char>) -> bool {
    if entry == "*"@ {
        true
    } else if text::starts_with(entry, "*."@) {
        let name = entry.skip("*."@.len() as int);
        host == name || text::ends_with(host, "."@ + name)
    } else {
        host == entry
    }
}

/// Whether the list covers a host, whatever the case of either.
pub open spec fn listed(host: Seq<char>, list: Seq<Seq<char>>) -> bool {
    exists|i: int|
        0 <= i < list.len() && entry_covers(#[trigger] text::lower(list[i]), text::lower(host))
}

/// Whether an entry covers a host, both in lower case.
fn covers(entry: &str, host: &str) -> (r: bool)
    ensures
        r == entry_covers(entry@, host@),
{
    if text::same(entry, "*") {
        return true;
    }
    if text::begins(entry, "*.") {
        let v = text::chars_of(entry);
        proof {
            reveal_strlit("*.");
        }
        let name = text::string_of(v.as_slice(), 2, v.len());
        assert(name@ == entry@.skip("*."@.len() as int));
        if text::same(host, name.as_str()) {
            return true;
        }
        let dotted = text::own(".").concat(name.as_str());
        text::ends(host, dotted.as_str())
    } else {
        text::same(host, entry)
    }
}

/// Whether the list covers a host.
pub fn host_matches_allowlist(host: &str, allowlist: &Vec<String>) -> (r: bool)
    ensures
        r == listed(host@, text::texts(allowlist@)),
{
    let ghost list = text::texts(allowlist@);
    let host_lc = text::to_lower(host);
    let mut i: usize = 0;
    while i < allowlist.len()
        invariant
            i <= allowlist.len(),
            list == text::texts(allowlist@),
            host_lc@ == text::lower(host@),
            forall|k: int|
                0 <= k < i ==> !entry_covers(#[trigger] text::lower(list[k]), text::lower(host@)),
        decreases allowlist.len() - i,
    {
        let entry = text::to_lower(allowlist[i].as_str());
        assert(entry@ == text::lower(list[i as int]));
        if covers(entry.as_str(), host_lc.as_str()) {
            return true;
        }
        i += 1;
    }
    false
}

// ---- Arguments ----------------------------------------------------------

/// What the model asked for.
#[derive(Debug, Clone, PartialEq, Eq)]
pub struct FetchArgs {
    pub url: String,
    pub max_bytes: Option<usize>,
    pub timeout_ms: Option<u64>,
}

/// What the model asked for, as values.
pub struct FetchArgsView {
    pub url: Seq<char>,
    pub max_bytes: Option<usize>,
    pub timeout_ms: Option<u64>,
}

impl View for FetchArgs {
    type V = FetchArgsView;

    open spec fn view(&self) -> FetchArgsView {
        FetchArgsView {
            url: self.url@,
            max_bytes: self.max_bytes,
            timeout_ms: self.timeout_ms,
        }
    }
}

/// What the arguments of a call ask for. A limit that is no natural number counts
/// as not given.
pub open spec fn args_of(v: JsonView) -> Result<FetchArgsView, ErrorView> {
    if !(v is Object) {
        Err(ErrorView::InvalidArguments("arguments must be a JSON object"@))
    } else {
        match json::str_of(json::field(v, "url"@)) {
            None => Err(ErrorView::InvalidArguments("`url` (string) is required"@)),
            Some(url) => Ok(
                FetchArgsView {
                    url,
                    max_bytes: match json::int_of(
                        json::field(v, "max_bytes"@),
                        0,
                        u64::MAX as int,
                    ) {
                        Some(n) => Some((n as u64) as usize),
                        None => None,
                    },
                    timeout_ms: match json::int_of(
                        json::field(v, "timeout_ms"@),
                        0,
                        u64::MAX as int,
                    ) {
                        Some(n) => Some(n as u64),
                        None => None,
                    },
                },
            ),
        }
    }
}

/// The member `name` of the arguments as a natural number.
fn natural(args: &Json, name: &str) -> (r: Option<u64>)
    ensures
        match r {
            Some(n) => json::int_of(json::field(args@, name@), 0, u64::MAX as int) == Some(
                n as int,
            ),
            None => json::int_of(json::field(args@, name@), 0, u64::MAX as int) is None,
        },
{
    match args.get(name) {
        Some(j) => j.as_u64(),
        None => None,
    }
}

/// What the arguments of a call ask for.
pub fn parse_args(args: &Json) -> (r: Result<FetchArgs, AgentError>)
    ensures
        match r {
            Ok(a) => args_of(args@) == Ok::<FetchArgsView, ErrorView>(a@),
            Err(e) => args_of(args@) == Err::<FetchArgsView, ErrorView>(e@),
        },
{
    if !args.is_object() {
        return Err(AgentError::InvalidArguments(text::own("arguments must be a JSON object")));
    }
    let url = match args.get("url") {
        Some(j) => match j.as_str() {
            Some(s) => text::own(s),
            None => {
                return Err(AgentError::InvalidArguments(text::own("`url` (string) is required")));
            },
        },
        None => {
            return Err(AgentError::InvalidArguments(text::own("`url` (string) is required")));
        },
    };
    let max_bytes: Option<usize> = match natural(args, "max_bytes") {
        Some(n) => Some(n as usize),
        None => None,
    };
    let timeout_ms = natural(args, "timeout_ms");
    Ok(FetchArgs { url, max_bytes, timeout_ms })
}

// ---- The address --------------------------------------------------------

/// The parts of an address that a fetch needs.
#[derive(Debug, Clone, PartialEq, Eq)]
pub struct UrlParts {
    pub scheme: String,
    pub host: Option<String>,
    /// The port, or the usual one of the scheme.
    pub port: Option<u16>,
    /// The address in its normal form.
    pub text: String,
}

/// The parts of an address, as values.
pub struct UrlView {
    pub scheme: Seq<char>,
    pub host: Option<Seq<char>>,
    pub port: Option<u16>,
    pub text: Seq<char>,
}

impl View for UrlParts {
    type V = UrlView;

    open spec fn view(&self) -> UrlView {
        UrlView {
            scheme: self.scheme@,
            host: text::opt_text(self.host),
            port: self.port,
            text: self.text@,
        }
    }
}

/// An address that was read, or why it could not be, as values.
pub open spec fn parts_view(r: Result<UrlParts, String>) -> Result<UrlView, Seq<char>> {
    match r {
        Ok(u) => Ok(u@),
        Err(e) => Err(e@),
    }
}

/// What `url::Url::parse` makes of a text: scheme, host, port and normal form, or
/// the text of its error.
pub uninterp spec fn url_parts(s: Seq<char>) -> Result<UrlView, Seq<char>>;

/// `url::Url::parse`, and of its result `scheme`, `host_str`,
/// `port_or_known_default` and `as_str`, or the error's text. All of it depends on
/// the text alone.
#[verifier::external_body]
fn parse_url(s: &str) -> (r: Result<UrlParts, String>)
    ensures
        parts_view(r) == url_parts(s@),
{
    match url::Url::parse(s) {
        Ok(u) => Ok(
            UrlParts {
                scheme: u.scheme().to_string(),
                host: u.host_str().map(|h| h.to_string()),
                port: u.port_or_known_default(),
                text: u.as_str().to_string(),
            },
        ),
        Err(e) => Err(e.to_string()),
    }
}

/// What is to be fetched, and how.
#[derive(Debug, Clone, PartialEq, Eq)]
pub struct FetchPlan {
    pub url: String,
    pub host: String,
    pub port: u16,
    /// Whether the host is on the operator's list.
    pub on_list: bool,
    /// How many bytes the first attempt reads.
    pub budget: usize,
    pub timeout_ms: u64,
}

/// What is to be fetched, as values.
pub struct PlanView {
    pub url: Seq<char>,
    pub host: Seq<char>,
    pub port: u16,
    pub on_list: bool,
    pub budget: usize,
    pub timeout_ms: u64,
}

impl View for FetchPlan {
    type V = PlanView;

    open spec fn view(&self) -> PlanView {
        PlanView {
            url: self.url@,
            host: self.host@,
            port: self.port,
            on_list: self.on_list,
            budget: self.budget,
            timeout_ms: self.timeout_ms,
        }
    }
}

/// The smaller of what was asked for and the server's limit, but not below
/// `least`.
pub open spec fn clamp(asked: Option<int>, limit: int, least: int) -> int {
    let a = match asked {
        Some(n) => n,
        None => limit,
    };
    let m = if a < limit {
        a
    } else {
        limit
    };
    if m < least {
        least
    } else {
        m
    }
}

/// The first budget.
pub open spec fn first_budget(asked: Option<usize>, cap: usize) -> usize {
    clamp(
        match asked {
            Some(n) => Some(n as int),
            None => None,
        },
        cap as int,
        MIN_BUDGET as int,
    ) as usize
}

/// The timeout of an attempt.
pub open spec fn timeout_for(asked: Option<u64>, limit: u64) -> u64 {
    clamp(
        match asked {
            Some(n) => Some(n as int),
            None => None,
        },
        limit as int,
        MIN_TIMEOUT_MS as int,
    ) as u64
}

/// What is to be fetched for given arguments, once their address has been read.
/// Only `http` and `https` are fetched, and, where the operator has a list, only
/// from the hosts on it.
pub open spec fn plan_of(
    cfg: WebFetchConfig,
    args: FetchArgsView,
    url: Result<UrlView, Seq<char>>,
) -> Result<PlanView, ErrorView> {
    match url {
        Err(e) => Err(ErrorView::InvalidArguments("url parse: "@ + e)),
        Ok(u) => if u.scheme != "http"@ && u.scheme != "https"@ {
            Err(
                ErrorView::InvalidArguments(
                    "unsupported scheme `"@ + u.scheme + "` (only http and https are accepted)"@,
                ),
            )
        } else {
            match u.host {
                None => Err(ErrorView::InvalidArguments("url has no host"@)),
                Some(host) => if cfg.allowlist@.len() > 0 && !listed(
                    host,
                    text::texts(cfg.allowlist@),
                ) {
                    Err(
                        ErrorView::SandboxDenied(
                            "host `"@ + host + "` is not in WEB_FETCH_ALLOWLIST"@,
                        ),
                    )
                } else {
                    Ok(
                        PlanView {
                            url: u.text,
                            host,
                            port: match u.port {
                                Some(p) => p,
                                None => 443,
                            },
                            on_list: cfg.allowlist@.len() > 0,
                            budget: first_budget(args.max_bytes, cfg.max_bytes),
                            timeout_ms: timeout_for(args.timeout_ms, cfg.timeout_ms),
                        },
                    )
                },
            }
        },
    }
}

/// What the agent does first with the arguments of a call.
pub open spec fn begun(cfg: WebFetchConfig, v: JsonView) -> Result<PlanView, ErrorView> {
    match args_of(v) {
        Err(e) => Err(e),
        Ok(a) => plan_of(cfg, a, url_parts(a.url)),
    }
}

/// A plan or an error, as values.
pub open spec fn plan_view(r: Result<FetchPlan, AgentError>) -> Result<PlanView, ErrorView> {
    match r {
        Ok(p) => Ok(p@),
        Err(e) => Err(e@),
    }
}

/// The agent.
#[derive(Debug)]
pub struct WebFetchAgent {
    pub cfg: WebFetchConfig,
}

impl WebFetchAgent {
    /// The agent with its policy.
    pub fn new(cfg: WebFetchConfig) -> (r: Self)
        ensures
            r.cfg == cfg,
    {
        WebFetchAgent { cfg }
    }

    /// How long a connection may take to open, in milliseconds.
    pub fn connect_timeout_ms(&self) -> (r: u64)
        ensures
            r == timeout_for(None, self.cfg.timeout_ms),
    {
        if self.cfg.timeout_ms < MIN_TIMEOUT_MS {
            MIN_TIMEOUT_MS
        } else {
            self.cfg.timeout_ms
        }
    }

    /// What is to be fetched for given arguments, once their address has been
    /// read.
    pub fn plan(&self, args: &FetchArgs, url: Result<UrlParts, String>) -> (r: Result<
        FetchPlan,
        AgentError,
    >)
        ensures
            plan_view(r) == plan_of(self.cfg, args@, parts_view(url)),
    {
        let u = match url {
            Ok(u) => u,
            Err(e) => {
                let m = text::own("url parse: ").concat(e.as_str());
                return Err(AgentError::InvalidArguments(m));
            },
        };
        if !text::same(u.scheme.as_str(), "http") && !text::same(u.scheme.as_str(), "https") {
            let mut m = text::own("unsupported scheme `");
            m.append(u.scheme.as_str());
            m.append("` (only http and https are accepted)");
            return Err(AgentError::InvalidArguments(m));
        }
        let host = match u.host {
            Some(h) => h,
            None => {
                return Err(AgentError::InvalidArguments(text::own("url has no host")));
            },
        };
        let has_list = self.cfg.allowlist.len() > 0;
        if has_list && !host_matches_allowlist(host.as_str(), &self.cfg.allowlist) {
            let mut m = text::own("host `");
            m.append(host.as_str());
            m.append("` is not in WEB_FETCH_ALLOWLIST");
            return Err(AgentError::SandboxDenied(m));
        }
        let port: u16 = match u.port {
            Some(p) => p,
            None => 443,
        };
        let asked: usize = match args.max_bytes {
            Some(n) => n,
            None => self.cfg.max_bytes,
        };
        let within: usize = if asked < self.cfg.max_bytes {
            asked
        } else {
            self.cfg.max_bytes
        };
        let budget: usize = if within < MIN_BUDGET {
            MIN_BUDGET
        } else {
            within
        };
        let asked_ms: u64 = match args.timeout_ms {
            Some(n) => n,
            None => self.cfg.timeout_ms,
        };
        let within_ms: u64 = if asked_ms < self.cfg.timeout_ms {
            asked_ms
        } else {
            self.cfg.timeout_ms
        };
        let timeout_ms: u64 = if within_ms < MIN_TIMEOUT_MS {
            MIN_TIMEOUT_MS
        } else {
            within_ms
        };
        Ok(FetchPlan { url: u.text, host, port, on_list: has_list, budget, timeout_ms })
    }

    /// What the agent does first with the arguments of a call.
    pub fn begin(&self, args: &Json) -> (r: Result<FetchPlan, AgentError>)
        ensures
            plan_view(r) == begun(self.cfg, args@),
    {
        match parse_args(args) {
            Ok(a) => {
                let u = parse_url(a.url.as_str());
                self.plan(&a, u)
            },
            Err(e) => Err(e),
        }
    }
}

// ---- What a page becomes ------------------------------------------------

/// The first bytes of a text, as many as make up whole characters, with a mark
/// when something was left out.
pub open spec fn cut(s: Seq<char>, max: int) -> Seq<char> {
    if text::utf8(s).len() <= max {
        s
    } else {
        s.take(text::fit(s, max)) + "\n…[truncated]"@
    }
}

/// The first bytes of a text.
pub fn truncate(s: &str, max_chars: usize) -> (r: String)
    ensures
        r@ == cut(s@, max_chars as int),
{
    if text::byte_len(s) <= max_chars {
        return text::own(s);
    }
    text::prefix_within(s, max_chars).concat("\n…[truncated]")
}

/// The number of bytes in a unit: one, or 1024 to the power `k`.
pub open spec fn unit_size(k: int) -> int {
    if k <= 0 {
        1
    } else if k == 1 {
        1024
    } else if k == 2 {
        1048576
    } else {
        1073741824
    }
}

/// The unit in which so many bytes are told.
pub open spec fn unit_of(m: int) -> int {
    if m < 1024 {
        0
    } else if m < 1048576 {
        1
    } else if m < 1073741824 {
        2
    } else {
        3
    }
}

/// The name of a unit.
pub open spec fn unit_name(k: int) -> Seq<char> {
    if k <= 0 {
        "B"@
    } else if k == 1 {
        "KB"@
    } else if k == 2 {
        "MB"@
    } else {
        "GB"@
    }
}

/// How a number of bytes is told: with one decimal, halves to the even digit.
/// Numbers beyond 53 bits are first taken to the nearest with that many.
pub open spec fn bytes_text(n: nat) -> Seq<char> {
    let m = backend::round_bits(n, 9007199254740992, 1);
    let k = unit_of(m);
    if k == 0 {
        text::digits(n) + " B"@
    } else {
        let tenths = backend::half_even(10 * m, unit_size(k));
        text::digits((tenths / 10) as nat) + "."@ + text::digits((tenths % 10) as nat) + " "@
            + unit_name(k)
    }
}

/// How a number of bytes is told.
pub fn format_bytes(n: usize) -> (r: String)
    ensures
        r@ == bytes_text(n as nat),
{
    let m: u128 = backend::round_significant(n as u64, 9007199254740992);
    if m < 1024 {
        return text::number(n as u64).concat(" B");
    }
    let size: u128;
    let name: &str;
    if m < 1048576 {
        size = 1024;
        name = "KB";
    } else if m < 1073741824 {
        size = 1048576;
        name = "MB";
    } else {
        size = 1073741824;
        name = "GB";
    }
    let q: u128 = (10 * m) / size;
    let rem: u128 = (10 * m) % size;
    let tenths: u128 = if 2 * rem < size || (2 * rem == size && q % 2 == 0) {
        q
    } else {
        q + 1
    };
    assert(tenths == backend::half_even(10 * m, size as int));
    let mut out = text::number((tenths / 10) as u64);
    out.append(".");
    text::push_digits(&mut out, (tenths % 10) as u64);
    out.append(" ");
    out.append(name);
    out
}

/// The parts of a page that came back.
pub struct PageView {
    pub url: Seq<char>,
    pub host: Seq<char>,
    pub status: u16,
    pub final_url: Seq<char>,
    pub content_type: Seq<char>,
    pub body: Seq<u8>,
}

/// Whether a content type speaks of HTML.
pub open spec fn is_html(content_type: Seq<char>) -> bool {
    text::contains(text::lower(content_type), "html"@)
}

/// The title of a page; only HTML has one.
pub open spec fn title_of(p: PageView) -> Seq<char> {
    if is_html(p.content_type) {
        html::page_title(sse::decoded(p.body))
    } else {
        Seq::empty()
    }
}

/// The text of a page.
pub open spec fn text_of(p: PageView) -> Seq<char> {
    if is_html(p.content_type) {
        html::page_text(sse::decoded(p.body))
    } else {
        sse::decoded(p.body)
    }
}

/// What the model is told of a page.
pub open spec fn page_data(p: PageView) -> JsonView {
    let title = title_of(p);
    let name = if title.len() == 0 {
        p.host
    } else {
        title
    };
    JsonView::Object(
        map![
            "url"@ => JsonView::Str(p.url),
            "final_url"@ => JsonView::Str(p.final_url),
            "status"@ => JsonView::Num(NumView::Int(p.status as int)),
            "title"@ => JsonView::Str(title),
            "content_type"@ => JsonView::Str(p.content_type),
            "summary"@ => JsonView::Str(name + " — "@ + bytes_text(p.body.len())),
            "text"@ => JsonView::Str(cut(text_of(p), MAX_TEXT_CHARS as int)),
        ],
    )
}

// ---- A fetch, step by step ----------------------------------------------

/// The budget after one that did not suffice: twice as much, at most the limit of
/// the server; nothing when that is no more.
pub open spec fn next_budget_of(budget: usize, cap: usize) -> Option<usize> {
    let doubled = if 2 * budget > usize::MAX {
        usize::MAX as int
    } else {
        2 * budget
    };
    let next = if doubled < cap {
        doubled
    } else {
        cap as int
    };
    if next <= budget {
        None
    } else {
        Some(next as usize)
    }
}

/// The budget after one that did not suffice.
pub fn next_budget(budget: usize, cap: usize) -> (r: Option<usize>)
    ensures
        r == next_budget_of(budget, cap),
{
    let doubled: usize = if budget > usize::MAX / 2 {
        usize::MAX
    } else {
        2 * budget
    };
    let next: usize = if doubled < cap {
        doubled
    } else {
        cap
    };
    if next <= budget {
        None
    } else {
        Some(next)
    }
}

/// The first address at or after `i` that may not be fetched from.
pub open spec fn first_denied(s: Seq<Ip>, allow_public: bool, i: int) -> Option<Ip>
    decreases s.len() - i,
{
    if i >= s.len() {
        None
    } else if !(allow_public && public(s[i])) {
        Some(s[i])
    } else {
        first_denied(s, allow_public, i + 1)
    }
}

/// What happened outside.
#[derive(Debug)]
pub enum Happened {
    /// The host has these addresses.
    Resolved(Vec<Ip>),
    /// The host could not be looked up.
    ResolveFailed(String),
    /// The request got no response.
    ConnectFailed(String),
    /// A response begins.
    Responded { status: u16, final_url: String, content_type: String },
    /// The whole text of a response that is no success.
    ErrorText(String),
    /// A piece of the body.
    Chunk(Vec<u8>),
    /// The body could not be read on.
    ReadFailed(String),
    /// The body has ended.
    Ended,
}

/// What is to be done outside.
#[derive(Debug)]
pub enum Todo {
    /// Send the request.
    Get,
    /// Read the whole response as text.
    ReadText,
    /// Read on in the body.
    ReadChunk,
    /// Hand this to the caller.
    Finish(Result<String, AgentError>),
}

/// What is to be done outside, as values.
pub enum TodoView {
    Get,
    ReadText,
    ReadChunk,
    Finish(Result<Seq<char>, ErrorView>),
}

impl View for Todo {
    type V = TodoView;

    open spec fn view(&self) -> TodoView {
        match *self {
            Todo::Get => TodoView::Get,
            Todo::ReadText => TodoView::ReadText,
            Todo::ReadChunk => TodoView::ReadChunk,
            Todo::Finish(r) => TodoView::Finish(agents::outcome(r)),
        }
    }
}

/// A fetch under way.
#[derive(Debug)]
pub struct FetchRun {
    plan: FetchPlan,
    allow_public: bool,
    cap: usize,
    budget: usize,
    status: u16,
    final_url: String,
    content_type: String,
    body: Vec<u8>,
}

/// A fetch under way, as values.
pub struct RunView {
    pub plan: PlanView,
    pub allow_public: bool,
    /// The server's limit on a response.
    pub cap: usize,
    /// How much of the response is read in this attempt.
    pub budget: usize,
    pub status: u16,
    pub final_url: Seq<char>,
    pub content_type: Seq<char>,
    pub body: Seq<u8>,
}

impl View for FetchRun {
    type V = RunView;

    closed spec fn view(&self) -> RunView {
        RunView {
            plan: self.plan@,
            allow_public: self.allow_public,
            cap: self.cap,
            budget: self.budget,
            status: self.status,
            final_url: self.final_url@,
            content_type: self.content_type@,
            body: self.body@,
        }
    }
}

/// A fetch that is about to look up its host.
pub open spec fn at_start(cfg: WebFetchConfig, plan: PlanView) -> RunView {
    RunView {
        plan,
        allow_public: cfg.allow_public,
        cap: cfg.max_bytes,
        budget: plan.budget,
        status: 0,
        final_url: Seq::empty(),
        content_type: Seq::empty(),
        body: Seq::empty(),
    }
}

/// The page that has come back.
pub open spec fn page_of(v: RunView) -> PageView {
    PageView {
        url: v.plan.url,
        host: v.plan.host,
        status: v.status,
        final_url: v.final_url,
        content_type: v.content_type,
        body: v.body,
    }
}

/// The complaint when a page does not fit into the last budget.
pub open spec fn over_the_cap(budget: usize) -> ErrorView {
    ErrorView::AgentFailed(
        "response exceeded max_bytes="@ + text::digits(budget as nat)
            + " (server cap); page did not fit"@,
    )
}

/// A fetch that has failed with a message.
pub open spec fn failed(v: RunView, e: ErrorView) -> (RunView, TodoView) {
    (v, TodoView::Finish(Err(e)))
}

/// What a fetch does when something has happened.
pub open spec fn step(v: RunView, h: Happened) -> (RunView, TodoView) {
    match h {
        Happened::Resolved(addrs) => if addrs@.len() == 0 {
            failed(v, ErrorView::AgentFailed("dns returned no addresses"@))
        } else {
            match first_denied(addrs@, v.allow_public, 0) {
                Some(ip) => if v.plan.on_list {
                    (v, TodoView::Get)
                } else {
                    failed(
                        v,
                        ErrorView::SandboxDenied(
                            "host `"@ + v.plan.host + "` resolves to a disallowed address ("@
                                + (Endpoint { ip, port: v.plan.port }).text() + ")"@,
                        ),
                    )
                },
                None => (v, TodoView::Get),
            }
        },
        Happened::ResolveFailed(e) => failed(v, ErrorView::AgentFailed("dns resolve: "@ + e@)),
        Happened::ConnectFailed(e) => failed(
            v,
            ErrorView::AgentFailed("connect/read failed: "@ + e@),
        ),
        Happened::Responded { status, final_url, content_type } => (
            RunView {
                status,
                final_url: final_url@,
                content_type: content_type@,
                body: Seq::empty(),
                ..v
            },
            if 200 <= status < 300 {
                TodoView::ReadChunk
            } else {
                TodoView::ReadText
            },
        ),
        Happened::ErrorText(t) => failed(
            v,
            ErrorView::Upstream { status: v.status, body: cut(t@, MAX_ERROR_CHARS as int) },
        ),
        Happened::Chunk(c) => if v.body.len() + c@.len() <= v.budget {
            (RunView { body: v.body + c@, ..v }, TodoView::ReadChunk)
        } else {
            match next_budget_of(v.budget, v.cap) {
                Some(n) => (RunView { budget: n, body: Seq::empty(), ..v }, TodoView::Get),
                None => failed(v, over_the_cap(v.budget)),
            }
        },
        Happened::ReadFailed(e) => failed(v, ErrorView::AgentFailed("read body: "@ + e@)),
        Happened::Ended => (v, TodoView::Finish(Ok(json::json_text(page_data(page_of(v)))))),
    }
}

/// Add bytes to a body.
fn extend(body: &mut Vec<u8>, chunk: &Vec<u8>)
    ensures
        final(body)@ == old(body)@ + chunk@,
{
    let mut i: usize = 0;
    while i < chunk.len()
        invariant
            i <= chunk.len(),
            body@ == old(body)@ + chunk@.take(i as int),
        decreases chunk.len() - i,
    {
        body.push(chunk[i]);
        i += 1;
    }
    assert(chunk@.take(i as int) == chunk@);
}

impl FetchRun {
    /// The body is within the budget.
    pub closed spec fn wf(&self) -> bool {
        self.body@.len() <= self.budget
    }

    /// A fetch that is about to look up its host.
    pub fn new(cfg: &WebFetchConfig, plan: FetchPlan) -> (r: Self)
        ensures
            r.wf(),
            r@ == at_start(*cfg, plan@),
    {
        let budget: usize = plan.budget;
        proof {
            reveal_strlit("");
        }
        let r = FetchRun {
            plan,
            allow_public: cfg.allow_public,
            cap: cfg.max_bytes,
            budget,
            status: 0,
            final_url: text::own(""),
            content_type: text::own(""),
            body: Vec::new(),
        };
        assert(r@.final_url == Seq::<char>::empty());
        assert(r@.content_type == Seq::<char>::empty());
        r
    }

    /// The first address that may not be fetched from.
    fn denied(&self, addrs: &Vec<Ip>) -> (r: Option<Ip>)
        ensures
            r == first_denied(addrs@, self@.allow_public, 0),
    {
        let mut i: usize = 0;
        while i < addrs.len()
            invariant
                i <= addrs.len(),
                first_denied(addrs@, self@.allow_public, 0) == first_denied(
                    addrs@,
                    self@.allow_public,
                    i as int,
                ),
            decreases addrs.len() - i,
        {
            if !is_addr_allowed(addrs[i], self.allow_public) {
                return Some(addrs[i]);
            }
            i += 1;
        }
        None
    }

    /// What the model is told of the page.
    fn page(&self) -> (r: String)
        ensures
            r@ == json::json_text(page_data(page_of(self@))),
    {
        let raw = sse::lossy_text(self.body.as_slice());
        let lower = text::to_lower(self.content_type.as_str());
        let (title, whole) = if text::has(lower.as_str(), "html") {
            html::extract_html_text(raw.as_str())
        } else {
            proof {
                reveal_strlit("");
            }
            (text::own(""), raw)
        };
        assert(title@ == title_of(page_of(self@)));
        let kept = truncate(whole.as_str(), MAX_TEXT_CHARS);
        let empty = text::byte_len(title.as_str()) == 0;
        proof {
            lemma_no_bytes(title@);
        }
        let name = if empty {
            text::own(self.plan.host.as_str())
        } else {
            text::own(title.as_str())
        };
        let mut summary = name;
        summary.append(" — ");
        let size = format_bytes(self.body.len());
        summary.append(size.as_str());
        let mut j = Json::object();
        j.set("url", Json::text(self.plan.url.as_str()));
        j.set("final_url", Json::text(self.final_url.as_str()));
        j.set("status", Json::uint(self.status as u64));
        j.set("title", Json::text(title.as_str()));
        j.set("content_type", Json::text(self.content_type.as_str()));
        j.set("summary", Json::text(summary.as_str()));
        j.set("text", Json::text(kept.as_str()));
        assert(j@ == page_data(page_of(self@)));
        json::render(&j)
    }

    /// Something has happened: what is to be done next.
    pub fn step(&mut self, h: Happened) -> (r: Todo)
        requires
            old(self).wf(),
        ensures
            final(self).wf(),
            (final(self)@, r@) == step(old(self)@, h),
    {
        match h {
            Happened::Resolved(addrs) => {
                if addrs.len() == 0 {
                    return Todo::Finish(
                        Err(AgentError::AgentFailed(text::own("dns returned no addresses"))),
                    );
                }
                match self.denied(&addrs) {
                    Some(ip) => {
                        if self.plan.on_list {
                            return Todo::Get;
                        }
                        let at = Endpoint { ip, port: self.plan.port }.to_text();
                        let mut m = text::own("host `");
                        m.append(self.plan.host.as_str());
                        m.append("` resolves to a disallowed address (");
                        m.append(at.as_str());
                        m.append(")");
                        Todo::Finish(Err(AgentError::SandboxDenied(m)))
                    },
                    None => Todo::Get,
                }
            },
            Happened::ResolveFailed(e) => {
                let m = text::own("dns resolve: ").concat(e.as_str());
                Todo::Finish(Err(AgentError::AgentFailed(m)))
            },
            Happened::ConnectFailed(e) => {
                let m = text::own("connect/read failed: ").concat(e.as_str());
                Todo::Finish(Err(AgentError::AgentFailed(m)))
            },
            Happened::Responded { status, final_url, content_type } => {
                self.status = status;
                self.final_url = final_url;
                self.content_type = content_type;
                self.body = Vec::new();
                assert(self@.body == Seq::<u8>::empty());
                if http::is_success(status) {
                    Todo::ReadChunk
                } else {
                    Todo::ReadText
                }
            },
            Happened::ErrorText(t) => {
                let body = truncate(t.as_str(), MAX_ERROR_CHARS);
                Todo::Finish(Err(AgentError::Upstream { status: self.status, body }))
            },
            Happened::Chunk(c) => {
                if c.len() <= self.budget - self.body.len() {
                    extend(&mut self.body, &c);
                    return Todo::ReadChunk;
                }
                match next_budget(self.budget, self.cap) {
                    Some(n) => {
                        self.budget = n;
                        self.body = Vec::new();
                        assert(self@.body == Seq::<u8>::empty());
                        Todo::Get
                    },
                    None => {
                        let mut m = text::own("response exceeded max_bytes=");
                        text::push_digits(&mut m, self.budget as u64);
                        m.append(" (server cap); page did not fit");
                        Todo::Finish(Err(AgentError::AgentFailed(m)))
                    },
                }
            },
            Happened::ReadFailed(e) => {
                let m = text::own("read body: ").concat(e.as_str());
                Todo::Finish(Err(AgentError::AgentFailed(m)))
            },
            Happened::Ended => {
                let page = self.page();
                Todo::Finish(Ok(page))
            },
        }
    }
}

/// A text without bytes has no characters.
proof fn lemma_no_bytes(s: Seq<char>)
    ensures
        (text::utf8(s).len() == 0) == (s.len() == 0),
{
    if s.len() > 0 {
        text::lemma_utf8_len_step(s);
    } else {
        assert(s == Seq::<char>::empty());
    }
}

// ---- What the model is told of the agent --------------------------------

/// What the agent is for.
pub const DESCRIPTION: &'static str =
    "Fetch a public URL and return its main textual content as Markdown. Use this when the user asks for live web content, a quote from a page, or the contents of a specific URL. Pass `url` (required).";

/// What the address is.
pub const URL_DESCRIPTION: &'static str =
    "Absolute URL to fetch (http or https). Must point to a publicly reachable host unless the server has been configured to allow private addresses.";

/// What the budget is.
pub const MAX_BYTES_DESCRIPTION: &'static str =
    "Initial response-size budget in bytes. If the page is larger, the agent automatically retries with a doubled budget up to the server-wide cap (default 2 MiB). Pass a smaller value to keep the response cheap; pass nothing to start at the server cap.";

/// What the timeout is.
pub const TIMEOUT_DESCRIPTION: &'static str =
    "Per-request timeout in milliseconds. Defaults to the server-wide value; higher values are clamped.";

/// The schema of an integer argument with a least value.
pub open spec fn integer_schema(description: Seq<char>, minimum: int) -> JsonView {
    JsonView::Object(
        map![
            "type"@ => JsonView::Str("integer"@),
            "description"@ => JsonView::Str(description),
            "minimum"@ => JsonView::Num(NumView::Int(minimum)),
        ],
    )
}

/// The schema of the arguments.
pub open spec fn schema() -> JsonView {
    JsonView::Object(
        map![
            "type"@ => JsonView::Str("object"@),
            "properties"@ => JsonView::Object(map![
                "url"@ => agents::string_schema(URL_DESCRIPTION@),
                "max_bytes"@ => integer_schema(MAX_BYTES_DESCRIPTION@, 1024),
                "timeout_ms"@ => integer_schema(TIMEOUT_DESCRIPTION@, 1000),
            ]),
            "required"@ => JsonView::Array(seq![JsonView::Str("url"@)]),
            "additionalProperties"@ => JsonView::Bool(false),
        ],
    )
}

/// The schema of an integer argument.
fn integer_property(description: &str, minimum: u64) -> (r: Json)
    ensures
        r@ == integer_schema(description@, minimum as int),
{
    let mut j = Json::object();
    j.set("type", Json::text("integer"));
    j.set("description", Json::text(description));
    j.set("minimum", Json::uint(minimum));
    j
}

impl WebFetchAgent {
    /// The name by which the model calls the agent.
    pub fn name(&self) -> (r: &'static str)
        ensures
            r@ == "web_fetch"@,
    {
        "web_fetch"
    }

    /// What the agent is for.
    pub fn description(&self) -> (r: &'static str)
        ensures
            r@ == DESCRIPTION@,
    {
        DESCRIPTION
    }

    /// The schema of the arguments.
    pub fn parameters_schema(&self) -> (r: Json)
        ensures
            r@ == schema(),
    {
        let mut properties = Json::object();
        properties.set("url", agents::string_property(URL_DESCRIPTION));
        properties.set("max_bytes", integer_property(MAX_BYTES_DESCRIPTION, 1024));
        properties.set("timeout_ms", integer_property(TIMEOUT_DESCRIPTION, 1000));
        let mut j = Json::object();
        j.set("type", Json::text("object"));
        j.set("properties", properties);
        j.set("required", Json::text_list("url"));
        j.set("additionalProperties", Json::Bool(false));
        j
    }

    /// What the registry knows of the agent.
    pub fn info(&self) -> (r: AgentInfo)
        ensures
            r@ == (AgentView {
                name: "web_fetch"@,
                description: DESCRIPTION@,
                parameters: schema(),
            }),
    {
        AgentInfo {
            name: text::own(self.name()),
            description: text::own(self.description()),
            parameters: self.parameters_schema(),
        }
    }
}

// ---- Laws ---------------------------------------------------------------

/// A request is sent only after every address of the host has been found public,
/// unless the operator's list has the host.
pub proof fn law_only_admitted_addresses(v: RunView, addrs: Vec<Ip>, i: int)
    requires
        step(v, Happened::Resolved(addrs)).1 is Get,
        0 <= i < addrs@.len(),
    ensures
        v.plan.on_list || (v.allow_public && public(addrs@[i])),
{
    if !v.plan.on_list {
        lemma_none_denied(addrs@, v.allow_public, 0, i);
    }
}

/// When no address is denied, each is admitted.
proof fn lemma_none_denied(s: Seq<Ip>, allow_public: bool, from: int, i: int)
    requires
        first_denied(s, allow_public, from) is None,
        from <= i < s.len(),
    ensures
        allow_public && public(s[i]),
    decreases s.len() - from,
{
    if from < i {
        lemma_none_denied(s, allow_public, from + 1, i);
    }
}

/// An IPv6 address that stands for an IPv4 address is judged as that.
pub proof fn law_mapped_address_is_judged_as_v4(g: u16, h: u16)
    ensures
        public(Ip::V6(0, 0, 0, 0, 0, 0xffff, g, h)) == public(
            Ip::V4((g / 256) as u8, (g % 256) as u8, (h / 256) as u8, (h % 256) as u8),
        ),
{
}

/// This machine is never public.
pub proof fn law_loopback_is_not_public(ip: Ip)
    requires
        ip.loopback(),
    ensures
        !public(ip),
{
}

/// Where the operator has a list, only a host on it gets a plan.
pub proof fn law_only_listed_hosts(
    cfg: WebFetchConfig,
    args: FetchArgsView,
    url: Result<UrlView, Seq<char>>,
)
    requires
        plan_of(cfg, args, url) is Ok,
        cfg.allowlist@.len() > 0,
    ensures
        listed(plan_of(cfg, args, url)->Ok_0.host, text::texts(cfg.allowlist@)),
{
}

/// An entry `*.name` covers the name and every host below it.
pub proof fn law_wildcard_covers_subdomains(name: Seq<char>, sub: Seq<char>)
    ensures
        entry_covers("*."@ + name, name),
        entry_covers("*."@ + name, sub + "."@ + name),
{
    reveal_strlit("*.");
    reveal_strlit("*");
    reveal_strlit(".");
    let entry = "*."@ + name;
    assert(entry.skip(2) == name);
    assert(text::starts_with(entry, "*."@)) by {
        assert(entry.subrange(0, 2) == "*."@);
    }
    let host = sub + "."@ + name;
    let tail = "."@ + name;
    assert(text::ends_with(host, tail)) by {
        assert(host.subrange(host.len() - tail.len(), host.len() as int) == tail);
    }
}

/// No more is kept of a response than the budget allows.
pub proof fn law_body_stays_within_budget(v: RunView, h: Happened)
    requires
        v.body.len() <= v.budget,
    ensures
        step(v, h).0.body.len() <= step(v, h).0.budget,
{
}

/// The budget never passes the server's limit, and a new attempt has more than
/// the last: twice as much, or the limit.
pub proof fn law_budget_doubles_up_to_the_cap(v: RunView, h: Happened)
    requires
        v.budget <= v.cap,
    ensures
        step(v, h).0.budget <= v.cap,
        h is Chunk && step(v, h).1 is Get ==> v.budget < step(v, h).0.budget && (step(v, h).0.budget
            == 2 * v.budget || step(v, h).0.budget == v.cap),
{
}

/// A site that answers every request alike. Into which pieces its answer is cut may
/// differ from request to request.
pub struct Site {
    pub status: u16,
    pub final_url: String,
    pub content_type: String,
    pub pieces: spec_fn(int) -> Seq<Vec<u8>>,
}

/// The bytes of pieces one after the other.
pub open spec fn joined(pieces: Seq<Vec<u8>>) -> Seq<u8>
    decreases pieces.len(),
{
    if pieces.len() == 0 {
        Seq::empty()
    } else {
        pieces[0]@ + joined(pieces.drop_first())
    }
}

impl Site {
    /// Whether it answers with success and with this body.
    pub open spec fn serves(self, body: Seq<u8>) -> bool {
        &&& 200 <= self.status < 300
        &&& forall|n: int| joined(#[trigger] (self.pieces)(n)) == body
    }
}

/// What comes of an answer that gives these pieces and ends.
pub open spec fn read(v: RunView, pieces: Seq<Vec<u8>>) -> (RunView, TodoView)
    decreases pieces.len(),
{
    if pieces.len() == 0 {
        step(v, Happened::Ended)
    } else {
        let (w, todo) = step(v, Happened::Chunk(pieces[0]));
        if todo is ReadChunk {
            read(w, pieces.drop_first())
        } else {
            (w, todo)
        }
    }
}

/// What a fetch ends with when it is about to send its request number `n` to a
/// site; nothing when it does not end.
pub open spec fn outcome_from(v: RunView, site: Site, n: int) -> Option<
    Result<Seq<char>, ErrorView>,
>
    decreases v.cap - v.budget,
{
    let (w, _) = step(
        v,
        Happened::Responded {
            status: site.status,
            final_url: site.final_url,
            content_type: site.content_type,
        },
    );
    let (x, todo) = read(w, (site.pieces)(n));
    match todo {
        TodoView::Finish(r) => Some(r),
        TodoView::Get => if v.budget < x.budget <= v.cap && x.cap == v.cap {
            outcome_from(x, site, n + 1)
        } else {
            None
        },
        _ => None,
    }
}

/// What a call ends with whose host has these addresses and whose site answers
/// every request alike; nothing when no request is sent.
pub open spec fn call_outcome(
    cfg: WebFetchConfig,
    args: JsonView,
    addrs: Vec<Ip>,
    site: Site,
) -> Option<Result<Seq<char>, ErrorView>> {
    match begun(cfg, args) {
        Ok(plan) => {
            let (v, todo) = step(at_start(cfg, plan), Happened::Resolved(addrs));
            if todo is Get {
                outcome_from(v, site, 0)
            } else {
                None
            }
        },
        Err(_) => None,
    }
}

/// An answer that fits into the budget is read whole; one that does not leads to
/// the next budget, or to the error that names the last.
proof fn lemma_read(v: RunView, pieces: Seq<Vec<u8>>)
    requires
        v.body.len() <= v.budget,
    ensures
        v.body.len() + joined(pieces).len() <= v.budget ==> read(v, pieces).1 == TodoView::Finish(
            Ok(json::json_text(page_data(page_of(RunView { body: v.body + joined(pieces), ..v })))),
        ),
        v.body.len() + joined(pieces).len() > v.budget ==> match next_budget_of(v.budget, v.cap) {
            Some(n) => read(v, pieces) == (
                RunView { budget: n, body: Seq::empty(), ..v },
                TodoView::Get,
            ),
            None => read(v, pieces).1 == TodoView::Finish(Err(over_the_cap(v.budget))),
        },
    decreases pieces.len(),
{
    if pieces.len() == 0 {
        assert(v.body + joined(pieces) =~= v.body);
    } else {
        let c = pieces[0]@;
        let later = joined(pieces.drop_first());
        if v.body.len() + c.len() <= v.budget {
            let w = RunView { body: v.body + c, ..v };
            lemma_read(w, pieces.drop_first());
            assert(w.body + later =~= v.body + joined(pieces));
        }
    }
}

/// The rest of a fetch.
proof fn lemma_outcome(v: RunView, site: Site, n: int, body: Seq<u8>)
    requires
        0 < v.budget <= v.cap,
        site.serves(body),
    ensures
        outcome_from(v, site, n) == Some(
            if body.len() <= v.cap {
                Ok::<Seq<char>, ErrorView>(
                    json::json_text(
                        page_data(
                            PageView {
                                url: v.plan.url,
                                host: v.plan.host,
                                status: site.status,
                                final_url: site.final_url@,
                                content_type: site.content_type@,
                                body,
                            },
                        ),
                    ),
                )
            } else {
                Err(over_the_cap(v.cap))
            },
        ),
    decreases v.cap - v.budget,
{
    let w = RunView {
        status: site.status,
        final_url: site.final_url@,
        content_type: site.content_type@,
        body: Seq::empty(),
        ..v
    };
    let pieces = (site.pieces)(n);
    assert(joined(pieces) == body);
    lemma_read(w, pieces);
    assert(w.body + joined(pieces) =~= body);
    if body.len() > v.budget {
        match next_budget_of(v.budget, v.cap) {
            Some(b) => {
                lemma_outcome(RunView { budget: b, body: Seq::empty(), ..w }, site, n + 1, body);
            },
            None => {},
        }
    }
}

/// A page that fits into the server's limit is fetched whole, however little was
/// asked for at first; a page that does not ends the call with the error that names
/// the limit. Nothing else comes of a site that answers with success.
pub proof fn law_page_is_fetched_whole_or_refused(
    cfg: WebFetchConfig,
    args: JsonView,
    addrs: Vec<Ip>,
    site: Site,
    body: Seq<u8>,
)
    requires
        begun(cfg, args) is Ok,
        step(at_start(cfg, begun(cfg, args)->Ok_0), Happened::Resolved(addrs)).1 is Get,
        MIN_BUDGET <= cfg.max_bytes,
        site.serves(body),
    ensures
        call_outcome(cfg, args, addrs, site) == Some(
            if body.len() <= cfg.max_bytes {
                Ok::<Seq<char>, ErrorView>(
                    json::json_text(
                        page_data(
                            PageView {
                                url: begun(cfg, args)->Ok_0.url,
                                host: begun(cfg, args)->Ok_0.host,
                                status: site.status,
                                final_url: site.final_url@,
                                content_type: site.content_type@,
                                body,
                            },
                        ),
                    ),
                )
            } else {
                Err(over_the_cap(cfg.max_bytes))
            },
        ),
{
    let v = at_start(cfg, begun(cfg, args)->Ok_0);
    lemma_outcome(v, site, 0, body);
}

/// How much was asked for at first makes no difference to what comes of a call.
pub proof fn law_asking_for_less_changes_nothing(
    cfg: WebFetchConfig,
    a: JsonView,
    b: JsonView,
    addrs: Vec<Ip>,
    site: Site,
    body: Seq<u8>,
)
    requires
        args_of(a) is Ok && args_of(b) is Ok,
        args_of(a)->Ok_0.url == args_of(b)->Ok_0.url,
        MIN_BUDGET <= cfg.max_bytes,
        site.serves(body),
    ensures
        call_outcome(cfg, a, addrs, site) == call_outcome(cfg, b, addrs, site),
{
    if begun(cfg, a) is Ok {
        if step(at_start(cfg, begun(cfg, a)->Ok_0), Happened::Resolved(addrs)).1 is Get {
            law_page_is_fetched_whole_or_refused(cfg, a, addrs, site, body);
            law_page_is_fetched_whole_or_refused(cfg, b, addrs, site, body);
        }
    }
}

/// The state of a fetch after all this has happened.
pub open spec fn after(v: RunView, hs: Seq<Happened>) -> RunView
    decreases hs.len(),
{
    if hs.len() == 0 {
        v
    } else {
        step(after(v, hs.drop_last()), hs.last()).0
    }
}

/// Whatever happens, never more of a page is kept than the server's limit.
pub proof fn law_never_more_than_the_cap_is_kept(
    cfg: WebFetchConfig,
    args: JsonView,
    hs: Seq<Happened>,
)
    requires
        begun(cfg, args) is Ok,
        MIN_BUDGET <= cfg.max_bytes,
    ensures
        ({
            let v = after(at_start(cfg, begun(cfg, args)->Ok_0), hs);
            v.body.len() <= v.budget <= v.cap && v.cap == cfg.max_bytes
        }),
    decreases hs.len(),
{
    if hs.len() > 0 {
        law_never_more_than_the_cap_is_kept(cfg, args, hs.drop_last());
    }
}

/// What the model is told of a page is a plain object with a summary: the title,
/// or the host of a page without one, and the size. It is what the client is
/// shown of the call.
pub proof fn law_page_has_a_summary(p: PageView)
    ensures
        json::plain(page_data(p)),
        json::str_of(json::field(page_data(p), "summary"@)) == Some(
            (if title_of(p).len() == 0 {
                p.host
            } else {
                title_of(p)
            }) + " — "@ + bytes_text(p.body.len()),
        ),
{
    reveal_strlit("url");
    reveal_strlit("final_url");
    reveal_strlit("status");
    reveal_strlit("title");
    reveal_strlit("content_type");
    reveal_strlit("summary");
    reveal_strlit("text");
    reveal_strlit("$serde_json::private::RawValue");
    reveal_strlit("$serde_json::private::Number");
    assert("summary"@.len() == 7 && "text"@.len() == 4);
    let m = page_data(p)->Object_0;
    assert forall|name: Seq<char>| m.dom().contains(name) implies json::simple(
        #[trigger] m[name],
    ) && !json::reserved(name) by {
        assert(name.len() <= 12);
    }
    assert(m.dom().contains("summary"@));
}

/// The parts of a text in small letters are the small letters of its parts.
proof fn lemma_lower_parts(a: Seq<char>, h: Seq<char>, b: Seq<char>)
    ensures
        text::lower(a + h + b) == text::lower(a) + text::lower(h) + text::lower(b),
{
    assert(text::lower(a + h + b) =~= text::lower(a) + text::lower(h) + text::lower(b));
}

/// What a page is told with, member by member.
pub proof fn law_page_is_told(p: PageView)
    ensures
        json::field(page_data(p), "url"@) == Some(JsonView::Str(p.url)),
        json::field(page_data(p), "final_url"@) == Some(JsonView::Str(p.final_url)),
        json::field(page_data(p), "status"@) == Some(
            JsonView::Num(NumView::Int(p.status as int)),
        ),
        json::field(page_data(p), "content_type"@) == Some(JsonView::Str(p.content_type)),
        json::field(page_data(p), "title"@) == Some(JsonView::Str(title_of(p))),
        text::utf8(text_of(p)).len() <= 102400 ==> json::field(page_data(p), "text"@) == Some(
            JsonView::Str(text_of(p)),
        ),
        text::utf8(text_of(p)).len() > 102400 ==> exists|n: int|
            0 <= n <= text_of(p).len() && json::field(page_data(p), "text"@) == Some(
                JsonView::Str(#[trigger] text_of(p).take(n) + "\n…[truncated]"@),
            ),
{
    reveal_strlit("url");
    reveal_strlit("final_url");
    reveal_strlit("status");
    reveal_strlit("title");
    reveal_strlit("content_type");
    reveal_strlit("summary");
    reveal_strlit("text");
    assert("url"@.len() == 3);
    assert("final_url"@.len() == 9);
    assert("status"@.len() == 6);
    assert("title"@.len() == 5);
    assert("content_type"@.len() == 12);
    assert("summary"@.len() == 7);
    assert("text"@.len() == 4);
    text::law_cut_is_the_longest_that_fits(text_of(p), 102400);
    let n = text::fit(text_of(p), 102400);
    assert(cut(text_of(p), 102400) == text_of(p) || cut(text_of(p), 102400) == text_of(p).take(n)
        + "\n…[truncated]"@);
}

/// A page is taken for a document wherever its content type holds `html`, in capital or
/// small letters, with or without anything around it: what is told is then its title and
/// its text, without tags.
pub proof fn law_document_is_told_by_title_and_text(
    p: PageView,
    a: Seq<char>,
    h: Seq<char>,
    b: Seq<char>,
)
    requires
        p.content_type == a + h + b,
        text::lower(h) == "html"@,
    ensures
        json::field(page_data(p), "title"@) == Some(
            JsonView::Str(html::page_title(sse::decoded(p.body))),
        ),
        text::utf8(html::page_text(sse::decoded(p.body))).len() <= 102400 ==> json::field(
            page_data(p),
            "text"@,
        ) == Some(JsonView::Str(html::page_text(sse::decoded(p.body)))),
{
    lemma_lower_parts(a, h, b);
    text::law_contains_means_somewhere(text::lower(p.content_type), "html"@);
    assert(text::lower(p.content_type) == text::lower(a) + "html"@ + text::lower(b));
    law_page_is_told(p);
}

/// Anything else is told as it came, without a title.
pub proof fn law_other_text_is_told_as_it_came(p: PageView)
    requires
        forall|a: Seq<char>, h: Seq<char>, b: Seq<char>|
            p.content_type == #[trigger] (a + h + b) ==> text::lower(h) != "html"@,
    ensures
        json::field(page_data(p), "title"@) == Some(JsonView::Str(Seq::empty())),
        text::utf8(sse::decoded(p.body)).len() <= 102400 ==> json::field(page_data(p), "text"@)
            == Some(JsonView::Str(sse::decoded(p.body))),
{
    let low = text::lower(p.content_type);
    text::law_contains_means_somewhere(low, "html"@);
    if text::contains(low, "html"@) {
        let (x, y) = choose|x: Seq<char>, y: Seq<char>| low == #[trigger] (x + "html"@ + y);
        let a = p.content_type.take(x.len() as int);
        let to = (x.len() + "html"@.len()) as int;
        let h = p.content_type.subrange(x.len() as int, to);
        let b = p.content_type.skip(to);
        assert(p.content_type =~= a + h + b);
        assert(text::lower(h) =~= "html"@) by {
            assert forall|i: int| 0 <= i < h.len() implies text::lower(h)[i] == "html"@[i] by {
                assert(low[x.len() + i] == (x + "html"@ + y)[x.len() + i]);
            }
        }
    }
    law_page_is_told(p);
}

/// A text that fits is kept whole; of a longer one a beginning is kept that fits, the
/// longest, and it is marked as cut.
pub proof fn law_long_text_is_cut(s: Seq<char>, max: nat)
    ensures
        text::utf8(s).len() <= max ==> cut(s, max as int) == s,
        text::utf8(s).len() > max ==> exists|n: int|
            0 <= n <= s.len() && cut(s, max as int) == #[trigger] s.take(n) + "\n…[truncated]"@
                && text::bytes_upto(s, n) <= max && (n < s.len() ==> text::bytes_upto(s, n + 1)
                > max),
{
    text::law_cut_is_the_longest_that_fits(s, max);
    let n = text::fit(s, max as int);
    assert(text::utf8(s).len() > max ==> cut(s, max as int) == s.take(n) + "\n…[truncated]"@);
}

/// Sizes are told in bytes below a kibibyte, and above in tenths of the largest unit that
/// the size reaches.
pub proof fn law_sizes_are_told(n: nat)
    ensures
        n < 1024 ==> bytes_text(n) == text::digits(n) + " B"@,
        1024 <= n < 1048576 && n % 1024 == 0 ==> bytes_text(n) == text::digits(n / 1024) + "."@
            + text::digits(0) + " "@ + "KB"@,
        1048576 <= n < 1073741824 && n % 1048576 == 0 ==> bytes_text(n) == text::digits(
            n / 1048576,
        ) + "."@ + text::digits(0) + " "@ + "MB"@,
        1073741824 <= n < 1099511627776 && n % 1073741824 == 0 ==> bytes_text(n) == text::digits(
            n / 1073741824,
        ) + "."@ + text::digits(0) + " "@ + "GB"@,
{
    if n < 9007199254740992 {
        assert(backend::half_even(n as int, 1) == n);
        assert(backend::round_bits(n, 9007199254740992, 1) == n);
    }
    if 1024 <= n < 1048576 && n % 1024 == 0 {
        assert(10 * n / 1024 == 10 * (n / 1024) && 10 * n % 1024 == 0);
    }
    if 1048576 <= n < 1073741824 && n % 1048576 == 0 {
        assert(10 * n / 1048576 == 10 * (n / 1048576) && 10 * n % 1048576 == 0);
    }
    if 1073741824 <= n < 1099511627776 && n % 1073741824 == 0 {
        assert(10 * n / 1073741824 == 10 * (n / 1073741824) && 10 * n % 1073741824 == 0);
    }
}

/// Which addresses count as public: not those of this machine, of a link, of a private
/// network, of a shared one, of many machines at once, or of none.
pub proof fn law_private_addresses_are_not_public(b: u8, c: u8, d: u8, g: u16, h: u16)
    ensures
        !public(Ip::V4(127, b, c, d)),
        !public(Ip::V4(10, b, c, d)),
        !public(Ip::V4(0, b, c, d)),
        !public(Ip::V4(192, 168, c, d)),
        !public(Ip::V4(169, 254, c, d)),
        16 <= b <= 31 ==> !public(Ip::V4(172, b, c, d)),
        64 <= b <= 127 ==> !public(Ip::V4(100, b, c, d)),
        224 <= b <= 239 ==> !public(Ip::V4(b, c, d, d)),
        !public(Ip::V4(255, 255, 255, 255)),
        !public(Ip::V6(0, 0, 0, 0, 0, 0, 0, 0)),
        !public(Ip::V6(0, 0, 0, 0, 0, 0, 0, 1)),
        0xfe80 <= g <= 0xfebf ==> !public(Ip::V6(g, h, 0, 0, 0, 0, 0, h)),
        0xfc00 <= g <= 0xfdff ==> !public(Ip::V6(g, h, 0, 0, 0, 0, 0, h)),
        0xff00 <= g ==> !public(Ip::V6(g, h, 0, 0, 0, 0, 0, h)),
{
}

/// All other addresses count as public.
pub proof fn law_other_addresses_are_public(a: u8, b: u8, c: u8, d: u8, g: u16, h: u16)
    ensures
        1 <= a <= 223 && a != 10 && a != 127 && a != 100 && a != 169 && a != 172 && a != 192
            ==> public(Ip::V4(a, b, c, d)),
        b != 168 ==> public(Ip::V4(192, b, c, d)),
        b != 254 ==> public(Ip::V4(169, b, c, d)),
        b < 16 || b > 31 ==> public(Ip::V4(172, b, c, d)),
        b < 64 || b > 127 ==> public(Ip::V4(100, b, c, d)),
        0 < g < 0xfc00 ==> public(Ip::V6(g, h, h, h, h, h, h, h)),
{
}

/// The list of hosts: a star admits every host; a name admits itself in whatever case;
/// and a name that is none of the list's is not admitted.
pub proof fn law_names_admit_themselves(host: Seq<char>, entry: Seq<char>, list: Seq<Seq<char>>)
    ensures
        list.contains("*"@) ==> listed(host, list),
        list.contains(entry) && text::lower(entry) == text::lower(host) && !text::starts_with(
            text::lower(entry),
            "*."@,
        ) ==> listed(host, list),
        listed(host, list) ==> exists|i: int|
            0 <= i < list.len() && {
                let e = text::lower(#[trigger] list[i]);
                ||| e == "*"@
                ||| e == text::lower(host)
                ||| exists|name: Seq<char>| e == #[trigger] ("*."@ + name) && (text::lower(host)
                    == name || text::ends_with(text::lower(host), "."@ + name))
            },
        list.len() == 0 ==> !listed(host, list),
{
    reveal_strlit("*");
    if list.contains("*"@) {
        let i = choose|i: int| 0 <= i < list.len() && list[i] == "*"@;
        assert(text::lower(list[i]) =~= "*"@);
        assert(entry_covers(text::lower(list[i]), text::lower(host)));
    }
    if list.contains(entry) && text::lower(entry) == text::lower(host) && !text::starts_with(
        text::lower(entry),
        "*."@,
    ) {
        let i = choose|i: int| 0 <= i < list.len() && list[i] == entry;
        assert(entry_covers(text::lower(list[i]), text::lower(host)));
    }
    if listed(host, list) {
        let i = choose|i: int|
            0 <= i < list.len() && entry_covers(#[trigger] text::lower(list[i]), text::lower(host));
        let e = text::lower(list[i]);
        if e != "*"@ && text::starts_with(e, "*."@) {
            let name = e.skip("*."@.len() as int);
            assert(e =~= "*."@ + name);
        }
        assert(0 <= i < list.len() && list[i] == list[i]);
    }
}

/// What is read of the arguments: the address as it is, and the size and the time where
/// they are given as whole numbers.
pub proof fn law_arguments_are_read(v: JsonView, u: Seq<char>, n: int)
    ensures
        args_of(v) is Ok <==> v is Object && json::field(v, "url"@) is Some && json::field(
            v,
            "url"@,
        )->0 is Str,
        args_of(v) is Err ==> args_of(v)->Err_0 is InvalidArguments,
        args_of(v) is Ok ==> {
            let a = args_of(v)->Ok_0;
            &&& json::field(v, "url"@) == Some(JsonView::Str(u)) ==> a.url == u
            &&& 0 <= n <= usize::MAX && json::field(v, "max_bytes"@) == Some(
                JsonView::Num(NumView::Int(n)),
            ) ==> a.max_bytes == Some(n as usize)
            &&& json::field(v, "max_bytes"@) is None ==> a.max_bytes is None
            &&& 0 <= n <= u64::MAX && json::field(v, "timeout_ms"@) == Some(
                JsonView::Num(NumView::Int(n)),
            ) ==> a.timeout_ms == Some(n as u64)
            &&& json::field(v, "timeout_ms"@) is None ==> a.timeout_ms is None
        },
{
}

/// Which requests are planned, and how: an address of the web with a host that the list
/// admits, where there is one. The port is the address's own, or that of secure pages.
/// What was asked for is kept within the operator's limits, and not below what a request
/// needs.
pub proof fn law_what_is_planned(
    cfg: WebFetchConfig,
    args: FetchArgsView,
    url: Result<UrlView, Seq<char>>,
)
    ensures
        plan_of(cfg, args, url) is Ok <==> {
            &&& url is Ok
            &&& url->Ok_0.scheme == "http"@ || url->Ok_0.scheme == "https"@
            &&& url->Ok_0.host is Some
            &&& cfg.allowlist@.len() == 0 || listed(
                url->Ok_0.host->0,
                text::texts(cfg.allowlist@),
            )
        },
        plan_of(cfg, args, url) is Ok ==> {
            let p = plan_of(cfg, args, url)->Ok_0;
            &&& p.url == url->Ok_0.text
            &&& p.host == url->Ok_0.host->0
            &&& url->Ok_0.port is Some ==> p.port == url->Ok_0.port->0
            &&& url->Ok_0.port is None ==> p.port == 443
            &&& p.on_list <==> cfg.allowlist@.len() > 0
            &&& cfg.max_bytes >= 1024 ==> 1024 <= p.budget <= cfg.max_bytes
            &&& args.max_bytes is None && cfg.max_bytes >= 1024 ==> p.budget == cfg.max_bytes
            &&& args.max_bytes is Some && 1024 <= args.max_bytes->0 <= cfg.max_bytes ==> p.budget
                == args.max_bytes->0
            &&& cfg.timeout_ms >= 1000 ==> 1000 <= p.timeout_ms <= cfg.timeout_ms
            &&& args.timeout_ms is None && cfg.timeout_ms >= 1000 ==> p.timeout_ms
                == cfg.timeout_ms
            &&& args.timeout_ms is Some && 1000 <= args.timeout_ms->0 <= cfg.timeout_ms
                ==> p.timeout_ms == args.timeout_ms->0
        },
        url is Ok && (url->Ok_0.scheme == "http"@ || url->Ok_0.scheme == "https"@)
            && url->Ok_0.host is Some && plan_of(cfg, args, url) is Err ==> plan_of(
            cfg,
            args,
            url,
        )->Err_0 == ErrorView::SandboxDenied(
            "host `"@ + url->Ok_0.host->0 + "` is not in WEB_FETCH_ALLOWLIST"@,
        ),
        plan_of(cfg, args, url) is Err ==> plan_of(cfg, args, url)->Err_0 is InvalidArguments
            || plan_of(cfg, args, url)->Err_0 is SandboxDenied,
{
}

/// What a fetch does when something happens: pieces are put one after the other, a
/// success is read in pieces and told at its end, another status is told with its text,
/// and every failure with its words.
pub proof fn law_what_a_fetch_does(v: RunView, h: Happened)
    ensures
        h is Ended ==> step(v, h).1 == TodoView::Finish(
            Ok(
                json::json_text(
                    page_data(
                        PageView {
                            url: v.plan.url,
                            host: v.plan.host,
                            status: v.status,
                            final_url: v.final_url,
                            content_type: v.content_type,
                            body: v.body,
                        },
                    ),
                ),
            ),
        ),
        h is Chunk && v.body.len() + h->Chunk_0@.len() <= v.budget ==> {
            &&& step(v, h).1 is ReadChunk
            &&& step(v, h).0 == (RunView { body: v.body + h->Chunk_0@, ..v })
        },
        h is Responded ==> {
            let w = step(v, h).0;
            &&& w.status == h->status
            &&& w.final_url == h->final_url@
            &&& w.content_type == h->content_type@
            &&& w.body.len() == 0
            &&& w.plan == v.plan && w.budget == v.budget && w.cap == v.cap
            &&& step(v, h).1 is ReadChunk <==> 200 <= h->status < 300
            &&& step(v, h).1 is ReadText <==> h->status < 200 || h->status >= 300
        },
        h is ErrorText && text::utf8(h->ErrorText_0@).len() <= 2048 ==> step(v, h).1
            == TodoView::Finish(
            Err(ErrorView::Upstream { status: v.status, body: h->ErrorText_0@ }),
        ),
        h is ErrorText && text::utf8(h->ErrorText_0@).len() > 2048 ==> exists|n: int|
            0 <= n <= h->ErrorText_0@.len() && step(v, h).1 == TodoView::Finish(
                Err(
                    ErrorView::Upstream {
                        status: v.status,
                        body: #[trigger] h->ErrorText_0@.take(n) + "\n…[truncated]"@,
                    },
                ),
            ) && text::bytes_upto(h->ErrorText_0@, n) <= 2048 && (n < h->ErrorText_0@.len()
                ==> text::bytes_upto(h->ErrorText_0@, n + 1) > 2048),
        h is ErrorText ==> step(v, h).1 is Finish && step(v, h).1->Finish_0 is Err
            && step(v, h).1->Finish_0->Err_0 is Upstream,
        h is ResolveFailed ==> step(v, h).1 == TodoView::Finish(
            Err(ErrorView::AgentFailed("dns resolve: "@ + h->ResolveFailed_0@)),
        ),
        h is ConnectFailed ==> step(v, h).1 == TodoView::Finish(
            Err(ErrorView::AgentFailed("connect/read failed: "@ + h->ConnectFailed_0@)),
        ),
        h is ReadFailed ==> step(v, h).1 == TodoView::Finish(
            Err(ErrorView::AgentFailed("read body: "@ + h->ReadFailed_0@)),
        ),
        h is Resolved && h->Resolved_0@.len() == 0 ==> step(v, h).1 == TodoView::Finish(
            Err(ErrorView::AgentFailed("dns returned no addresses"@)),
        ),
        h is Resolved && h->Resolved_0@.len() > 0 && (v.plan.on_list || forall|i: int|
            0 <= i < h->Resolved_0@.len() ==> v.allow_public && public(#[trigger] h->Resolved_0@[i]))
            ==> step(v, h).1 is Get,
        over_the_cap(v.cap) == ErrorView::AgentFailed(
            "response exceeded max_bytes="@ + text::digits(v.cap as nat)
                + " (server cap); page did not fit"@,
        ),
{
    if h is ErrorText {
        law_long_text_is_cut(h->ErrorText_0@, 2048);
    }
    if h is Resolved && h->Resolved_0@.len() > 0 && !v.plan.on_list {
        if forall|i: int|
            0 <= i < h->Resolved_0@.len() ==> v.allow_public && public(
                #[trigger] h->Resolved_0@[i],
            ) {
            lemma_all_admitted(h->Resolved_0@, v.allow_public, 0);
        }
    }
}

proof fn lemma_all_admitted(s: Seq<Ip>, allow_public: bool, i: int)
    requires
        0 <= i,
        forall|j: int| i <= j < s.len() ==> allow_public && public(#[trigger] s[j]),
    ensures
        first_denied(s, allow_public, i) is None,
    decreases s.len() - i,
{
    if i < s.len() {
        assert(allow_public && public(s[i]));
        lemma_all_admitted(s, allow_public, i + 1);
    }
}

/// What is said of requests that are not planned, and of hosts whose addresses are not
/// admitted.
pub proof fn law_refusals_say_why(
    v: JsonView,
    cfg: WebFetchConfig,
    args: FetchArgsView,
    url: Result<UrlView, Seq<char>>,
    run: RunView,
    addrs: Vec<Ip>,
)
    ensures
        !(v is Object) ==> args_of(v) == Err::<FetchArgsView, _>(
            ErrorView::InvalidArguments("arguments must be a JSON object"@),
        ),
        v is Object && json::field(v, "url"@) is None ==> args_of(v) == Err::<FetchArgsView, _>(
            ErrorView::InvalidArguments("`url` (string) is required"@),
        ),
        url is Err ==> plan_of(cfg, args, url) == Err::<PlanView, _>(
            ErrorView::InvalidArguments("url parse: "@ + url->Err_0),
        ),
        url is Ok && url->Ok_0.scheme != "http"@ && url->Ok_0.scheme != "https"@ ==> plan_of(
            cfg,
            args,
            url,
        ) == Err::<PlanView, _>(
            ErrorView::InvalidArguments(
                "unsupported scheme `"@ + url->Ok_0.scheme
                    + "` (only http and https are accepted)"@,
            ),
        ),
        url is Ok && (url->Ok_0.scheme == "http"@ || url->Ok_0.scheme == "https"@)
            && url->Ok_0.host is None ==> plan_of(cfg, args, url) == Err::<PlanView, _>(
            ErrorView::InvalidArguments("url has no host"@),
        ),
        addrs@.len() > 0 && !run.plan.on_list && !(run.allow_public && public(addrs@[0])) ==> step(
            run,
            Happened::Resolved(addrs),
        ).1 == TodoView::Finish(
            Err(
                ErrorView::SandboxDenied(
                    "host `"@ + run.plan.host + "` resolves to a disallowed address ("@ + (
                    Endpoint { ip: addrs@[0], port: run.plan.port }).text() + ")"@,
                ),
            ),
        ),
        begun(cfg, v) is Ok ==> args_of(v) is Ok && plan_of(
            cfg,
            args_of(v)->Ok_0,
            url_parts(args_of(v)->Ok_0.url),
        ) == begun(cfg, v),
{
}

/// An attempt that was too small is followed by one twice as large, up to the limit, and
/// at the limit by none.
pub proof fn law_next_attempt_is_twice_as_large(budget: usize, cap: usize)
    ensures
        2 * budget <= cap && budget > 0 ==> next_budget_of(budget, cap) == Some(
            (2 * budget) as usize,
        ),
        budget < cap < 2 * budget ==> next_budget_of(budget, cap) == Some(cap),
        cap <= budget ==> next_budget_of(budget, cap) is None,
{
}

/// A fetch begins with the operator's rules and nothing read.
pub proof fn law_fetch_begins_empty(cfg: WebFetchConfig, plan: PlanView)
    ensures
        at_start(cfg, plan).plan == plan,
        at_start(cfg, plan).allow_public == cfg.allow_public,
        at_start(cfg, plan).cap == cfg.max_bytes,
        at_start(cfg, plan).budget == plan.budget,
        at_start(cfg, plan).body.len() == 0,
{
}

/// The model is told what arguments there are: an address, which is required; and a size
/// and a time with their least values.
pub proof fn law_model_is_told_of_the_arguments()
    ensures
        ({
            let p = json::field(schema(), "properties"@)->0;
            let size = json::field(p, "max_bytes"@)->0;
            let time = json::field(p, "timeout_ms"@)->0;
            &&& json::field(schema(), "type"@) == Some(JsonView::Str("object"@))
            &&& json::field(schema(), "required"@) == Some(
                JsonView::Array(seq![JsonView::Str("url"@)]),
            )
            &&& json::field(schema(), "additionalProperties"@) == Some(JsonView::Bool(false))
            &&& json::field(p, "url"@) == Some(agents::string_schema(URL_DESCRIPTION@))
            &&& json::field(size, "type"@) == Some(JsonView::Str("integer"@))
            &&& json::field(size, "minimum"@) == Some(JsonView::Num(NumView::Int(1024)))
            &&& json::field(size, "description"@) == Some(JsonView::Str(MAX_BYTES_DESCRIPTION@))
            &&& json::field(time, "type"@) == Some(JsonView::Str("integer"@))
            &&& json::field(time, "minimum"@) == Some(JsonView::Num(NumView::Int(1000)))
            &&& json::field(time, "description"@) == Some(JsonView::Str(TIMEOUT_DESCRIPTION@))
        }),
{
    reveal_strlit("type");
    reveal_strlit("properties");
    reveal_strlit("required");
    reveal_strlit("additionalProperties");
    reveal_strlit("url");
    reveal_strlit("max_bytes");
    reveal_strlit("timeout_ms");
    reveal_strlit("minimum");
    reveal_strlit("description");
    assert("type"@.len() == 4);
    assert("properties"@.len() == 10);
    assert("required"@.len() == 8);
    assert("additionalProperties"@.len() == 20);
    assert("url"@.len() == 3);
    assert("max_bytes"@.len() == 9);
    assert("timeout_ms"@.len() == 10);
    assert("type"@.len() == 4);
    assert("minimum"@.len() == 7);
    assert("description"@.len() == 11);
}

} // verus!
