//! The optional configuration file.
//!
//! Every knob is optional, so a file may be partial, and files can be laid one
//! over the other: what the later one says wins, field by field.

use vstd::prelude::*;

use crate::text;

verus! {

/// The later value where there is one, else the earlier.
pub open spec fn over<T>(earlier: Option<T>, later: Option<T>) -> Option<T> {
    if later is Some {
        later
    } else {
        earlier
    }
}

/// The view of an optional list of strings.
pub open spec fn opt_texts(o: Option<Vec<String>>) -> Option<Seq<Seq<char>>> {
    match o {
        Some(v) => Some(text::texts(v@)),
        None => None,
    }
}

/// A copy of an optional list of strings.
pub fn own_opt_list(o: &Option<Vec<String>>) -> (r: Option<Vec<String>>)
    ensures
        opt_texts(r) == opt_texts(*o),
{
    match o {
        Some(v) => Some(text::own_list(v)),
        None => None,
    }
}

/// The later string where there is one, else the earlier.
fn later_text(earlier: &Option<String>, later: &Option<String>) -> (r: Option<String>)
    ensures
        text::opt_text(r) == over(text::opt_text(*earlier), text::opt_text(*later)),
{
    match later {
        Some(s) => Some(s.clone()),
        None => text::own_opt(earlier),
    }
}

/// The later list where there is one, else the earlier.
fn later_list(earlier: &Option<Vec<String>>, later: &Option<Vec<String>>) -> (r: Option<
    Vec<String>,
>)
    ensures
        opt_texts(r) == over(opt_texts(*earlier), opt_texts(*later)),
{
    match later {
        Some(v) => Some(text::own_list(v)),
        None => own_opt_list(earlier),
    }
}

/// Knobs for inbound WebSocket frames.
#[derive(Debug, Clone, Default, PartialEq, Eq)]
pub struct TomlLimitsConfig {
    pub max_audio_frame_samples: Option<usize>,
    pub required_sample_rate: Option<u32>,
    pub max_language_hint_bytes: Option<usize>,
}

/// Knobs for inbound WebSocket frames, as values.
pub struct LimitsConfigView {
    pub max_audio_frame_samples: Option<usize>,
    pub required_sample_rate: Option<u32>,
    pub max_language_hint_bytes: Option<usize>,
}

impl View for TomlLimitsConfig {
    type V = LimitsConfigView;

    open spec fn view(&self) -> LimitsConfigView {
        LimitsConfigView {
            max_audio_frame_samples: self.max_audio_frame_samples,
            required_sample_rate: self.required_sample_rate,
            max_language_hint_bytes: self.max_language_hint_bytes,
        }
    }
}

/// The view of an optional table.
pub open spec fn limits_view(o: Option<TomlLimitsConfig>) -> Option<LimitsConfigView> {
    match o {
        Some(t) => Some(t@),
        None => None,
    }
}

impl TomlLimitsConfig {
    /// A copy.
    pub fn copy(&self) -> (r: Self)
        ensures
            r@ == self@,
    {
        TomlLimitsConfig {
            max_audio_frame_samples: self.max_audio_frame_samples,
            required_sample_rate: self.required_sample_rate,
            max_language_hint_bytes: self.max_language_hint_bytes,
        }
    }
}

/// One table over another.
pub open spec fn limits_over(e: LimitsConfigView, l: LimitsConfigView) -> LimitsConfigView {
    LimitsConfigView {
        max_audio_frame_samples: over(e.max_audio_frame_samples, l.max_audio_frame_samples),
        required_sample_rate: over(e.required_sample_rate, l.required_sample_rate),
        max_language_hint_bytes: over(e.max_language_hint_bytes, l.max_language_hint_bytes),
    }
}

/// One optional table over another.
pub open spec fn opt_limits_over(
    e: Option<LimitsConfigView>,
    l: Option<LimitsConfigView>,
) -> Option<LimitsConfigView> {
    match (e, l) {
        (Some(a), Some(b)) => Some(limits_over(a, b)),
        _ => over(e, l),
    }
}

/// Lay one optional table over another.
fn merge_toml_limits(
    earlier: Option<&TomlLimitsConfig>,
    later: Option<&TomlLimitsConfig>,
) -> (r: Option<TomlLimitsConfig>)
    ensures
        limits_view(r) == opt_limits_over(
            match earlier {
                Some(t) => Some(t@),
                None => None,
            },
            match later {
                Some(t) => Some(t@),
                None => None,
            },
        ),
{
    match (earlier, later) {
        (None, None) => None,
        (Some(e), None) => Some(e.copy()),
        (None, Some(l)) => Some(l.copy()),
        (Some(e), Some(l)) => Some(
            TomlLimitsConfig {
                max_audio_frame_samples: if l.max_audio_frame_samples.is_some() {
                    l.max_audio_frame_samples
                } else {
                    e.max_audio_frame_samples
                },
                required_sample_rate: if l.required_sample_rate.is_some() {
                    l.required_sample_rate
                } else {
                    e.required_sample_rate
                },
                max_language_hint_bytes: if l.max_language_hint_bytes.is_some() {
                    l.max_language_hint_bytes
                } else {
                    e.max_language_hint_bytes
                },
            },
        ),
    }
}

/// Rate limits for each source address.
#[derive(Debug, Clone, Default, PartialEq, Eq)]
pub struct TomlRateLimitConfig {
    pub stt_per_min: Option<u32>,
    pub llm_per_min: Option<u32>,
}

/// Rate limits for each source address, as values.
pub struct RateLimitConfigView {
    pub stt_per_min: Option<u32>,
    pub llm_per_min: Option<u32>,
}

impl View for TomlRateLimitConfig {
    type V = RateLimitConfigView;

    open spec fn view(&self) -> RateLimitConfigView {
        RateLimitConfigView {
            stt_per_min: self.stt_per_min,
            llm_per_min: self.llm_per_min,
        }
    }
}

/// The view of an optional table.
pub open spec fn rate_limits_view(o: Option<TomlRateLimitConfig>) -> Option<RateLimitConfigView> {
    match o {
        Some(t) => Some(t@),
        None => None,
    }
}

impl TomlRateLimitConfig {
    /// A copy.
    pub fn copy(&self) -> (r: Self)
        ensures
            r@ == self@,
    {
        TomlRateLimitConfig {
            stt_per_min: self.stt_per_min,
            llm_per_min: self.llm_per_min,
        }
    }
}

/// One table over another.
pub open spec fn rate_limits_over(
    e: RateLimitConfigView,
    l: RateLimitConfigView,
) -> RateLimitConfigView {
    RateLimitConfigView {
        stt_per_min: over(e.stt_per_min, l.stt_per_min),
        llm_per_min: over(e.llm_per_min, l.llm_per_min),
    }
}

/// One optional table over another.
pub open spec fn opt_rate_limits_over(
    e: Option<RateLimitConfigView>,
    l: Option<RateLimitConfigView>,
) -> Option<RateLimitConfigView> {
    match (e, l) {
        (Some(a), Some(b)) => Some(rate_limits_over(a, b)),
        _ => over(e, l),
    }
}

/// Lay one optional table over another.
fn merge_toml_rate_limits(
    earlier: Option<&TomlRateLimitConfig>,
    later: Option<&TomlRateLimitConfig>,
) -> (r: Option<TomlRateLimitConfig>)
    ensures
        rate_limits_view(r) == opt_rate_limits_over(
            match earlier {
                Some(t) => Some(t@),
                None => None,
            },
            match later {
                Some(t) => Some(t@),
                None => None,
            },
        ),
{
    match (earlier, later) {
        (None, None) => None,
        (Some(e), None) => Some(e.copy()),
        (None, Some(l)) => Some(l.copy()),
        (Some(e), Some(l)) => Some(
            TomlRateLimitConfig {
                stt_per_min: if l.stt_per_min.is_some() { l.stt_per_min } else { e.stt_per_min },
                llm_per_min: if l.llm_per_min.is_some() { l.llm_per_min } else { e.llm_per_min },
            },
        ),
    }
}

/// Knobs of the server itself.
#[derive(Debug, Clone, Default, PartialEq, Eq)]
pub struct TomlServerConfig {
    pub bind_addr: Option<String>,
    pub whisper_model_path: Option<String>,
    pub max_queue: Option<usize>,
    pub session_idle_timeout_ms: Option<u64>,
    pub infer_timeout_ms: Option<u64>,
    pub limits: Option<TomlLimitsConfig>,
    pub rate_limits: Option<TomlRateLimitConfig>,
}

/// Knobs of the server itself, as values.
pub struct ServerConfigView {
    pub bind_addr: Option<Seq<char>>,
    pub whisper_model_path: Option<Seq<char>>,
    pub max_queue: Option<usize>,
    pub session_idle_timeout_ms: Option<u64>,
    pub infer_timeout_ms: Option<u64>,
    pub limits: Option<LimitsConfigView>,
    pub rate_limits: Option<RateLimitConfigView>,
}

impl View for TomlServerConfig {
    type V = ServerConfigView;

    open spec fn view(&self) -> ServerConfigView {
        ServerConfigView {
            bind_addr: text::opt_text(self.bind_addr),
            whisper_model_path: text::opt_text(self.whisper_model_path),
            max_queue: self.max_queue,
            session_idle_timeout_ms: self.session_idle_timeout_ms,
            infer_timeout_ms: self.infer_timeout_ms,
            limits: limits_view(self.limits),
            rate_limits: rate_limits_view(self.rate_limits),
        }
    }
}

/// The view of an optional table.
pub open spec fn server_view(o: Option<TomlServerConfig>) -> Option<ServerConfigView> {
    match o {
        Some(t) => Some(t@),
        None => None,
    }
}

impl TomlServerConfig {
    /// A copy.
    pub fn copy(&self) -> (r: Self)
        ensures
            r@ == self@,
    {
        TomlServerConfig {
            bind_addr: text::own_opt(&self.bind_addr),
            whisper_model_path: text::own_opt(&self.whisper_model_path),
            max_queue: self.max_queue,
            session_idle_timeout_ms: self.session_idle_timeout_ms,
            infer_timeout_ms: self.infer_timeout_ms,
            limits: match &self.limits {
                Some(t) => Some(t.copy()),
                None => None,
            },
            rate_limits: match &self.rate_limits {
                Some(t) => Some(t.copy()),
                None => None,
            },
        }
    }
}

/// One table over another.
pub open spec fn server_over(e: ServerConfigView, l: ServerConfigView) -> ServerConfigView {
    ServerConfigView {
        bind_addr: over(e.bind_addr, l.bind_addr),
        whisper_model_path: over(e.whisper_model_path, l.whisper_model_path),
        max_queue: over(e.max_queue, l.max_queue),
        session_idle_timeout_ms: over(e.session_idle_timeout_ms, l.session_idle_timeout_ms),
        infer_timeout_ms: over(e.infer_timeout_ms, l.infer_timeout_ms),
        limits: opt_limits_over(e.limits, l.limits),
        rate_limits: opt_rate_limits_over(e.rate_limits, l.rate_limits),
    }
}

/// One optional table over another.
pub open spec fn opt_server_over(
    e: Option<ServerConfigView>,
    l: Option<ServerConfigView>,
) -> Option<ServerConfigView> {
    match (e, l) {
        (Some(a), Some(b)) => Some(server_over(a, b)),
        _ => over(e, l),
    }
}

/// Lay one optional table over another.
fn merge_toml_server(
    earlier: Option<&TomlServerConfig>,
    later: Option<&TomlServerConfig>,
) -> (r: Option<TomlServerConfig>)
    ensures
        server_view(r) == opt_server_over(
            match earlier {
                Some(t) => Some(t@),
                None => None,
            },
            match later {
                Some(t) => Some(t@),
                None => None,
            },
        ),
{
    match (earlier, later) {
        (None, None) => None,
        (Some(e), None) => Some(e.copy()),
        (None, Some(l)) => Some(l.copy()),
        (Some(e), Some(l)) => Some(
            TomlServerConfig {
                bind_addr: later_text(&e.bind_addr, &l.bind_addr),
                whisper_model_path: later_text(&e.whisper_model_path, &l.whisper_model_path),
                max_queue: if l.max_queue.is_some() { l.max_queue } else { e.max_queue },
                session_idle_timeout_ms: if l.session_idle_timeout_ms.is_some() {
                    l.session_idle_timeout_ms
                } else {
                    e.session_idle_timeout_ms
                },
                infer_timeout_ms: if l.infer_timeout_ms.is_some() {
                    l.infer_timeout_ms
                } else {
                    e.infer_timeout_ms
                },
                limits: merge_toml_limits(e.limits.as_ref(), l.limits.as_ref()),
                rate_limits: merge_toml_rate_limits(e.rate_limits.as_ref(), l.rate_limits.as_ref()),
            },
        ),
    }
}

/// Knobs of the chat proxy.
#[derive(Debug, Clone, Default, PartialEq, Eq)]
pub struct TomlLlmConfig {
    pub enabled: Option<bool>,
    pub base_url: Option<String>,
    pub default_model: Option<String>,
    pub api_key: Option<String>,
    pub request_timeout_secs: Option<u64>,
    pub cors_allow_origins: Option<Vec<String>>,
    pub system_prompt: Option<String>,
    pub allow_user_location: Option<bool>,
}

/// Knobs of the chat proxy, as values.
pub struct LlmConfigView {
    pub enabled: Option<bool>,
    pub base_url: Option<Seq<char>>,
    pub default_model: Option<Seq<char>>,
    pub api_key: Option<Seq<char>>,
    pub request_timeout_secs: Option<u64>,
    pub cors_allow_origins: Option<Seq<Seq<char>>>,
    pub system_prompt: Option<Seq<char>>,
    pub allow_user_location: Option<bool>,
}

impl View for TomlLlmConfig {
    type V = LlmConfigView;

    open spec fn view(&self) -> LlmConfigView {
        LlmConfigView {
            enabled: self.enabled,
            base_url: text::opt_text(self.base_url),
            default_model: text::opt_text(self.default_model),
            api_key: text::opt_text(self.api_key),
            request_timeout_secs: self.request_timeout_secs,
            cors_allow_origins: opt_texts(self.cors_allow_origins),
            system_prompt: text::opt_text(self.system_prompt),
            allow_user_location: self.allow_user_location,
        }
    }
}

/// The view of an optional table.
pub open spec fn llm_view(o: Option<TomlLlmConfig>) -> Option<LlmConfigView> {
    match o {
        Some(t) => Some(t@),
        None => None,
    }
}

impl TomlLlmConfig {
    /// A copy.
    pub fn copy(&self) -> (r: Self)
        ensures
            r@ == self@,
    {
        TomlLlmConfig {
            enabled: self.enabled,
            base_url: text::own_opt(&self.base_url),
            default_model: text::own_opt(&self.default_model),
            api_key: text::own_opt(&self.api_key),
            request_timeout_secs: self.request_timeout_secs,
            cors_allow_origins: own_opt_list(&self.cors_allow_origins),
            system_prompt: text::own_opt(&self.system_prompt),
            allow_user_location: self.allow_user_location,
        }
    }
}

/// One table over another.
pub open spec fn llm_over(e: LlmConfigView, l: LlmConfigView) -> LlmConfigView {
    LlmConfigView {
        enabled: over(e.enabled, l.enabled),
        base_url: over(e.base_url, l.base_url),
        default_model: over(e.default_model, l.default_model),
        api_key: over(e.api_key, l.api_key),
        request_timeout_secs: over(e.request_timeout_secs, l.request_timeout_secs),
        cors_allow_origins: over(e.cors_allow_origins, l.cors_allow_origins),
        system_prompt: over(e.system_prompt, l.system_prompt),
        allow_user_location: over(e.allow_user_location, l.allow_user_location),
    }
}

/// One optional table over another.
pub open spec fn opt_llm_over(
    e: Option<LlmConfigView>,
    l: Option<LlmConfigView>,
) -> Option<LlmConfigView> {
    match (e, l) {
        (Some(a), Some(b)) => Some(llm_over(a, b)),
        _ => over(e, l),
    }
}

/// Lay one optional table over another.
fn merge_toml_llm(
    earlier: Option<&TomlLlmConfig>,
    later: Option<&TomlLlmConfig>,
) -> (r: Option<TomlLlmConfig>)
    ensures
        llm_view(r) == opt_llm_over(
            match earlier {
                Some(t) => Some(t@),
                None => None,
            },
            match later {
                Some(t) => Some(t@),
                None => None,
            },
        ),
{
    match (earlier, later) {
        (None, None) => None,
        (Some(e), None) => Some(e.copy()),
        (None, Some(l)) => Some(l.copy()),
        (Some(e), Some(l)) => Some(
            TomlLlmConfig {
                enabled: if l.enabled.is_some() { l.enabled } else { e.enabled },
                base_url: later_text(&e.base_url, &l.base_url),
                default_model: later_text(&e.default_model, &l.default_model),
                api_key: later_text(&e.api_key, &l.api_key),
                request_timeout_secs: if l.request_timeout_secs.is_some() {
                    l.request_timeout_secs
                } else {
                    e.request_timeout_secs
                },
                cors_allow_origins: later_list(&e.cors_allow_origins, &l.cors_allow_origins),
                system_prompt: later_text(&e.system_prompt, &l.system_prompt),
                allow_user_location: if l.allow_user_location.is_some() {
                    l.allow_user_location
                } else {
                    e.allow_user_location
                },
            },
        ),
    }
}

/// Network policy and transfer knobs of `web_fetch`.
#[derive(Debug, Clone, Default, PartialEq, Eq)]
pub struct TomlWebFetchConfig {
    pub allow_public: Option<bool>,
    pub allowlist: Option<Vec<String>>,
    pub max_bytes: Option<usize>,
    pub timeout_ms: Option<u64>,
}

/// Network policy and transfer knobs of `web_fetch`, as values.
pub struct WebFetchConfigView {
    pub allow_public: Option<bool>,
    pub allowlist: Option<Seq<Seq<char>>>,
    pub max_bytes: Option<usize>,
    pub timeout_ms: Option<u64>,
}

impl View for TomlWebFetchConfig {
    type V = WebFetchConfigView;

    open spec fn view(&self) -> WebFetchConfigView {
        WebFetchConfigView {
            allow_public: self.allow_public,
            allowlist: opt_texts(self.allowlist),
            max_bytes: self.max_bytes,
            timeout_ms: self.timeout_ms,
        }
    }
}

/// The view of an optional table.
pub open spec fn web_fetch_view(o: Option<TomlWebFetchConfig>) -> Option<WebFetchConfigView> {
    match o {
        Some(t) => Some(t@),
        None => None,
    }
}

impl TomlWebFetchConfig {
    /// A copy.
    pub fn copy(&self) -> (r: Self)
        ensures
            r@ == self@,
    {
        TomlWebFetchConfig {
            allow_public: self.allow_public,
            allowlist: own_opt_list(&self.allowlist),
            max_bytes: self.max_bytes,
            timeout_ms: self.timeout_ms,
        }
    }
}

/// One table over another.
pub open spec fn web_fetch_over(
    e: WebFetchConfigView,
    l: WebFetchConfigView,
) -> WebFetchConfigView {
    WebFetchConfigView {
        allow_public: over(e.allow_public, l.allow_public),
        allowlist: over(e.allowlist, l.allowlist),
        max_bytes: over(e.max_bytes, l.max_bytes),
        timeout_ms: over(e.timeout_ms, l.timeout_ms),
    }
}

/// One optional table over another.
pub open spec fn opt_web_fetch_over(
    e: Option<WebFetchConfigView>,
    l: Option<WebFetchConfigView>,
) -> Option<WebFetchConfigView> {
    match (e, l) {
        (Some(a), Some(b)) => Some(web_fetch_over(a, b)),
        _ => over(e, l),
    }
}

/// Lay one optional table over another.
fn merge_toml_web_fetch(
    earlier: Option<&TomlWebFetchConfig>,
    later: Option<&TomlWebFetchConfig>,
) -> (r: Option<TomlWebFetchConfig>)
    ensures
        web_fetch_view(r) == opt_web_fetch_over(
            match earlier {
                Some(t) => Some(t@),
                None => None,
            },
            match later {
                Some(t) => Some(t@),
                None => None,
            },
        ),
{
    match (earlier, later) {
        (None, None) => None,
        (Some(e), None) => Some(e.copy()),
        (None, Some(l)) => Some(l.copy()),
        (Some(e), Some(l)) => Some(
            TomlWebFetchConfig {
                allow_public: if l.allow_public.is_some() {
                    l.allow_public
                } else {
                    e.allow_public
                },
                allowlist: later_list(&e.allowlist, &l.allowlist),
                max_bytes: if l.max_bytes.is_some() { l.max_bytes } else { e.max_bytes },
                timeout_ms: if l.timeout_ms.is_some() { l.timeout_ms } else { e.timeout_ms },
            },
        ),
    }
}

/// Credentials for `get_weather`.
#[derive(Debug, Clone, Default, PartialEq, Eq)]
pub struct TomlWeatherConfig {
    pub api_key: Option<String>,
    pub timeout_ms: Option<u64>,
    pub base_url: Option<String>,
}

/// Credentials for `get_weather`, as values.
pub struct WeatherConfigView {
    pub api_key: Option<Seq<char>>,
    pub timeout_ms: Option<u64>,
    pub base_url: Option<Seq<char>>,
}

impl View for TomlWeatherConfig {
    type V = WeatherConfigView;

    open spec fn view(&self) -> WeatherConfigView {
        WeatherConfigView {
            api_key: text::opt_text(self.api_key),
            timeout_ms: self.timeout_ms,
            base_url: text::opt_text(self.base_url),
        }
    }
}

/// The view of an optional table.
pub open spec fn weather_view(o: Option<TomlWeatherConfig>) -> Option<WeatherConfigView> {
    match o {
        Some(t) => Some(t@),
        None => None,
    }
}

impl TomlWeatherConfig {
    /// A copy.
    pub fn copy(&self) -> (r: Self)
        ensures
            r@ == self@,
    {
        TomlWeatherConfig {
            api_key: text::own_opt(&self.api_key),
            timeout_ms: self.timeout_ms,
            base_url: text::own_opt(&self.base_url),
        }
    }
}

/// One table over another.
pub open spec fn weather_over(e: WeatherConfigView, l: WeatherConfigView) -> WeatherConfigView {
    WeatherConfigView {
        api_key: over(e.api_key, l.api_key),
        timeout_ms: over(e.timeout_ms, l.timeout_ms),
        base_url: over(e.base_url, l.base_url),
    }
}

/// One optional table over another.
pub open spec fn opt_weather_over(
    e: Option<WeatherConfigView>,
    l: Option<WeatherConfigView>,
) -> Option<WeatherConfigView> {
    match (e, l) {
        (Some(a), Some(b)) => Some(weather_over(a, b)),
        _ => over(e, l),
    }
}

/// Lay one optional table over another.
fn merge_toml_weather(
    earlier: Option<&TomlWeatherConfig>,
    later: Option<&TomlWeatherConfig>,
) -> (r: Option<TomlWeatherConfig>)
    ensures
        weather_view(r) == opt_weather_over(
            match earlier {
                Some(t) => Some(t@),
                None => None,
            },
            match later {
                Some(t) => Some(t@),
                None => None,
            },
        ),
{
    match (earlier, later) {
        (None, None) => None,
        (Some(e), None) => Some(e.copy()),
        (None, Some(l)) => Some(l.copy()),
        (Some(e), Some(l)) => Some(
            TomlWeatherConfig {
                api_key: later_text(&e.api_key, &l.api_key),
                timeout_ms: if l.timeout_ms.is_some() { l.timeout_ms } else { e.timeout_ms },
                base_url: later_text(&e.base_url, &l.base_url),
            },
        ),
    }
}

/// Switches of the agents, and a table for each tool.
#[derive(Debug, Clone, Default, PartialEq, Eq)]
pub struct TomlAgentConfig {
    pub enabled: Option<bool>,
    pub llm_max_tool_rounds: Option<u32>,
    pub web_fetch: Option<TomlWebFetchConfig>,
    pub get_weather: Option<TomlWeatherConfig>,
}

/// Switches of the agents, and a table for each tool, as values.
pub struct AgentConfigView {
    pub enabled: Option<bool>,
    pub llm_max_tool_rounds: Option<u32>,
    pub web_fetch: Option<WebFetchConfigView>,
    pub get_weather: Option<WeatherConfigView>,
}

impl View for TomlAgentConfig {
    type V = AgentConfigView;

    open spec fn view(&self) -> AgentConfigView {
        AgentConfigView {
            enabled: self.enabled,
            llm_max_tool_rounds: self.llm_max_tool_rounds,
            web_fetch: web_fetch_view(self.web_fetch),
            get_weather: weather_view(self.get_weather),
        }
    }
}

/// The view of an optional table.
pub open spec fn agents_view(o: Option<TomlAgentConfig>) -> Option<AgentConfigView> {
    match o {
        Some(t) => Some(t@),
        None => None,
    }
}

impl TomlAgentConfig {
    /// A copy.
    pub fn copy(&self) -> (r: Self)
        ensures
            r@ == self@,
    {
        TomlAgentConfig {
            enabled: self.enabled,
            llm_max_tool_rounds: self.llm_max_tool_rounds,
            web_fetch: match &self.web_fetch {
                Some(t) => Some(t.copy()),
                None => None,
            },
            get_weather: match &self.get_weather {
                Some(t) => Some(t.copy()),
                None => None,
            },
        }
    }
}

/// One table over another.
pub open spec fn agents_over(e: AgentConfigView, l: AgentConfigView) -> AgentConfigView {
    AgentConfigView {
        enabled: over(e.enabled, l.enabled),
        llm_max_tool_rounds: over(e.llm_max_tool_rounds, l.llm_max_tool_rounds),
        web_fetch: opt_web_fetch_over(e.web_fetch, l.web_fetch),
        get_weather: opt_weather_over(e.get_weather, l.get_weather),
    }
}

/// One optional table over another.
pub open spec fn opt_agents_over(
    e: Option<AgentConfigView>,
    l: Option<AgentConfigView>,
) -> Option<AgentConfigView> {
    match (e, l) {
        (Some(a), Some(b)) => Some(agents_over(a, b)),
        _ => over(e, l),
    }
}

/// Lay one optional table over another.
fn merge_toml_agents(
    earlier: Option<&TomlAgentConfig>,
    later: Option<&TomlAgentConfig>,
) -> (r: Option<TomlAgentConfig>)
    ensures
        agents_view(r) == opt_agents_over(
            match earlier {
                Some(t) => Some(t@),
                None => None,
            },
            match later {
                Some(t) => Some(t@),
                None => None,
            },
        ),
{
    match (earlier, later) {
        (None, None) => None,
        (Some(e), None) => Some(e.copy()),
        (None, Some(l)) => Some(l.copy()),
        (Some(e), Some(l)) => Some(
            TomlAgentConfig {
                enabled: if l.enabled.is_some() { l.enabled } else { e.enabled },
                llm_max_tool_rounds: if l.llm_max_tool_rounds.is_some() {
                    l.llm_max_tool_rounds
                } else {
                    e.llm_max_tool_rounds
                },
                web_fetch: merge_toml_web_fetch(e.web_fetch.as_ref(), l.web_fetch.as_ref()),
                get_weather: merge_toml_weather(e.get_weather.as_ref(), l.get_weather.as_ref()),
            },
        ),
    }
}

/// The root of a configuration file.
#[derive(Debug, Clone, Default, PartialEq, Eq)]
pub struct TomlConfig {
    pub server: Option<TomlServerConfig>,
    pub llm: Option<TomlLlmConfig>,
    pub agents: Option<TomlAgentConfig>,
}

/// The root of a configuration file, as values.
pub struct ConfigView {
    pub server: Option<ServerConfigView>,
    pub llm: Option<LlmConfigView>,
    pub agents: Option<AgentConfigView>,
}

impl View for TomlConfig {
    type V = ConfigView;

    open spec fn view(&self) -> ConfigView {
        ConfigView {
            server: server_view(self.server),
            llm: llm_view(self.llm),
            agents: agents_view(self.agents),
        }
    }
}

impl TomlConfig {
    /// A copy.
    pub fn copy(&self) -> (r: Self)
        ensures
            r@ == self@,
    {
        TomlConfig {
            server: match &self.server {
                Some(t) => Some(t.copy()),
                None => None,
            },
            llm: match &self.llm {
                Some(t) => Some(t.copy()),
                None => None,
            },
            agents: match &self.agents {
                Some(t) => Some(t.copy()),
                None => None,
            },
        }
    }
}

/// One table over another.
pub open spec fn configs_over(e: ConfigView, l: ConfigView) -> ConfigView {
    ConfigView {
        server: opt_server_over(e.server, l.server),
        llm: opt_llm_over(e.llm, l.llm),
        agents: opt_agents_over(e.agents, l.agents),
    }
}

/// Lay one file over another: each value of `later` wins, and what it leaves
/// open falls through to `earlier`, in sub-tables too.
pub fn merge_toml_configs(earlier: &TomlConfig, later: &TomlConfig) -> (r: TomlConfig)
    ensures
        r@ == configs_over(earlier@, later@),
{
    TomlConfig {
        server: merge_toml_server(earlier.server.as_ref(), later.server.as_ref()),
        llm: merge_toml_llm(earlier.llm.as_ref(), later.llm.as_ref()),
        agents: merge_toml_agents(earlier.agents.as_ref(), later.agents.as_ref()),
    }
}

/// A file that says nothing.
pub open spec fn silent() -> ConfigView {
    ConfigView { server: None, llm: None, agents: None }
}

impl TomlConfig {
    /// A file that says nothing.
    pub fn empty() -> (r: Self)
        ensures
            r@ == silent(),
    {
        TomlConfig { server: None, llm: None, agents: None }
    }
}

/// Why a configuration file could not be taken.
#[derive(Debug, Clone, PartialEq, Eq)]
pub enum ConfigFileError {
    /// The file could not be read: its path, and why.
    Io(String, String),
    /// The file is not a configuration: its path, and why.
    Parse(String, String),
}

impl ConfigFileError {
    /// The message of the error.
    pub open spec fn text(self) -> Seq<char> {
        match self {
            ConfigFileError::Io(p, e) => "could not read config file "@ + p@ + ": "@ + e@,
            ConfigFileError::Parse(p, e) => "invalid config file "@ + p@ + ": "@ + e@,
        }
    }

    /// The message of the error.
    pub fn message(&self) -> (r: String)
        ensures
            r@ == self.text(),
    {
        match self {
            ConfigFileError::Io(p, e) => {
                let mut r = text::own("could not read config file ");
                r.append(p.as_str());
                r.append(": ");
                r.append(e.as_str());
                r
            },
            ConfigFileError::Parse(p, e) => {
                let mut r = text::own("invalid config file ");
                r.append(p.as_str());
                r.append(": ");
                r.append(e.as_str());
                r
            },
        }
    }
}

// ---- Laws ---------------------------------------------------------------

/// To lay a silent file under or over another changes nothing.
pub proof fn law_silent_file_changes_nothing(c: ConfigView)
    ensures
        configs_over(c, silent()) == c,
        configs_over(silent(), c) == c,
{
}

/// A file over itself is the file.
pub proof fn law_file_over_itself(c: ConfigView)
    ensures
        configs_over(c, c) == c,
{
}

proof fn lemma_limits_stack(
    a: Option<LimitsConfigView>,
    b: Option<LimitsConfigView>,
    c: Option<LimitsConfigView>,
)
    ensures
        opt_limits_over(opt_limits_over(a, b), c) == opt_limits_over(a, opt_limits_over(b, c)),
{
}

proof fn lemma_rate_limits_stack(
    a: Option<RateLimitConfigView>,
    b: Option<RateLimitConfigView>,
    c: Option<RateLimitConfigView>,
)
    ensures
        opt_rate_limits_over(opt_rate_limits_over(a, b), c) == opt_rate_limits_over(a, opt_rate_limits_over(b, c)),
{
}

proof fn lemma_server_stack(
    a: Option<ServerConfigView>,
    b: Option<ServerConfigView>,
    c: Option<ServerConfigView>,
)
    ensures
        opt_server_over(opt_server_over(a, b), c) == opt_server_over(a, opt_server_over(b, c)),
{
    match (a, b, c) {
        (Some(x), Some(y), Some(z)) => {
            lemma_limits_stack(x.limits, y.limits, z.limits);
            lemma_rate_limits_stack(x.rate_limits, y.rate_limits, z.rate_limits);
        },
        _ => {},
    }
}

proof fn lemma_llm_stack(
    a: Option<LlmConfigView>,
    b: Option<LlmConfigView>,
    c: Option<LlmConfigView>,
)
    ensures
        opt_llm_over(opt_llm_over(a, b), c) == opt_llm_over(a, opt_llm_over(b, c)),
{
}

proof fn lemma_web_fetch_stack(
    a: Option<WebFetchConfigView>,
    b: Option<WebFetchConfigView>,
    c: Option<WebFetchConfigView>,
)
    ensures
        opt_web_fetch_over(opt_web_fetch_over(a, b), c) == opt_web_fetch_over(a, opt_web_fetch_over(b, c)),
{
}

proof fn lemma_weather_stack(
    a: Option<WeatherConfigView>,
    b: Option<WeatherConfigView>,
    c: Option<WeatherConfigView>,
)
    ensures
        opt_weather_over(opt_weather_over(a, b), c) == opt_weather_over(a, opt_weather_over(b, c)),
{
}

proof fn lemma_agents_stack(
    a: Option<AgentConfigView>,
    b: Option<AgentConfigView>,
    c: Option<AgentConfigView>,
)
    ensures
        opt_agents_over(opt_agents_over(a, b), c) == opt_agents_over(a, opt_agents_over(b, c)),
{
    match (a, b, c) {
        (Some(x), Some(y), Some(z)) => {
            lemma_web_fetch_stack(x.web_fetch, y.web_fetch, z.web_fetch);
            lemma_weather_stack(x.get_weather, y.get_weather, z.get_weather);
        },
        _ => {},
    }
}

/// Of three files it does not matter which two are laid together first.
pub proof fn law_files_stack(a: ConfigView, b: ConfigView, c: ConfigView)
    ensures
        configs_over(configs_over(a, b), c) == configs_over(a, configs_over(b, c)),
{
    lemma_server_stack(a.server, b.server, c.server);
    lemma_llm_stack(a.llm, b.llm, c.llm);
    lemma_agents_stack(a.agents, b.agents, c.agents);
}

/// What of two files counts for one entry: the later where it says something, else the
/// earlier.
pub open spec fn later_counts<T>(earlier: Option<T>, later: Option<T>, both: Option<T>) -> bool {
    &&& later is Some ==> both == later
    &&& later is None ==> both == earlier
}

/// Of the entries of the limits, each counts as the later file has it.
pub proof fn law_later_limits_count(e: LimitsConfigView, l: LimitsConfigView)
    ensures
        later_counts(e.max_audio_frame_samples, l.max_audio_frame_samples, limits_over(e, l).max_audio_frame_samples),
        later_counts(e.required_sample_rate, l.required_sample_rate, limits_over(e, l).required_sample_rate),
        later_counts(e.max_language_hint_bytes, l.max_language_hint_bytes, limits_over(e, l).max_language_hint_bytes),
{
}

/// Of the entries of the rates, each counts as the later file has it.
pub proof fn law_later_rate_limits_count(e: RateLimitConfigView, l: RateLimitConfigView)
    ensures
        later_counts(e.stt_per_min, l.stt_per_min, rate_limits_over(e, l).stt_per_min),
        later_counts(e.llm_per_min, l.llm_per_min, rate_limits_over(e, l).llm_per_min),
{
}

/// Of the entries of the server, each counts as the later file has it.
pub proof fn law_later_server_count(e: ServerConfigView, l: ServerConfigView)
    ensures
        later_counts(e.bind_addr, l.bind_addr, server_over(e, l).bind_addr),
        later_counts(e.whisper_model_path, l.whisper_model_path, server_over(e, l).whisper_model_path),
        later_counts(e.max_queue, l.max_queue, server_over(e, l).max_queue),
        later_counts(e.session_idle_timeout_ms, l.session_idle_timeout_ms, server_over(e, l).session_idle_timeout_ms),
        later_counts(e.infer_timeout_ms, l.infer_timeout_ms, server_over(e, l).infer_timeout_ms),
        e.limits is Some && l.limits is Some ==> server_over(e, l).limits == Some(
            limits_over(e.limits->0, l.limits->0),
        ),
        e.limits is None || l.limits is None ==> later_counts(
            e.limits,
            l.limits,
            server_over(e, l).limits,
        ),
        e.rate_limits is Some && l.rate_limits is Some ==> server_over(e, l).rate_limits == Some(
            rate_limits_over(e.rate_limits->0, l.rate_limits->0),
        ),
        e.rate_limits is None || l.rate_limits is None ==> later_counts(
            e.rate_limits,
            l.rate_limits,
            server_over(e, l).rate_limits,
        ),
{
}

/// Of the entries of the chat proxy, each counts as the later file has it.
pub proof fn law_later_llm_count(e: LlmConfigView, l: LlmConfigView)
    ensures
        later_counts(e.enabled, l.enabled, llm_over(e, l).enabled),
        later_counts(e.base_url, l.base_url, llm_over(e, l).base_url),
        later_counts(e.default_model, l.default_model, llm_over(e, l).default_model),
        later_counts(e.api_key, l.api_key, llm_over(e, l).api_key),
        later_counts(e.request_timeout_secs, l.request_timeout_secs, llm_over(e, l).request_timeout_secs),
        later_counts(e.cors_allow_origins, l.cors_allow_origins, llm_over(e, l).cors_allow_origins),
        later_counts(e.system_prompt, l.system_prompt, llm_over(e, l).system_prompt),
        later_counts(e.allow_user_location, l.allow_user_location, llm_over(e, l).allow_user_location),
{
}

/// Of the entries of page fetching, each counts as the later file has it.
pub proof fn law_later_web_fetch_count(e: WebFetchConfigView, l: WebFetchConfigView)
    ensures
        later_counts(e.allow_public, l.allow_public, web_fetch_over(e, l).allow_public),
        later_counts(e.allowlist, l.allowlist, web_fetch_over(e, l).allowlist),
        later_counts(e.max_bytes, l.max_bytes, web_fetch_over(e, l).max_bytes),
        later_counts(e.timeout_ms, l.timeout_ms, web_fetch_over(e, l).timeout_ms),
{
}

/// Of the entries of the weather, each counts as the later file has it.
pub proof fn law_later_weather_count(e: WeatherConfigView, l: WeatherConfigView)
    ensures
        later_counts(e.api_key, l.api_key, weather_over(e, l).api_key),
        later_counts(e.timeout_ms, l.timeout_ms, weather_over(e, l).timeout_ms),
        later_counts(e.base_url, l.base_url, weather_over(e, l).base_url),
{
}

/// Of the entries of the agents, each counts as the later file has it.
pub proof fn law_later_agents_count(e: AgentConfigView, l: AgentConfigView)
    ensures
        later_counts(e.enabled, l.enabled, agents_over(e, l).enabled),
        later_counts(e.llm_max_tool_rounds, l.llm_max_tool_rounds, agents_over(e, l).llm_max_tool_rounds),
        e.web_fetch is Some && l.web_fetch is Some ==> agents_over(e, l).web_fetch == Some(
            web_fetch_over(e.web_fetch->0, l.web_fetch->0),
        ),
        e.web_fetch is None || l.web_fetch is None ==> later_counts(
            e.web_fetch,
            l.web_fetch,
            agents_over(e, l).web_fetch,
        ),
        e.get_weather is Some && l.get_weather is Some ==> agents_over(e, l).get_weather == Some(
            weather_over(e.get_weather->0, l.get_weather->0),
        ),
        e.get_weather is None || l.get_weather is None ==> later_counts(
            e.get_weather,
            l.get_weather,
            agents_over(e, l).get_weather,
        ),
{
}

/// Two files make one section by section: where both have one, its entries are put
/// together; else the one that is there counts.
pub proof fn law_later_sections_count(e: ConfigView, l: ConfigView)
    ensures
        e.server is Some && l.server is Some ==> configs_over(e, l).server == Some(
            server_over(e.server->0, l.server->0),
        ),
        e.server is None || l.server is None ==> later_counts(
            e.server,
            l.server,
            configs_over(e, l).server,
        ),
        e.llm is Some && l.llm is Some ==> configs_over(e, l).llm == Some(
            llm_over(e.llm->0, l.llm->0),
        ),
        e.llm is None || l.llm is None ==> later_counts(e.llm, l.llm, configs_over(e, l).llm),
        e.agents is Some && l.agents is Some ==> configs_over(e, l).agents == Some(
            agents_over(e.agents->0, l.agents->0),
        ),
        e.agents is None || l.agents is None ==> later_counts(
            e.agents,
            l.agents,
            configs_over(e, l).agents,
        ),
{
}

/// What is said of a file that cannot be used names the file and says why.
pub proof fn law_file_errors_name_the_file(e: ConfigFileError)
    ensures
        e is Io ==> e.text() == "could not read config file "@ + e->Io_0@ + ": "@ + e->Io_1@,
        e is Parse ==> e.text() == "invalid config file "@ + e->Parse_0@ + ": "@ + e->Parse_1@,
{
}

} // verus!
