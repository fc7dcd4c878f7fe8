//! The server's configuration.
//!
//! For every knob an environment variable wins over the configuration file,
//! and the file over the default. The path of the speech model is the only
//! knob without a default.

use vstd::prelude::*;

use crate::config_file;
use crate::config_file::{
    TomlAgentConfig, TomlConfig, TomlLimitsConfig, TomlLlmConfig, TomlRateLimitConfig,
    TomlServerConfig, TomlWeatherConfig, TomlWebFetchConfig,
};
use crate::llm_prompt;
use crate::net::Endpoint;
use crate::text;

verus! {

// ---- Errors -------------------------------------------------------------

/// Why there is no configuration.
#[derive(Debug, Clone, PartialEq, Eq)]
pub enum ConfigError {
    /// No path of the speech model is given.
    MissingModelPath,
    /// The address to listen on cannot be read.
    InvalidBindAddr(String),
    /// A variable cannot be read: its name, and why.
    InvalidEnv(String, String),
}

/// Why there is no configuration, as values.
pub enum ErrorView {
    MissingModelPath,
    InvalidBindAddr(Seq<char>),
    InvalidEnv(Seq<char>, Seq<char>),
}

impl View for ConfigError {
    type V = ErrorView;

    open spec fn view(&self) -> ErrorView {
        match *self {
            ConfigError::MissingModelPath => ErrorView::MissingModelPath,
            ConfigError::InvalidBindAddr(e) => ErrorView::InvalidBindAddr(e@),
            ConfigError::InvalidEnv(k, e) => ErrorView::InvalidEnv(k@, e@),
        }
    }
}

impl ConfigError {
    /// The message of the error.
    pub open spec fn text(self) -> Seq<char> {
        match self {
            ConfigError::MissingModelPath => "WHISPER_MODEL_PATH is required"@,
            ConfigError::InvalidBindAddr(e) => "invalid BIND_ADDR: "@ + e@,
            ConfigError::InvalidEnv(k, e) => "invalid env var "@ + k@ + ": "@ + e@,
        }
    }

    /// The message of the error.
    pub fn message(&self) -> (r: String)
        ensures
            r@ == self.text(),
    {
        match self {
            ConfigError::MissingModelPath => text::own("WHISPER_MODEL_PATH is required"),
            ConfigError::InvalidBindAddr(e) => text::own("invalid BIND_ADDR: ").concat(e.as_str()),
            ConfigError::InvalidEnv(k, e) => {
                let mut r = text::own("invalid env var ");
                r.append(k.as_str());
                r.append(": ");
                r.append(e.as_str());
                r
            },
        }
    }
}

/// The first error in a list of findings.
pub open spec fn first_error(s: Seq<Option<ErrorView>>) -> Option<ErrorView>
    decreases s.len(),
{
    if s.len() == 0 {
        None
    } else if s[0] is Some {
        s[0]
    } else {
        first_error(s.subrange(1, s.len() as int))
    }
}

/// Of two lists in a row the first that has an error decides.
proof fn lemma_first_error_concat(a: Seq<Option<ErrorView>>, b: Seq<Option<ErrorView>>)
    ensures
        first_error(a + b) == match first_error(a) {
            Some(e) => Some(e),
            None => first_error(b),
        },
    decreases a.len(),
{
    if a.len() == 0 {
        assert(a + b == b);
    } else {
        assert((a + b)[0] == a[0]);
        assert((a + b).subrange(1, (a + b).len() as int) == a.subrange(1, a.len() as int) + b);
        lemma_first_error_concat(a.subrange(1, a.len() as int), b);
    }
}

/// A list of one finding.
proof fn lemma_first_error_one(e: Option<ErrorView>)
    ensures
        first_error(seq![e]) == e,
{
    assert(seq![e].subrange(1, 1) == Seq::<Option<ErrorView>>::empty());
    assert(first_error(Seq::<Option<ErrorView>>::empty()) is None);
}

/// A finding before a list.
proof fn lemma_first_error_cons(e: Option<ErrorView>, rest: Seq<Option<ErrorView>>)
    ensures
        first_error(seq![e] + rest) == match e {
            Some(x) => Some(x),
            None => first_error(rest),
        },
{
    lemma_first_error_concat(seq![e], rest);
    lemma_first_error_one(e);
}

// ---- The environment ----------------------------------------------------

/// The environment variables, each name once.
#[derive(Debug)]
pub struct Env {
    pub vars: Vec<(String, String)>,
}

/// The value of the first variable called `key` at or after `from`.
pub open spec fn var_from(s: Seq<(String, String)>, key: Seq<char>, from: int) -> Option<Seq<char>>
    decreases s.len() - from,
{
    if from >= s.len() {
        None
    } else if s[from].0@ == key {
        Some(s[from].1@)
    } else {
        var_from(s, key, from + 1)
    }
}

impl Env {
    /// The value of a variable.
    pub open spec fn var(&self, key: Seq<char>) -> Option<Seq<char>> {
        var_from(self.vars@, key, 0)
    }

    /// The value of a variable.
    pub fn get(&self, key: &str) -> (r: Option<String>)
        ensures
            text::opt_text(r) == self.var(key@),
    {
        let mut i: usize = 0;
        while i < self.vars.len()
            invariant
                i <= self.vars.len(),
                self.var(key@) == var_from(self.vars@, key@, i as int),
            decreases self.vars.len() - i,
        {
            if text::same(self.vars[i].0.as_str(), key) {
                return Some(self.vars[i].1.clone());
            }
            i += 1;
        }
        None
    }

    /// What is wrong with a variable that is to hold a number of at most `max`.
    pub open spec fn nat_error(&self, key: Seq<char>, max: int) -> Option<ErrorView> {
        match self.var(key) {
            Some(t) => match text::parse_nat(t, max) {
                Ok(_) => None,
                Err(e) => Some(ErrorView::InvalidEnv(key, e.text())),
            },
            None => None,
        }
    }

    /// The number that a knob has: the variable's, else `fallback`.
    pub open spec fn nat_knob(&self, key: Seq<char>, fallback: int, max: int) -> int {
        match self.var(key) {
            Some(t) => text::parse_nat(t, max)->Ok_0,
            None => fallback,
        }
    }

    /// Read a numeric knob.
    fn parse_nat(&self, key: &str, fallback: u64, max: u64) -> (r: Result<u64, ConfigError>)
        requires
            fallback <= max,
        ensures
            match r {
                Ok(n) => self.nat_error(key@, max as int) is None && n == self.nat_knob(
                    key@,
                    fallback as int,
                    max as int,
                ) && n <= max,
                Err(e) => self.nat_error(key@, max as int) == Some(e@),
            },
    {
        match self.get(key) {
            Some(v) => match text::read_nat(v.as_str(), max) {
                Ok(n) => Ok(n),
                Err(e) => Err(ConfigError::InvalidEnv(text::own(key), text::own(e.message()))),
            },
            None => Ok(fallback),
        }
    }

    /// What is wrong with a variable that is to hold a truth value.
    pub open spec fn bool_error(&self, key: Seq<char>) -> Option<ErrorView> {
        match self.var(key) {
            Some(t) => if t == "true"@ || t == "false"@ {
                None
            } else {
                Some(
                    ErrorView::InvalidEnv(key, "provided string was not `true` or `false`"@),
                )
            },
            None => None,
        }
    }

    /// The truth value that a knob has.
    pub open spec fn bool_knob(&self, key: Seq<char>, fallback: bool) -> bool {
        match self.var(key) {
            Some(t) => t == "true"@,
            None => fallback,
        }
    }

    /// Read a truth value.
    fn parse_bool(&self, key: &str, fallback: bool) -> (r: Result<bool, ConfigError>)
        ensures
            match r {
                Ok(b) => self.bool_error(key@) is None && b == self.bool_knob(key@, fallback),
                Err(e) => self.bool_error(key@) == Some(e@),
            },
    {
        match self.get(key) {
            Some(v) => {
                if text::same(v.as_str(), "true") {
                    Ok(true)
                } else if text::same(v.as_str(), "false") {
                    proof {
                        reveal_strlit("true");
                        reveal_strlit("false");
                        assert("true"@.len() != "false"@.len());
                    }
                    Ok(false)
                } else {
                    Err(
                        ConfigError::InvalidEnv(
                            text::own(key),
                            text::own("provided string was not `true` or `false`"),
                        ),
                    )
                }
            },
            None => Ok(fallback),
        }
    }

    /// The text that a knob has.
    pub open spec fn text_knob(&self, key: Seq<char>, fallback: Seq<char>) -> Seq<char> {
        match self.var(key) {
            Some(t) => t,
            None => fallback,
        }
    }

    /// Read a text.
    fn parse_text(&self, key: &str, fallback: String) -> (r: String)
        ensures
            r@ == self.text_knob(key@, fallback@),
    {
        match self.get(key) {
            Some(v) => v,
            None => fallback,
        }
    }

    /// The list that a knob has: the variable's pieces between commas, without
    /// outer white space and without the empty ones; else `fallback`.
    pub open spec fn list_knob(&self, key: Seq<char>, fallback: Seq<Seq<char>>) -> Seq<
        Seq<char>,
    > {
        match self.var(key) {
            Some(t) => pieces(text::split(t, ',')),
            None => fallback,
        }
    }

    /// Read a list.
    fn parse_list(&self, key: &str, fallback: Vec<String>) -> (r: Vec<String>)
        ensures
            text::texts(r@) == self.list_knob(key@, text::texts(fallback@)),
    {
        match self.get(key) {
            Some(v) => comma_list(v.as_str()),
            None => fallback,
        }
    }
}

/// The pieces without outer white space, and without those that are empty.
pub open spec fn pieces(s: Seq<Seq<char>>) -> Seq<Seq<char>>
    decreases s.len(),
{
    if s.len() == 0 {
        Seq::empty()
    } else {
        let t = text::trim(s.last());
        if t.len() == 0 {
            pieces(s.drop_last())
        } else {
            pieces(s.drop_last()).push(t)
        }
    }
}

/// The pieces of a text between commas.
pub fn comma_list(s: &str) -> (r: Vec<String>)
    ensures
        text::texts(r@) == pieces(text::split(s@, ',')),
{
    let parts = text::split_on(s, ',');
    let ghost all = text::texts(parts@);
    let mut out: Vec<String> = Vec::new();
    let mut i: usize = 0;
    while i < parts.len()
        invariant
            i <= parts.len(),
            all == text::texts(parts@),
            text::texts(out@) == pieces(all.take(i as int)),
        decreases parts.len() - i,
    {
        let t = text::trimmed(parts[i].as_str());
        proof {
            assert(all.take(i + 1).drop_last() == all.take(i as int));
        }
        if !t.as_str().is_empty() {
            let ghost before = text::texts(out@);
            out.push(t);
            assert(text::texts(out@) == before.push(t@));
        }
        i += 1;
    }
    assert(all.take(i as int) == all);
    out
}

// ---- Rate limits --------------------------------------------------------

/// Rate limits for each source address.
#[derive(Debug, Clone, Copy, PartialEq, Eq, Structural)]
pub struct RateLimitConfig {
    /// Speech frames in a minute.
    pub stt_per_min: u32,
    /// Chat requests in a minute.
    pub llm_per_min: u32,
}

impl Default for RateLimitConfig {
    fn default() -> (r: Self)
        ensures
            r == (RateLimitConfig { stt_per_min: 120, llm_per_min: 30 }),
    {
        RateLimitConfig { stt_per_min: 120, llm_per_min: 30 }
    }
}

/// A value of the file, else the default.
pub open spec fn or_default<T>(file: Option<T>, default: T) -> T {
    match file {
        Some(v) => v,
        None => default,
    }
}

/// The file's rate limits over the defaults.
pub open spec fn rate_limit_base(file: Option<TomlRateLimitConfig>) -> RateLimitConfig {
    match file {
        Some(f) => RateLimitConfig {
            stt_per_min: or_default(f.stt_per_min, 120),
            llm_per_min: or_default(f.llm_per_min, 30),
        },
        None => RateLimitConfig { stt_per_min: 120, llm_per_min: 30 },
    }
}

/// What is wrong with the variables for the rate limits.
pub open spec fn rate_limit_errors(env: Env) -> Seq<Option<ErrorView>> {
    seq![
        env.nat_error("STT_RATE_PER_MIN"@, u32::MAX as int),
    ] + seq![
        env.nat_error("LLM_RATE_PER_MIN"@, u32::MAX as int),
    ]
}

/// The environment's rate limits over `base`.
pub open spec fn rate_limit_resolved(env: Env, base: RateLimitConfig) -> RateLimitConfig {
    RateLimitConfig {
        stt_per_min: env.nat_knob(
            "STT_RATE_PER_MIN"@,
            base.stt_per_min as int,
            u32::MAX as int,
        ) as u32,
        llm_per_min: env.nat_knob(
            "LLM_RATE_PER_MIN"@,
            base.llm_per_min as int,
            u32::MAX as int,
        ) as u32,
    }
}

impl RateLimitConfig {
    /// The rate limits: environment, then file, then default.
    pub fn from_env(env: &Env, file: Option<&TomlRateLimitConfig>) -> (r: Result<
        Self,
        ConfigError,
    >)
        ensures
            match r {
                Ok(c) => first_error(rate_limit_errors(*env)) is None && c == rate_limit_resolved(
                    *env,
                    rate_limit_base(deref_opt(file)),
                ),
                Err(e) => first_error(rate_limit_errors(*env)) == Some(e@),
            },
    {
        let mut base = RateLimitConfig::default();
        match file {
            Some(f) => {
                match f.stt_per_min {
                    Some(n) => {
                        base.stt_per_min = n;
                    },
                    None => {},
                }
                match f.llm_per_min {
                    Some(n) => {
                        base.llm_per_min = n;
                    },
                    None => {},
                }
            },
            None => {},
        }
        proof {
            lemma_first_error_cons(
                env.nat_error("STT_RATE_PER_MIN"@, u32::MAX as int),
                seq![env.nat_error("LLM_RATE_PER_MIN"@, u32::MAX as int)],
            );
            lemma_first_error_one(env.nat_error("LLM_RATE_PER_MIN"@, u32::MAX as int));
        }
        let stt: u64 = match env.parse_nat(
            "STT_RATE_PER_MIN",
            base.stt_per_min as u64,
            u32::MAX as u64,
        ) {
            Ok(n) => n,
            Err(e) => {
                return Err(e);
            },
        };
        let llm: u64 = match env.parse_nat(
            "LLM_RATE_PER_MIN",
            base.llm_per_min as u64,
            u32::MAX as u64,
        ) {
            Ok(n) => n,
            Err(e) => {
                return Err(e);
            },
        };
        Ok(RateLimitConfig { stt_per_min: stt as u32, llm_per_min: llm as u32 })
    }
}

/// What an optional reference refers to.
pub open spec fn deref_opt<T>(o: Option<&T>) -> Option<T> {
    match o {
        Some(t) => Some(*t),
        None => None,
    }
}

// ---- Frame limits -------------------------------------------------------

/// Limits on inbound WebSocket frames.
#[derive(Debug, Clone, Copy, PartialEq, Eq, Structural)]
pub struct LimitsConfig {
    /// Samples in one audio frame.
    pub max_audio_frame_samples: usize,
    /// The only sample rate.
    pub required_sample_rate: u32,
    /// Bytes of a language hint.
    pub max_language_hint_bytes: usize,
}

/// Thirty seconds at sixteen kilohertz, and short language codes.
pub open spec fn default_limits() -> LimitsConfig {
    LimitsConfig {
        max_audio_frame_samples: 480_000,
        required_sample_rate: 16_000,
        max_language_hint_bytes: 16,
    }
}

impl Default for LimitsConfig {
    fn default() -> (r: Self)
        ensures
            r == default_limits(),
    {
        LimitsConfig {
            max_audio_frame_samples: 480_000,
            required_sample_rate: 16_000,
            max_language_hint_bytes: 16,
        }
    }
}

/// The file's limits over the defaults.
pub open spec fn limits_base(file: Option<TomlLimitsConfig>) -> LimitsConfig {
    match file {
        Some(f) => LimitsConfig {
            max_audio_frame_samples: or_default(f.max_audio_frame_samples, 480_000),
            required_sample_rate: or_default(f.required_sample_rate, 16_000),
            max_language_hint_bytes: or_default(f.max_language_hint_bytes, 16),
        },
        None => default_limits(),
    }
}

/// What is wrong with the variables for the frame limits.
pub open spec fn limits_errors(env: Env) -> Seq<Option<ErrorView>> {
    seq![env.nat_error("MAX_AUDIO_FRAME_SAMPLES"@, usize::MAX as int)] + (seq![
        env.nat_error("REQUIRED_SAMPLE_RATE"@, u32::MAX as int),
    ] + seq![env.nat_error("MAX_LANGUAGE_HINT_BYTES"@, usize::MAX as int)])
}

/// The environment's frame limits over `base`.
pub open spec fn limits_resolved(env: Env, base: LimitsConfig) -> LimitsConfig {
    LimitsConfig {
        max_audio_frame_samples: env.nat_knob(
            "MAX_AUDIO_FRAME_SAMPLES"@,
            base.max_audio_frame_samples as int,
            usize::MAX as int,
        ) as usize,
        required_sample_rate: env.nat_knob(
            "REQUIRED_SAMPLE_RATE"@,
            base.required_sample_rate as int,
            u32::MAX as int,
        ) as u32,
        max_language_hint_bytes: env.nat_knob(
            "MAX_LANGUAGE_HINT_BYTES"@,
            base.max_language_hint_bytes as int,
            usize::MAX as int,
        ) as usize,
    }
}

impl LimitsConfig {
    /// The frame limits: environment, then file, then default.
    pub fn from_env(env: &Env, file: Option<&TomlLimitsConfig>) -> (r: Result<Self, ConfigError>)
        ensures
            match r {
                Ok(c) => first_error(limits_errors(*env)) is None && c == limits_resolved(
                    *env,
                    limits_base(deref_opt(file)),
                ),
                Err(e) => first_error(limits_errors(*env)) == Some(e@),
            },
    {
        let mut base = LimitsConfig::default();
        match file {
            Some(f) => {
                match f.max_audio_frame_samples {
                    Some(n) => {
                        base.max_audio_frame_samples = n;
                    },
                    None => {},
                }
                match f.required_sample_rate {
                    Some(n) => {
                        base.required_sample_rate = n;
                    },
                    None => {},
                }
                match f.max_language_hint_bytes {
                    Some(n) => {
                        base.max_language_hint_bytes = n;
                    },
                    None => {},
                }
            },
            None => {},
        }
        proof {
            let e1 = env.nat_error("MAX_AUDIO_FRAME_SAMPLES"@, usize::MAX as int);
            let e2 = env.nat_error("REQUIRED_SAMPLE_RATE"@, u32::MAX as int);
            let e3 = env.nat_error("MAX_LANGUAGE_HINT_BYTES"@, usize::MAX as int);
            lemma_first_error_cons(e1, seq![e2] + seq![e3]);
            lemma_first_error_cons(e2, seq![e3]);
            lemma_first_error_one(e3);
        }
        let samples: u64 = match env.parse_nat(
            "MAX_AUDIO_FRAME_SAMPLES",
            base.max_audio_frame_samples as u64,
            usize::MAX as u64,
        ) {
            Ok(n) => n,
            Err(e) => {
                return Err(e);
            },
        };
        let rate: u64 = match env.parse_nat(
            "REQUIRED_SAMPLE_RATE",
            base.required_sample_rate as u64,
            u32::MAX as u64,
        ) {
            Ok(n) => n,
            Err(e) => {
                return Err(e);
            },
        };
        let hint: u64 = match env.parse_nat(
            "MAX_LANGUAGE_HINT_BYTES",
            base.max_language_hint_bytes as u64,
            usize::MAX as u64,
        ) {
            Ok(n) => n,
            Err(e) => {
                return Err(e);
            },
        };
        Ok(
            LimitsConfig {
                max_audio_frame_samples: samples as usize,
                required_sample_rate: rate as u32,
                max_language_hint_bytes: hint as usize,
            },
        )
    }
}

// ---- The chat proxy -----------------------------------------------------

/// The chat proxy.
#[derive(Debug, Clone, PartialEq, Eq)]
pub struct LlmConfig {
    /// Whether there is a proxy.
    pub enabled: bool,
    /// Where the model's server is.
    pub base_url: String,
    /// The model for requests that name none.
    pub default_model: String,
    /// The token for the model's server.
    pub api_key: Option<String>,
    /// How long the model's server may be silent, in seconds.
    pub request_timeout_secs: u64,
    /// The origins that may call across origins.
    pub cors_allow_origins: Vec<String>,
    /// The prompt that comes first in every conversation: the built-in one unless
    /// another is configured.
    pub system_prompt: Option<String>,
    /// Whether the user's location may reach the model.
    pub allow_user_location: bool,
}

/// The chat proxy, as values.
pub struct LlmSettings {
    pub enabled: bool,
    pub base_url: Seq<char>,
    pub default_model: Seq<char>,
    pub api_key: Option<Seq<char>>,
    pub request_timeout_secs: u64,
    pub cors_allow_origins: Seq<Seq<char>>,
    pub system_prompt: Option<Seq<char>>,
    pub allow_user_location: bool,
}

impl View for LlmConfig {
    type V = LlmSettings;

    open spec fn view(&self) -> LlmSettings {
        LlmSettings {
            enabled: self.enabled,
            base_url: self.base_url@,
            default_model: self.default_model@,
            api_key: text::opt_text(self.api_key),
            request_timeout_secs: self.request_timeout_secs,
            cors_allow_origins: text::texts(self.cors_allow_origins@),
            system_prompt: text::opt_text(self.system_prompt),
            allow_user_location: self.allow_user_location,
        }
    }
}

/// A text that says something.
pub open spec fn non_empty(o: Option<Seq<char>>) -> Option<Seq<char>> {
    match o {
        Some(t) => if t.len() == 0 {
            None
        } else {
            Some(t)
        },
        None => None,
    }
}

/// The defaults of the chat proxy.
pub open spec fn default_llm() -> LlmSettings {
    LlmSettings {
        enabled: false,
        base_url: "http://localhost:11434"@,
        default_model: "llama3.1"@,
        api_key: None,
        request_timeout_secs: 120,
        cors_allow_origins: Seq::empty(),
        system_prompt: Some(llm_prompt::DEFAULT_SYSTEM_PROMPT@),
        allow_user_location: true,
    }
}

/// The file's proxy over the defaults.
pub open spec fn llm_base(file: Option<config_file::LlmConfigView>) -> LlmSettings {
    match file {
        Some(f) => LlmSettings {
            enabled: or_default(f.enabled, false),
            base_url: or_default(f.base_url, "http://localhost:11434"@),
            default_model: or_default(f.default_model, "llama3.1"@),
            api_key: non_empty(f.api_key),
            request_timeout_secs: or_default(f.request_timeout_secs, 120),
            cors_allow_origins: or_default(f.cors_allow_origins, Seq::empty()),
            system_prompt: Some(or_default(f.system_prompt, llm_prompt::DEFAULT_SYSTEM_PROMPT@)),
            allow_user_location: or_default(f.allow_user_location, true),
        },
        None => default_llm(),
    }
}

/// The environment's proxy over `base`.
pub open spec fn llm_over(env: Env, base: LlmSettings) -> LlmSettings {
    LlmSettings {
        enabled: env.bool_knob("LLM_ENABLED"@, base.enabled),
        base_url: env.text_knob("OLLAMA_BASE_URL"@, base.base_url),
        default_model: env.text_knob("OLLAMA_MODEL"@, base.default_model),
        api_key: match env.var("OLLAMA_API_KEY"@) {
            Some(t) => non_empty(Some(t)),
            None => base.api_key,
        },
        request_timeout_secs: env.nat_knob(
            "LLM_REQUEST_TIMEOUT_SECS"@,
            base.request_timeout_secs as int,
            u64::MAX as int,
        ) as u64,
        cors_allow_origins: env.list_knob("LLM_CORS_ALLOW_ORIGINS"@, base.cors_allow_origins),
        system_prompt: match env.var("LLM_SYSTEM_PROMPT"@) {
            Some(t) => Some(t),
            None => base.system_prompt,
        },
        allow_user_location: env.bool_knob("LLM_ALLOW_USER_LOCATION"@, base.allow_user_location),
    }
}

/// What is wrong with the variables for the proxy.
pub open spec fn llm_errors(env: Env) -> Seq<Option<ErrorView>> {
    seq![env.bool_error("LLM_ENABLED"@)] + (seq![
        env.nat_error("LLM_REQUEST_TIMEOUT_SECS"@, u64::MAX as int),
    ] + (seq![env.bool_error("LLM_ALLOW_USER_LOCATION"@)]))
}

/// Drop a text that says nothing.
fn keep_non_empty(o: Option<String>) -> (r: Option<String>)
    ensures
        text::opt_text(r) == non_empty(text::opt_text(o)),
{
    match o {
        Some(t) => {
            if t.as_str().is_empty() {
                None
            } else {
                Some(t)
            }
        },
        None => None,
    }
}

impl LlmConfig {
    /// The file's proxy over the defaults.
    fn from_file(file: Option<&TomlLlmConfig>) -> (r: Self)
        ensures
            r@ == llm_base(view_opt_llm(file)),
    {
        let mut c = LlmConfig {
            enabled: false,
            base_url: text::own("http://localhost:11434"),
            default_model: text::own("llama3.1"),
            api_key: None,
            request_timeout_secs: 120,
            cors_allow_origins: Vec::new(),
            system_prompt: Some(text::own(llm_prompt::DEFAULT_SYSTEM_PROMPT)),
            allow_user_location: true,
        };
        assert(text::texts(c.cors_allow_origins@) == Seq::<Seq<char>>::empty());
        match file {
            Some(f) => {
                match f.enabled {
                    Some(b) => {
                        c.enabled = b;
                    },
                    None => {},
                }
                match &f.base_url {
                    Some(t) => {
                        c.base_url = t.clone();
                    },
                    None => {},
                }
                match &f.default_model {
                    Some(t) => {
                        c.default_model = t.clone();
                    },
                    None => {},
                }
                c.api_key = keep_non_empty(text::own_opt(&f.api_key));
                match f.request_timeout_secs {
                    Some(n) => {
                        c.request_timeout_secs = n;
                    },
                    None => {},
                }
                match &f.cors_allow_origins {
                    Some(l) => {
                        c.cors_allow_origins = text::own_list(l);
                    },
                    None => {},
                }
                match &f.system_prompt {
                    Some(t) => {
                        c.system_prompt = Some(t.clone());
                    },
                    None => {},
                }
                match f.allow_user_location {
                    Some(b) => {
                        c.allow_user_location = b;
                    },
                    None => {},
                }
            },
            None => {},
        }
        c
    }

    /// The chat proxy: environment, then file, then default.
    pub fn from_env(env: &Env, file: Option<&TomlLlmConfig>) -> (r: Result<Self, ConfigError>)
        ensures
            match r {
                Ok(c) => first_error(llm_errors(*env)) is None && c@ == llm_over(
                    *env,
                    llm_base(view_opt_llm(file)),
                ),
                Err(e) => first_error(llm_errors(*env)) == Some(e@),
            },
            r is Ok && env.var("LLM_ENABLED"@) == Some("true"@) ==> r->Ok_0.enabled,
            r is Ok && env.var("LLM_ENABLED"@) == Some("false"@) ==> !r->Ok_0.enabled,
            r is Ok && env.var("LLM_ALLOW_USER_LOCATION"@) == Some("true"@)
                ==> r->Ok_0.allow_user_location,
            r is Ok && env.var("LLM_ALLOW_USER_LOCATION"@) == Some("false"@)
                ==> !r->Ok_0.allow_user_location,
            r is Ok && env.var("OLLAMA_BASE_URL"@) is Some ==> r->Ok_0.base_url@ == env.var(
                "OLLAMA_BASE_URL"@,
            )->0,
            r is Ok && env.var("OLLAMA_MODEL"@) is Some ==> r->Ok_0.default_model@ == env.var(
                "OLLAMA_MODEL"@,
            )->0,
    {
        proof {
            law_proxy_variables(*env, llm_base(view_opt_llm(file)), 0);
        }
        let base = LlmConfig::from_file(file);
        proof {
            let e0 = env.bool_error("LLM_ENABLED"@);
            let e1 = env.nat_error("LLM_REQUEST_TIMEOUT_SECS"@, u64::MAX as int);
            let e2 = env.bool_error("LLM_ALLOW_USER_LOCATION"@);
            lemma_first_error_cons(e0, seq![e1] + (seq![e2]));
            lemma_first_error_cons(e1, seq![e2]);
            lemma_first_error_one(e2);
        }
        let enabled = match env.parse_bool("LLM_ENABLED", base.enabled) {
            Ok(b) => b,
            Err(e) => {
                return Err(e);
            },
        };
        let timeout: u64 = match env.parse_nat(
            "LLM_REQUEST_TIMEOUT_SECS",
            base.request_timeout_secs as u64,
            u64::MAX as u64,
        ) {
            Ok(n) => n,
            Err(e) => {
                return Err(e);
            },
        };
        let allow_user_location = match env.parse_bool(
            "LLM_ALLOW_USER_LOCATION",
            base.allow_user_location,
        ) {
            Ok(b) => b,
            Err(e) => {
                return Err(e);
            },
        };
        let api_key = match env.get("OLLAMA_API_KEY") {
            Some(t) => keep_non_empty(Some(t)),
            None => base.api_key,
        };
        let system_prompt = match env.get("LLM_SYSTEM_PROMPT") {
            Some(t) => Some(t),
            None => base.system_prompt,
        };
        Ok(
            LlmConfig {
                enabled,
                base_url: env.parse_text("OLLAMA_BASE_URL", base.base_url),
                default_model: env.parse_text("OLLAMA_MODEL", base.default_model),
                api_key,
                request_timeout_secs: timeout,
                cors_allow_origins: env.parse_list(
                    "LLM_CORS_ALLOW_ORIGINS",
                    base.cors_allow_origins,
                ),
                system_prompt,
                allow_user_location,
            },
        )
    }
}

/// What an optional table says.
pub open spec fn view_opt_llm(o: Option<&TomlLlmConfig>) -> Option<config_file::LlmConfigView> {
    match o {
        Some(t) => Some(t@),
        None => None,
    }
}

// ---- The agents ---------------------------------------------------------

/// Network policy and transfer knobs of `web_fetch`.
#[derive(Debug, Clone, PartialEq, Eq)]
pub struct WebFetchConfig {
    /// Whether public addresses may be fetched.
    pub allow_public: bool,
    /// The hosts that may be fetched; when empty, the addresses decide.
    pub allowlist: Vec<String>,
    /// How many bytes of a response are read.
    pub max_bytes: usize,
    /// How long a request may take, in milliseconds.
    pub timeout_ms: u64,
}

/// The policy of `web_fetch`, as values.
pub struct WebFetchSettings {
    pub allow_public: bool,
    pub allowlist: Seq<Seq<char>>,
    pub max_bytes: usize,
    pub timeout_ms: u64,
}

impl View for WebFetchConfig {
    type V = WebFetchSettings;

    open spec fn view(&self) -> WebFetchSettings {
        WebFetchSettings {
            allow_public: self.allow_public,
            allowlist: text::texts(self.allowlist@),
            max_bytes: self.max_bytes,
            timeout_ms: self.timeout_ms,
        }
    }
}

/// The defaults of `web_fetch`.
pub open spec fn default_web_fetch() -> WebFetchSettings {
    WebFetchSettings {
        allow_public: false,
        allowlist: Seq::empty(),
        max_bytes: 2_097_152,
        timeout_ms: 30_000,
    }
}

impl Default for WebFetchConfig {
    fn default() -> (r: Self)
        ensures
            r@ == default_web_fetch(),
    {
        let r = WebFetchConfig {
            allow_public: false,
            allowlist: Vec::new(),
            max_bytes: 2_097_152,
            timeout_ms: 30_000,
        };
        assert(text::texts(r.allowlist@) == Seq::<Seq<char>>::empty());
        r
    }
}

/// The file's policy over the defaults.
pub open spec fn web_fetch_base(file: Option<config_file::WebFetchConfigView>) -> WebFetchSettings {
    match file {
        Some(f) => WebFetchSettings {
            allow_public: or_default(f.allow_public, false),
            allowlist: or_default(f.allowlist, Seq::empty()),
            max_bytes: or_default(f.max_bytes, 2_097_152),
            timeout_ms: or_default(f.timeout_ms, 30_000),
        },
        None => default_web_fetch(),
    }
}

/// The environment's policy over `base`.
pub open spec fn web_fetch_over(env: Env, base: WebFetchSettings) -> WebFetchSettings {
    WebFetchSettings {
        allow_public: env.bool_knob("WEB_FETCH_ALLOW_PUBLIC"@, base.allow_public),
        allowlist: env.list_knob("WEB_FETCH_ALLOWLIST"@, base.allowlist),
        max_bytes: env.nat_knob(
            "WEB_FETCH_MAX_BYTES"@,
            base.max_bytes as int,
            usize::MAX as int,
        ) as usize,
        timeout_ms: env.nat_knob(
            "WEB_FETCH_TIMEOUT_MS"@,
            base.timeout_ms as int,
            u64::MAX as int,
        ) as u64,
    }
}

/// What is wrong with the variables for `web_fetch`.
pub open spec fn web_fetch_errors(env: Env) -> Seq<Option<ErrorView>> {
    seq![env.bool_error("WEB_FETCH_ALLOW_PUBLIC"@)] + (seq![
        env.nat_error("WEB_FETCH_MAX_BYTES"@, usize::MAX as int),
    ] + (seq![env.nat_error("WEB_FETCH_TIMEOUT_MS"@, u64::MAX as int)]))
}

impl WebFetchConfig {
    /// The policy of `web_fetch`: environment, then file, then default.
    pub fn from_env(env: &Env, file: Option<&TomlWebFetchConfig>) -> (r: Result<
        Self,
        ConfigError,
    >)
        ensures
            match r {
                Ok(c) => first_error(web_fetch_errors(*env)) is None && c@ == web_fetch_over(
                    *env,
                    web_fetch_base(view_opt_web_fetch(file)),
                ),
                Err(e) => first_error(web_fetch_errors(*env)) == Some(e@),
            },
            r is Ok && env.var("WEB_FETCH_ALLOW_PUBLIC"@) == Some("true"@) ==> r->Ok_0.allow_public,
            r is Ok && env.var("WEB_FETCH_ALLOW_PUBLIC"@) == Some("false"@)
                ==> !r->Ok_0.allow_public,
    {
        proof {
            law_agent_variables(
                *env,
                web_fetch_base(view_opt_web_fetch(file)),
                weather_base(None),
                0,
            );
        }
        let mut base = WebFetchConfig::default();
        match file {
            Some(f) => {
                match f.allow_public {
                    Some(b) => {
                        base.allow_public = b;
                    },
                    None => {},
                }
                match &f.allowlist {
                    Some(l) => {
                        base.allowlist = text::own_list(l);
                    },
                    None => {},
                }
                match f.max_bytes {
                    Some(n) => {
                        base.max_bytes = n;
                    },
                    None => {},
                }
                match f.timeout_ms {
                    Some(n) => {
                        base.timeout_ms = n;
                    },
                    None => {},
                }
            },
            None => {},
        }
        proof {
            let e0 = env.bool_error("WEB_FETCH_ALLOW_PUBLIC"@);
            let e1 = env.nat_error("WEB_FETCH_MAX_BYTES"@, usize::MAX as int);
            let e2 = env.nat_error("WEB_FETCH_TIMEOUT_MS"@, u64::MAX as int);
            lemma_first_error_cons(e0, seq![e1] + (seq![e2]));
            lemma_first_error_cons(e1, seq![e2]);
            lemma_first_error_one(e2);
        }
        let allow_public = match env.parse_bool("WEB_FETCH_ALLOW_PUBLIC", base.allow_public) {
            Ok(b) => b,
            Err(e) => {
                return Err(e);
            },
        };
        let max_bytes: u64 = match env.parse_nat(
            "WEB_FETCH_MAX_BYTES",
            base.max_bytes as u64,
            usize::MAX as u64,
        ) {
            Ok(n) => n,
            Err(e) => {
                return Err(e);
            },
        };
        let timeout_ms: u64 = match env.parse_nat(
            "WEB_FETCH_TIMEOUT_MS",
            base.timeout_ms as u64,
            u64::MAX as u64,
        ) {
            Ok(n) => n,
            Err(e) => {
                return Err(e);
            },
        };
        Ok(
            WebFetchConfig {
                allow_public,
                allowlist: env.parse_list("WEB_FETCH_ALLOWLIST", base.allowlist),
                max_bytes: max_bytes as usize,
                timeout_ms,
            },
        )
    }
}

/// What an optional table says.
pub open spec fn view_opt_web_fetch(o: Option<&TomlWebFetchConfig>) -> Option<
    config_file::WebFetchConfigView,
> {
    match o {
        Some(t) => Some(t@),
        None => None,
    }
}

/// Credentials for `get_weather`.
#[derive(Debug, Clone, PartialEq, Eq)]
pub struct WeatherConfig {
    /// The key for the weather service.
    pub api_key: String,
    /// How long a request may take, in milliseconds.
    pub timeout_ms: u64,
    /// Where the weather service is.
    pub base_url: String,
}

/// Credentials for `get_weather`, as values.
pub struct WeatherSettings {
    pub api_key: Seq<char>,
    pub timeout_ms: u64,
    pub base_url: Seq<char>,
}

impl View for WeatherConfig {
    type V = WeatherSettings;

    open spec fn view(&self) -> WeatherSettings {
        WeatherSettings {
            api_key: self.api_key@,
            timeout_ms: self.timeout_ms,
            base_url: self.base_url@,
        }
    }
}

/// The defaults of `get_weather`.
pub open spec fn default_weather() -> WeatherSettings {
    WeatherSettings {
        api_key: Seq::empty(),
        timeout_ms: 8_000,
        base_url: "https://api.weatherapi.com"@,
    }
}

impl Default for WeatherConfig {
    fn default() -> (r: Self)
        ensures
            r@ == default_weather(),
    {
        WeatherConfig {
            api_key: String::new(),
            timeout_ms: 8_000,
            base_url: text::own("https://api.weatherapi.com"),
        }
    }
}

/// The file's credentials over the defaults.
pub open spec fn weather_base(file: Option<config_file::WeatherConfigView>) -> WeatherSettings {
    match file {
        Some(f) => WeatherSettings {
            api_key: or_default(f.api_key, Seq::empty()),
            timeout_ms: or_default(f.timeout_ms, 8_000),
            base_url: or_default(f.base_url, "https://api.weatherapi.com"@),
        },
        None => default_weather(),
    }
}

/// The environment's credentials over `base`.
pub open spec fn weather_over(env: Env, base: WeatherSettings) -> WeatherSettings {
    WeatherSettings {
        api_key: env.text_knob("WEATHER_API_KEY"@, base.api_key),
        timeout_ms: env.nat_knob(
            "WEATHER_TIMEOUT_MS"@,
            base.timeout_ms as int,
            u64::MAX as int,
        ) as u64,
        base_url: env.text_knob("WEATHER_BASE_URL"@, base.base_url),
    }
}

impl WeatherConfig {
    /// The credentials: environment, then file, then default.
    pub fn from_env(env: &Env, file: Option<&TomlWeatherConfig>) -> (r: Result<Self, ConfigError>)
        ensures
            match r {
                Ok(c) => env.nat_error("WEATHER_TIMEOUT_MS"@, u64::MAX as int) is None && c@
                    == weather_over(*env, weather_base(view_opt_weather(file))),
                Err(e) => env.nat_error("WEATHER_TIMEOUT_MS"@, u64::MAX as int) == Some(e@),
            },
    {
        let mut base = WeatherConfig::default();
        match file {
            Some(f) => {
                match &f.api_key {
                    Some(t) => {
                        base.api_key = t.clone();
                    },
                    None => {},
                }
                match f.timeout_ms {
                    Some(n) => {
                        base.timeout_ms = n;
                    },
                    None => {},
                }
                match &f.base_url {
                    Some(t) => {
                        base.base_url = t.clone();
                    },
                    None => {},
                }
            },
            None => {},
        }
        let timeout_ms: u64 = match env.parse_nat(
            "WEATHER_TIMEOUT_MS",
            base.timeout_ms as u64,
            u64::MAX as u64,
        ) {
            Ok(n) => n,
            Err(e) => {
                return Err(e);
            },
        };
        Ok(
            WeatherConfig {
                api_key: env.parse_text("WEATHER_API_KEY", base.api_key),
                timeout_ms,
                base_url: env.parse_text("WEATHER_BASE_URL", base.base_url),
            },
        )
    }
}

/// What an optional table says.
pub open spec fn view_opt_weather(o: Option<&TomlWeatherConfig>) -> Option<
    config_file::WeatherConfigView,
> {
    match o {
        Some(t) => Some(t@),
        None => None,
    }
}

/// The agents.
#[derive(Debug, Clone, PartialEq, Eq)]
pub struct AgentConfig {
    /// Whether there are agents.
    pub enabled: bool,
    /// How many rounds of tool calls one turn may take.
    pub llm_max_tool_rounds: u32,
    /// The policy of `web_fetch`.
    pub web_fetch: WebFetchConfig,
    /// The credentials of `get_weather`.
    pub weather: WeatherConfig,
}

/// The agents, as values.
pub struct AgentSettings {
    pub enabled: bool,
    pub llm_max_tool_rounds: u32,
    pub web_fetch: WebFetchSettings,
    pub weather: WeatherSettings,
}

impl View for AgentConfig {
    type V = AgentSettings;

    open spec fn view(&self) -> AgentSettings {
        AgentSettings {
            enabled: self.enabled,
            llm_max_tool_rounds: self.llm_max_tool_rounds,
            web_fetch: self.web_fetch@,
            weather: self.weather@,
        }
    }
}

impl Default for AgentConfig {
    fn default() -> (r: Self)
        ensures
            r@ == (AgentSettings {
                enabled: true,
                llm_max_tool_rounds: 4,
                web_fetch: default_web_fetch(),
                weather: default_weather(),
            }),
    {
        AgentConfig {
            enabled: true,
            llm_max_tool_rounds: 4,
            web_fetch: WebFetchConfig::default(),
            weather: WeatherConfig::default(),
        }
    }
}

/// A number of rounds between one and thirty-two.
pub open spec fn bounded_rounds(n: int) -> int {
    if n < 1 {
        1
    } else if n > 32 {
        32
    } else {
        n
    }
}

/// What is wrong with the variables for the agents.
pub open spec fn agents_errors(env: Env) -> Seq<Option<ErrorView>> {
    seq![env.bool_error("AGENTS_ENABLED"@)] + (seq![
        env.nat_error("LLM_MAX_TOOL_ROUNDS"@, u32::MAX as int),
    ] + (web_fetch_errors(env) + seq![env.nat_error("WEATHER_TIMEOUT_MS"@, u64::MAX as int)]))
}

/// The agents: environment, then file, then default.
pub open spec fn agents_resolved(
    env: Env,
    file: Option<config_file::AgentConfigView>,
) -> AgentSettings {
    AgentSettings {
        enabled: env.bool_knob(
            "AGENTS_ENABLED"@,
            match file {
                Some(f) => or_default(f.enabled, true),
                None => true,
            },
        ),
        llm_max_tool_rounds: bounded_rounds(
            env.nat_knob(
                "LLM_MAX_TOOL_ROUNDS"@,
                match file {
                    Some(f) => or_default(f.llm_max_tool_rounds, 4) as int,
                    None => 4,
                },
                u32::MAX as int,
            ),
        ) as u32,
        web_fetch: web_fetch_over(
            env,
            web_fetch_base(
                match file {
                    Some(f) => f.web_fetch,
                    None => None,
                },
            ),
        ),
        weather: weather_over(
            env,
            weather_base(
                match file {
                    Some(f) => f.get_weather,
                    None => None,
                },
            ),
        ),
    }
}

/// What an optional table says.
pub open spec fn view_opt_agents(o: Option<&TomlAgentConfig>) -> Option<
    config_file::AgentConfigView,
> {
    match o {
        Some(t) => Some(t@),
        None => None,
    }
}

impl AgentConfig {
    /// The agents: environment, then file, then default.
    pub fn from_env(env: &Env, file: Option<&TomlAgentConfig>) -> (r: Result<Self, ConfigError>)
        ensures
            match r {
                Ok(c) => first_error(agents_errors(*env)) is None && c@ == agents_resolved(
                    *env,
                    view_opt_agents(file),
                ),
                Err(e) => first_error(agents_errors(*env)) == Some(e@),
            },
            r is Ok && env.var("AGENTS_ENABLED"@) == Some("true"@) ==> r->Ok_0.enabled,
            r is Ok && env.var("AGENTS_ENABLED"@) == Some("false"@) ==> !r->Ok_0.enabled,
            r is Ok ==> 1 <= r->Ok_0.llm_max_tool_rounds <= 32,
    {
        proof {
            law_agents_are_on_by_default(*env, view_opt_agents(file), 0);
        }
        proof {
            let e1 = env.bool_error("AGENTS_ENABLED"@);
            let e2 = env.nat_error("LLM_MAX_TOOL_ROUNDS"@, u32::MAX as int);
            let w = web_fetch_errors(*env);
            let e4 = env.nat_error("WEATHER_TIMEOUT_MS"@, u64::MAX as int);
            lemma_first_error_cons(e1, seq![e2] + (w + seq![e4]));
            lemma_first_error_cons(e2, w + seq![e4]);
            lemma_first_error_concat(w, seq![e4]);
            lemma_first_error_one(e4);
        }
        let (file_enabled, file_rounds): (bool, u32) = match file {
            Some(f) => (
                match f.enabled {
                    Some(b) => b,
                    None => true,
                },
                match f.llm_max_tool_rounds {
                    Some(n) => n,
                    None => 4,
                },
            ),
            None => (true, 4),
        };
        let (web_file, weather_file): (Option<&TomlWebFetchConfig>, Option<&TomlWeatherConfig>) =
            match file {
            Some(f) => (f.web_fetch.as_ref(), f.get_weather.as_ref()),
            None => (None, None),
        };
        let enabled = match env.parse_bool("AGENTS_ENABLED", file_enabled) {
            Ok(b) => b,
            Err(e) => {
                return Err(e);
            },
        };
        let rounds: u64 = match env.parse_nat(
            "LLM_MAX_TOOL_ROUNDS",
            file_rounds as u64,
            u32::MAX as u64,
        ) {
            Ok(n) => n,
            Err(e) => {
                return Err(e);
            },
        };
        let llm_max_tool_rounds: u32 = if rounds < 1 {
            1
        } else if rounds > 32 {
            32
        } else {
            rounds as u32
        };
        let web_fetch = match WebFetchConfig::from_env(env, web_file) {
            Ok(c) => c,
            Err(e) => {
                return Err(e);
            },
        };
        let weather = match WeatherConfig::from_env(env, weather_file) {
            Ok(c) => c,
            Err(e) => {
                return Err(e);
            },
        };
        Ok(AgentConfig { enabled, llm_max_tool_rounds, web_fetch, weather })
    }
}

// ---- All of it ----------------------------------------------------------

/// The server's configuration.
#[derive(Debug, Clone, PartialEq, Eq)]
pub struct Config {
    /// Where the server listens.
    pub bind_addr: Endpoint,
    /// The path of the speech model.
    pub whisper_model_path: String,
    /// How many jobs may wait.
    pub max_queue: usize,
    /// How long a session may be idle, in milliseconds.
    pub session_idle_timeout_ms: u64,
    /// How long one transcription may take, in milliseconds.
    pub infer_timeout_ms: u64,
    pub llm: LlmConfig,
    pub agents: AgentConfig,
    pub limits: LimitsConfig,
    pub rate_limit: RateLimitConfig,
}

/// The address to listen on, as text.
pub open spec fn bind_text(env: Env, file: config_file::ConfigView) -> Seq<char> {
    env.text_knob(
        "BIND_ADDR"@,
        match file.server {
            Some(s) => or_default(s.bind_addr, "0.0.0.0:8080"@),
            None => "0.0.0.0:8080"@,
        },
    )
}

/// The path of the speech model.
pub open spec fn model_path(env: Env, file: config_file::ConfigView) -> Option<Seq<char>> {
    match env.var("WHISPER_MODEL_PATH"@) {
        Some(t) => Some(t),
        None => match file.server {
            Some(s) => s.whisper_model_path,
            None => None,
        },
    }
}

/// What reading the address to listen on gave.
pub open spec fn read_bind(bind: Result<Endpoint, String>) -> Result<Endpoint, Seq<char>> {
    match bind {
        Ok(a) => Ok(a),
        Err(e) => Err(e@),
    }
}

/// What is wrong, in the order in which it is found: the address, the model's
/// path, then each variable.
pub open spec fn config_errors(
    env: Env,
    file: config_file::ConfigView,
    bind: Result<Endpoint, Seq<char>>,
) -> Seq<Option<ErrorView>> {
    seq![
        match bind {
            Ok(_) => None,
            Err(e) => Some(ErrorView::InvalidBindAddr(e)),
        },
    ] + (seq![
        if model_path(env, file) is None {
            Some(ErrorView::MissingModelPath)
        } else {
            None
        },
    ] + (seq![env.nat_error("MAX_QUEUE"@, usize::MAX as int)] + (seq![
        env.nat_error("SESSION_IDLE_TIMEOUT_MS"@, u64::MAX as int),
    ] + (seq![env.nat_error("INFER_TIMEOUT_MS"@, u64::MAX as int)] + (limits_errors(env) + (
    llm_errors(env) + (agents_errors(env) + rate_limit_errors(env))))))))
}

/// The file's queue length, else the default.
pub open spec fn queue_base(file: config_file::ConfigView) -> usize {
    match file.server {
        Some(s) => or_default(s.max_queue, 32),
        None => 32,
    }
}

/// The file's idle timeout, else the default.
pub open spec fn idle_base(file: config_file::ConfigView) -> u64 {
    match file.server {
        Some(s) => or_default(s.session_idle_timeout_ms, 30_000),
        None => 30_000,
    }
}

/// The file's transcription timeout, else the default.
pub open spec fn infer_base(file: config_file::ConfigView) -> u64 {
    match file.server {
        Some(s) => or_default(s.infer_timeout_ms, 30_000),
        None => 30_000,
    }
}

impl Config {
    /// The address to listen on, as text: environment, then file, then
    /// `0.0.0.0:8080`. Reading it as an address is the caller's part.
    pub fn bind_addr_text(env: &Env, file: &TomlConfig) -> (r: String)
        ensures
            r@ == bind_text(*env, file@),
    {
        let fallback = match &file.server {
            Some(s) => match &s.bind_addr {
                Some(t) => t.clone(),
                None => text::own("0.0.0.0:8080"),
            },
            None => text::own("0.0.0.0:8080"),
        };
        env.parse_text("BIND_ADDR", fallback)
    }

    /// The configuration from the environment, a file that may say nothing, and
    /// what reading the address to listen on gave.
    pub fn from_env(env: &Env, file: &TomlConfig, bind: Result<Endpoint, String>) -> (r: Result<
        Self,
        ConfigError,
    >)
        ensures
            ({
                let errors = config_errors(*env, file@, read_bind(bind));
                match r {
                    Ok(c) => {
                        &&& first_error(errors) is None
                        &&& bind == Ok::<Endpoint, String>(c.bind_addr)
                        &&& model_path(*env, file@) == Some(c.whisper_model_path@)
                        &&& c.max_queue == env.nat_knob(
                            "MAX_QUEUE"@,
                            queue_base(file@) as int,
                            usize::MAX as int,
                        )
                        &&& c.session_idle_timeout_ms == env.nat_knob(
                            "SESSION_IDLE_TIMEOUT_MS"@,
                            idle_base(file@) as int,
                            u64::MAX as int,
                        )
                        &&& c.infer_timeout_ms == env.nat_knob(
                            "INFER_TIMEOUT_MS"@,
                            infer_base(file@) as int,
                            u64::MAX as int,
                        )
                        &&& c.llm@ == llm_over(*env, llm_base(file@.llm))
                        &&& c.agents@ == agents_resolved(*env, file@.agents)
                        &&& c.limits == limits_resolved(
                            *env,
                            limits_base(
                                match file.server {
                                    Some(s) => s.limits,
                                    None => None,
                                },
                            ),
                        )
                        &&& c.rate_limit == rate_limit_resolved(
                            *env,
                            rate_limit_base(
                                match file.server {
                                    Some(s) => s.rate_limits,
                                    None => None,
                                },
                            ),
                        )
                    },
                    Err(e) => first_error(errors) == Some(e@),
                }
            }),
            r is Ok ==> bind is Ok && r->Ok_0.bind_addr == bind->Ok_0,
            r is Ok && env.var("WHISPER_MODEL_PATH"@) is Some ==> r->Ok_0.whisper_model_path@
                == env.var("WHISPER_MODEL_PATH"@)->0,
            r is Ok && env.var("LLM_ENABLED"@) == Some("true"@) ==> r->Ok_0.llm.enabled,
            r is Ok && env.var("LLM_ENABLED"@) == Some("false"@) ==> !r->Ok_0.llm.enabled,
            r is Ok && env.var("AGENTS_ENABLED"@) == Some("true"@) ==> r->Ok_0.agents.enabled,
            r is Ok && env.var("AGENTS_ENABLED"@) == Some("false"@) ==> !r->Ok_0.agents.enabled,
            forall|n: nat|
                n <= u64::MAX && r is Ok && env.var("SESSION_IDLE_TIMEOUT_MS"@) == Some(
                    #[trigger] text::digits(n),
                ) ==> r->Ok_0.session_idle_timeout_ms == n,
            forall|n: nat|
                n <= u64::MAX && r is Ok && env.var("INFER_TIMEOUT_MS"@) == Some(
                    #[trigger] text::digits(n),
                ) ==> r->Ok_0.infer_timeout_ms == n,
            forall|n: nat|
                n <= usize::MAX && r is Ok && env.var("MAX_QUEUE"@) == Some(
                    #[trigger] text::digits(n),
                ) ==> r->Ok_0.max_queue == n,
    {
        proof {
            law_proxy_variables(*env, llm_base(file@.llm), 0);
            law_agents_are_on_by_default(*env, file@.agents, 0);
            assert forall|n: nat|
                n <= u64::MAX && env.var("SESSION_IDLE_TIMEOUT_MS"@) == Some(
                    #[trigger] text::digits(n),
                ) implies env.nat_knob(
                "SESSION_IDLE_TIMEOUT_MS"@,
                idle_base(file@) as int,
                u64::MAX as int,
            ) == n by {
                law_numbers_are_taken(
                    *env,
                    "SESSION_IDLE_TIMEOUT_MS"@,
                    idle_base(file@) as int,
                    n,
                    u64::MAX as nat,
                );
            }
            assert forall|n: nat|
                n <= u64::MAX && env.var("INFER_TIMEOUT_MS"@) == Some(
                    #[trigger] text::digits(n),
                ) implies env.nat_knob(
                "INFER_TIMEOUT_MS"@,
                infer_base(file@) as int,
                u64::MAX as int,
            ) == n by {
                law_numbers_are_taken(
                    *env,
                    "INFER_TIMEOUT_MS"@,
                    infer_base(file@) as int,
                    n,
                    u64::MAX as nat,
                );
            }
            assert forall|n: nat|
                n <= usize::MAX && env.var("MAX_QUEUE"@) == Some(
                    #[trigger] text::digits(n),
                ) implies env.nat_knob(
                "MAX_QUEUE"@,
                queue_base(file@) as int,
                usize::MAX as int,
            ) == n by {
                law_numbers_are_taken(
                    *env,
                    "MAX_QUEUE"@,
                    queue_base(file@) as int,
                    n,
                    usize::MAX as nat,
                );
            }
        }
        let ghost parsed = read_bind(bind);
        proof {
            let e0 = match parsed {
                Ok(_) => None,
                Err(e) => Some(ErrorView::InvalidBindAddr(e)),
            };
            let e1 = if model_path(*env, file@) is None {
                Some(ErrorView::MissingModelPath)
            } else {
                None
            };
            let e2 = env.nat_error("MAX_QUEUE"@, usize::MAX as int);
            let e3 = env.nat_error("SESSION_IDLE_TIMEOUT_MS"@, u64::MAX as int);
            let e4 = env.nat_error("INFER_TIMEOUT_MS"@, u64::MAX as int);
            let r3 = agents_errors(*env) + rate_limit_errors(*env);
            let r2 = llm_errors(*env) + r3;
            let r1 = limits_errors(*env) + r2;
            lemma_first_error_cons(e0, seq![e1] + (seq![e2] + (seq![e3] + (seq![e4] + r1))));
            lemma_first_error_cons(e1, seq![e2] + (seq![e3] + (seq![e4] + r1)));
            lemma_first_error_cons(e2, seq![e3] + (seq![e4] + r1));
            lemma_first_error_cons(e3, seq![e4] + r1);
            lemma_first_error_cons(e4, r1);
            lemma_first_error_concat(limits_errors(*env), r2);
            lemma_first_error_concat(llm_errors(*env), r3);
            lemma_first_error_concat(agents_errors(*env), rate_limit_errors(*env));
        }
        let bind_addr = match bind {
            Ok(a) => a,
            Err(e) => {
                return Err(ConfigError::InvalidBindAddr(e));
            },
        };
        let server: Option<&TomlServerConfig> = file.server.as_ref();
        let file_model: Option<String> = match server {
            Some(s) => text::own_opt(&s.whisper_model_path),
            None => None,
        };
        let from_var = env.get("WHISPER_MODEL_PATH");
        let whisper_model_path = match from_var {
            Some(t) => t,
            None => match file_model {
                Some(t) => t,
                None => {
                    return Err(ConfigError::MissingModelPath);
                },
            },
        };
        let (queue_base, idle_base, infer_base): (usize, u64, u64) = match server {
            Some(s) => (
                match s.max_queue {
                    Some(n) => n,
                    None => 32,
                },
                match s.session_idle_timeout_ms {
                    Some(n) => n,
                    None => 30_000,
                },
                match s.infer_timeout_ms {
                    Some(n) => n,
                    None => 30_000,
                },
            ),
            None => (32, 30_000, 30_000),
        };
        let (limits_file, rates_file): (Option<&TomlLimitsConfig>, Option<&TomlRateLimitConfig>) =
            match server {
            Some(s) => (s.limits.as_ref(), s.rate_limits.as_ref()),
            None => (None, None),
        };
        let max_queue: u64 = match env.parse_nat(
            "MAX_QUEUE",
            queue_base as u64,
            usize::MAX as u64,
        ) {
            Ok(n) => n,
            Err(e) => {
                return Err(e);
            },
        };
        let session_idle_timeout_ms: u64 = match env.parse_nat(
            "SESSION_IDLE_TIMEOUT_MS",
            idle_base,
            u64::MAX,
        ) {
            Ok(n) => n,
            Err(e) => {
                return Err(e);
            },
        };
        let infer_timeout_ms: u64 = match env.parse_nat("INFER_TIMEOUT_MS", infer_base, u64::MAX) {
            Ok(n) => n,
            Err(e) => {
                return Err(e);
            },
        };
        let limits = match LimitsConfig::from_env(env, limits_file) {
            Ok(c) => c,
            Err(e) => {
                return Err(e);
            },
        };
        let llm = match LlmConfig::from_env(env, file.llm.as_ref()) {
            Ok(c) => c,
            Err(e) => {
                return Err(e);
            },
        };
        let agents = match AgentConfig::from_env(env, file.agents.as_ref()) {
            Ok(c) => c,
            Err(e) => {
                return Err(e);
            },
        };
        let rate_limit = match RateLimitConfig::from_env(env, rates_file) {
            Ok(c) => c,
            Err(e) => {
                return Err(e);
            },
        };
        Ok(
            Config {
                bind_addr,
                whisper_model_path,
                max_queue: max_queue as usize,
                session_idle_timeout_ms,
                infer_timeout_ms,
                llm,
                agents,
                limits,
                rate_limit,
            },
        )
    }
}

// ---- Laws ---------------------------------------------------------------

/// A variable that is set decides its knob whatever the file says.
pub proof fn law_environment_wins(env: Env, key: Seq<char>)
    requires
        env.var(key) is Some,
    ensures
        forall|a: int, b: int, max: int| #[trigger]
            env.nat_knob(key, a, max) == #[trigger] env.nat_knob(key, b, max),
        forall|a: bool, b: bool| #[trigger]
            env.bool_knob(key, a) == #[trigger] env.bool_knob(key, b),
        forall|a: Seq<char>| #[trigger] env.text_knob(key, a) == env.var(key)->0,
        forall|a: Seq<Seq<char>>, b: Seq<Seq<char>>| #[trigger]
            env.list_knob(key, a) == #[trigger] env.list_knob(key, b),
{
}

/// The prompt is the environment's, else the file's, else the built-in one.
pub proof fn law_prompt_falls_back(env: Env, file: Option<config_file::LlmConfigView>)
    ensures
        llm_over(env, llm_base(file)).system_prompt == Some(
            match (env.var("LLM_SYSTEM_PROMPT"@), file) {
                (Some(p), _) => p,
                (None, Some(f)) => or_default(
                    f.system_prompt,
                    llm_prompt::DEFAULT_SYSTEM_PROMPT@,
                ),
                (None, None) => llm_prompt::DEFAULT_SYSTEM_PROMPT@,
            },
        ),
{
}

/// Without variables nothing can be wrong with them, and the file decides; where
/// the file is silent, the defaults.
pub proof fn law_file_decides_without_variables(
    env: Env,
    llm: LlmSettings,
    limits: LimitsConfig,
    rates: RateLimitConfig,
    web: WebFetchSettings,
    weather: WeatherSettings,
)
    requires
        forall|key: Seq<char>| env.var(key) is None,
    ensures
        llm_over(env, llm) == llm,
        limits_resolved(env, limits) == limits,
        rate_limit_resolved(env, rates) == rates,
        web_fetch_over(env, web) == web,
        weather_over(env, weather) == weather,
        llm_base(None) == default_llm(),
        limits_base(None) == default_limits(),
        web_fetch_base(None) == default_web_fetch(),
        weather_base(None) == default_weather(),
        first_error(llm_errors(env)) is None,
        first_error(limits_errors(env)) is None,
        first_error(rate_limit_errors(env)) is None,
        first_error(agents_errors(env)) is None,
{
    lemma_no_errors(llm_errors(env));
    lemma_no_errors(limits_errors(env));
    lemma_no_errors(rate_limit_errors(env));
    lemma_no_errors(agents_errors(env));
}

/// Where nothing is wrong there is no error.
proof fn lemma_no_errors(s: Seq<Option<ErrorView>>)
    requires
        forall|i: int| 0 <= i < s.len() ==> (#[trigger] s[i]) is None,
    ensures
        first_error(s) is None,
    decreases s.len(),
{
    if s.len() > 0 {
        lemma_no_errors(s.subrange(1, s.len() as int));
    }
}

/// However the rounds are configured, there is at least one and at most
/// thirty-two.
pub proof fn law_rounds_are_within_bounds(env: Env, file: Option<config_file::AgentConfigView>)
    ensures
        1 <= agents_resolved(env, file).llm_max_tool_rounds <= 32,
{
}

/// A switch is on for `true` and off for `false`, whatever it would be otherwise; any
/// other text is an error, and without a variable there is none.
pub proof fn law_switches_are_true_or_false(env: Env, key: Seq<char>, fallback: bool)
    ensures
        env.var(key) == Some("true"@) ==> env.bool_knob(key, fallback) && env.bool_error(key)
            is None,
        env.var(key) == Some("false"@) ==> !env.bool_knob(key, fallback) && env.bool_error(key)
            is None,
        env.var(key) is None ==> env.bool_knob(key, fallback) == fallback && env.bool_error(key)
            is None,
        env.var(key) is Some && env.var(key)->0 != "true"@ && env.var(key)->0 != "false"@
            ==> env.bool_error(key) == Some(
            ErrorView::InvalidEnv(key, "provided string was not `true` or `false`"@),
        ),
{
    reveal_strlit("true");
    reveal_strlit("false");
    assert("true"@.len() != "false"@.len());
}

/// A number that is written in digits and fits is the knob's value, whatever it would be
/// otherwise. A text that is no number, or too large a one, is an error that names the
/// variable.
pub proof fn law_numbers_are_taken(env: Env, key: Seq<char>, fallback: int, n: nat, max: nat)
    ensures
        env.var(key) == Some(text::digits(n)) && n <= max ==> env.nat_knob(
            key,
            fallback,
            max as int,
        ) == n && env.nat_error(key, max as int) is None,
        env.var(key) is None ==> env.nat_knob(key, fallback, max as int) == fallback
            && env.nat_error(key, max as int) is None,
        env.var(key) is Some ==> (env.nat_error(key, max as int) is Some <==> text::parse_nat(
            env.var(key)->0,
            max as int,
        ) is Err),
        env.nat_error(key, max as int) is Some ==> env.nat_error(key, max as int)->0 is InvalidEnv
            && env.nat_error(key, max as int)->0->InvalidEnv_0 == key,
{
    text::law_numbers_are_read_back(n, max);
}

/// A text is taken as it is; a list is the parts between commas without outer white
/// space, but for blank ones, in their order.
pub proof fn law_lists_are_parts_between_commas(a: Seq<Seq<char>>, b: Seq<Seq<char>>, t: Seq<char>)
    ensures
        pieces(a + b) == pieces(a) + pieces(b),
        text::trim(t).len() > 0 ==> pieces(seq![t]) == seq![text::trim(t)],
        text::trim(t).len() == 0 ==> pieces(seq![t]).len() == 0,
        pieces(Seq::empty()).len() == 0,
    decreases b.len(),
{
    reveal_with_fuel(pieces, 2);
    assert(seq![t].drop_last() =~= Seq::<Seq<char>>::empty());
    assert(pieces(seq![t]) =~= if text::trim(t).len() == 0 {
        Seq::empty()
    } else {
        seq![text::trim(t)]
    });
    if b.len() == 0 {
        assert(a + b =~= a);
        assert(pieces(a) + pieces(b) =~= pieces(a));
    } else {
        law_lists_are_parts_between_commas(a, b.drop_last(), t);
        assert((a + b).drop_last() =~= a + b.drop_last());
        assert((a + b).last() == b.last());
        assert(pieces(a + b) =~= pieces(a) + pieces(b));
    }
}

/// A variable has the value that stands with its name first; without its name it has
/// none.
pub proof fn law_first_value_counts(env: Env, key: Seq<char>, i: int)
    requires
        0 <= i < env.vars@.len(),
        env.vars@[i].0@ == key,
        forall|j: int| 0 <= j < i ==> (#[trigger] env.vars@[j]).0@ != key,
    ensures
        env.var(key) == Some(env.vars@[i].1@),
{
    lemma_var_at(env.vars@, key, 0, i);
}

proof fn lemma_var_at(s: Seq<(String, String)>, key: Seq<char>, from: int, i: int)
    requires
        0 <= from <= i < s.len(),
        s[i].0@ == key,
        forall|j: int| from <= j < i ==> (#[trigger] s[j]).0@ != key,
    ensures
        var_from(s, key, from) == Some(s[i].1@),
    decreases i - from,
{
    if from < i {
        assert(s[from].0@ != key);
        lemma_var_at(s, key, from + 1, i);
    }
}

/// A variable that is nowhere has no value.
pub proof fn law_absent_variable_has_no_value(env: Env, key: Seq<char>)
    requires
        forall|j: int| 0 <= j < env.vars@.len() ==> (#[trigger] env.vars@[j]).0@ != key,
    ensures
        env.var(key) is None,
{
    lemma_var_nowhere(env.vars@, key, 0);
}

proof fn lemma_var_nowhere(s: Seq<(String, String)>, key: Seq<char>, from: int)
    requires
        0 <= from,
        forall|j: int| from <= j < s.len() ==> (#[trigger] s[j]).0@ != key,
    ensures
        var_from(s, key, from) is None,
    decreases s.len() - from,
{
    if from < s.len() {
        assert(s[from].0@ != key);
        lemma_var_nowhere(s, key, from + 1);
    }
}

/// Of several errors the first is told, and none when there is none.
pub proof fn law_first_error_is_told(s: Seq<Option<ErrorView>>, i: int)
    requires
        0 <= i < s.len(),
        s[i] is Some,
        forall|j: int| 0 <= j < i ==> (#[trigger] s[j]) is None,
    ensures
        first_error(s) == s[i],
    decreases i,
{
    if i > 0 {
        assert(s[0] is None);
        let rest = s.subrange(1, s.len() as int);
        assert forall|j: int| 0 <= j < i - 1 implies (#[trigger] rest[j]) is None by {
            assert(rest[j] == s[j + 1]);
        }
        law_first_error_is_told(rest, i - 1);
    }
}

/// Each variable of the chat proxy sets its own entry and no other; without it the
/// entry is as the file has it.
pub proof fn law_proxy_variables(env: Env, base: LlmSettings, n: nat)
    ensures
        env.var("LLM_ENABLED"@) == Some("true"@) ==> llm_over(env, base).enabled,
        env.var("LLM_ENABLED"@) == Some("false"@) ==> !llm_over(env, base).enabled,
        env.var("LLM_ENABLED"@) is None ==> llm_over(env, base).enabled == base.enabled,
        env.var("OLLAMA_BASE_URL"@) is Some ==> llm_over(env, base).base_url == env.var("OLLAMA_BASE_URL"@)->0,
        env.var("OLLAMA_BASE_URL"@) is None ==> llm_over(env, base).base_url == base.base_url,
        env.var("OLLAMA_MODEL"@) is Some ==> llm_over(env, base).default_model == env.var("OLLAMA_MODEL"@)->0,
        env.var("OLLAMA_MODEL"@) is None ==> llm_over(env, base).default_model == base.default_model,
        env.var("OLLAMA_API_KEY"@) is Some && env.var("OLLAMA_API_KEY"@)->0.len() > 0 ==> llm_over(
            env,
            base,
        ).api_key == env.var("OLLAMA_API_KEY"@),
        env.var("OLLAMA_API_KEY"@) is Some && env.var("OLLAMA_API_KEY"@)->0.len() == 0 ==> llm_over(
            env,
            base,
        ).api_key is None,
        env.var("OLLAMA_API_KEY"@) is None ==> llm_over(env, base).api_key == base.api_key,
        env.var("LLM_REQUEST_TIMEOUT_SECS"@) == Some(text::digits(n)) && n <= u64::MAX ==> llm_over(env, base).request_timeout_secs == n,
        env.var("LLM_REQUEST_TIMEOUT_SECS"@) is None ==> llm_over(env, base).request_timeout_secs == base.request_timeout_secs,
        env.var("LLM_CORS_ALLOW_ORIGINS"@) is Some ==> llm_over(env, base).cors_allow_origins == pieces(
            text::split(env.var("LLM_CORS_ALLOW_ORIGINS"@)->0, ','),
        ),
        env.var("LLM_CORS_ALLOW_ORIGINS"@) is None ==> llm_over(env, base).cors_allow_origins == base.cors_allow_origins,
        env.var("LLM_SYSTEM_PROMPT"@) is Some ==> llm_over(env, base).system_prompt == env.var(
            "LLM_SYSTEM_PROMPT"@,
        ),
        env.var("LLM_SYSTEM_PROMPT"@) is None ==> llm_over(env, base).system_prompt
            == base.system_prompt,
        env.var("LLM_ALLOW_USER_LOCATION"@) == Some("true"@) ==> llm_over(env, base).allow_user_location,
        env.var("LLM_ALLOW_USER_LOCATION"@) == Some("false"@) ==> !llm_over(env, base).allow_user_location,
        env.var("LLM_ALLOW_USER_LOCATION"@) is None ==> llm_over(env, base).allow_user_location == base.allow_user_location,
{
    law_switches_are_true_or_false(env, "LLM_ENABLED"@, base.enabled);
    law_switches_are_true_or_false(env, "LLM_ALLOW_USER_LOCATION"@, base.allow_user_location);
    law_numbers_are_taken(
        env,
        "LLM_REQUEST_TIMEOUT_SECS"@,
        base.request_timeout_secs as int,
        n,
        u64::MAX as nat,
    );
}

/// Each entry of the file for the chat proxy counts where it is there; else the default
/// does: off, the model's server on this machine, two minutes, the location allowed.
pub proof fn law_proxy_file(f: config_file::LlmConfigView)
    ensures
        f.enabled is Some ==> llm_base(Some(f)).enabled == f.enabled->0,
        f.enabled is None ==> llm_base(Some(f)).enabled == false,
        f.base_url is Some ==> llm_base(Some(f)).base_url == f.base_url->0,
        f.base_url is None ==> llm_base(Some(f)).base_url == "http://localhost:11434"@,
        f.default_model is Some ==> llm_base(Some(f)).default_model == f.default_model->0,
        f.default_model is None ==> llm_base(Some(f)).default_model == "llama3.1"@,
        f.api_key is Some && f.api_key->0.len() > 0 ==> llm_base(Some(f)).api_key == f.api_key,
        f.api_key is None || f.api_key->0.len() == 0 ==> llm_base(Some(f)).api_key is None,
        f.request_timeout_secs is Some ==> llm_base(Some(f)).request_timeout_secs == f.request_timeout_secs->0,
        f.request_timeout_secs is None ==> llm_base(Some(f)).request_timeout_secs == 120,
        f.cors_allow_origins is Some ==> llm_base(Some(f)).cors_allow_origins
            == f.cors_allow_origins->0,
        f.cors_allow_origins is None ==> llm_base(Some(f)).cors_allow_origins.len() == 0,
        f.system_prompt is Some ==> llm_base(Some(f)).system_prompt == f.system_prompt,
        f.allow_user_location is Some ==> llm_base(Some(f)).allow_user_location == f.allow_user_location->0,
        f.allow_user_location is None ==> llm_base(Some(f)).allow_user_location == true,
        llm_base(None).enabled == false && llm_base(None).base_url == "http://localhost:11434"@,
        llm_base(None).default_model == "llama3.1"@ && llm_base(None).api_key is None,
        llm_base(None).request_timeout_secs == 120 && llm_base(None).allow_user_location,
        llm_base(None).cors_allow_origins.len() == 0,
{
}

/// Each variable of the limits and rates sets its own entry and no other.
pub proof fn law_limit_variables(
    env: Env,
    limits: LimitsConfig,
    rates: RateLimitConfig,
    n: nat,
)
    ensures
        env.var("MAX_AUDIO_FRAME_SAMPLES"@) == Some(text::digits(n)) && n <= usize::MAX ==> limits_resolved(env, limits).max_audio_frame_samples == n,
        env.var("MAX_AUDIO_FRAME_SAMPLES"@) is None ==> limits_resolved(env, limits).max_audio_frame_samples == limits.max_audio_frame_samples,
        env.var("REQUIRED_SAMPLE_RATE"@) == Some(text::digits(n)) && n <= u32::MAX ==> limits_resolved(env, limits).required_sample_rate == n,
        env.var("REQUIRED_SAMPLE_RATE"@) is None ==> limits_resolved(env, limits).required_sample_rate == limits.required_sample_rate,
        env.var("MAX_LANGUAGE_HINT_BYTES"@) == Some(text::digits(n)) && n <= usize::MAX ==> limits_resolved(env, limits).max_language_hint_bytes == n,
        env.var("MAX_LANGUAGE_HINT_BYTES"@) is None ==> limits_resolved(env, limits).max_language_hint_bytes == limits.max_language_hint_bytes,
        env.var("STT_RATE_PER_MIN"@) == Some(text::digits(n)) && n <= u32::MAX ==> rate_limit_resolved(env, rates).stt_per_min == n,
        env.var("STT_RATE_PER_MIN"@) is None ==> rate_limit_resolved(env, rates).stt_per_min == rates.stt_per_min,
        env.var("LLM_RATE_PER_MIN"@) == Some(text::digits(n)) && n <= u32::MAX ==> rate_limit_resolved(env, rates).llm_per_min == n,
        env.var("LLM_RATE_PER_MIN"@) is None ==> rate_limit_resolved(env, rates).llm_per_min == rates.llm_per_min,
{
    law_numbers_are_taken(
        env,
        "MAX_AUDIO_FRAME_SAMPLES"@,
        limits.max_audio_frame_samples as int,
        n,
        usize::MAX as nat,
    );
    law_numbers_are_taken(
        env,
        "REQUIRED_SAMPLE_RATE"@,
        limits.required_sample_rate as int,
        n,
        u32::MAX as nat,
    );
    law_numbers_are_taken(
        env,
        "MAX_LANGUAGE_HINT_BYTES"@,
        limits.max_language_hint_bytes as int,
        n,
        usize::MAX as nat,
    );
    law_numbers_are_taken(
        env,
        "STT_RATE_PER_MIN"@,
        rates.stt_per_min as int,
        n,
        u32::MAX as nat,
    );
    law_numbers_are_taken(
        env,
        "LLM_RATE_PER_MIN"@,
        rates.llm_per_min as int,
        n,
        u32::MAX as nat,
    );
}

/// Each entry of the file for limits and rates counts where it is there; else the
/// default does: half a minute of audio at sixteen thousand samples a second, sixteen
/// bytes of a language, a hundred and twenty frames and thirty chats in a minute.
pub proof fn law_limit_file(f: TomlLimitsConfig, r: TomlRateLimitConfig)
    ensures
        f.max_audio_frame_samples is Some ==> limits_base(Some(f)).max_audio_frame_samples == f.max_audio_frame_samples->0,
        f.max_audio_frame_samples is None ==> limits_base(Some(f)).max_audio_frame_samples == 480_000,
        f.required_sample_rate is Some ==> limits_base(Some(f)).required_sample_rate == f.required_sample_rate->0,
        f.required_sample_rate is None ==> limits_base(Some(f)).required_sample_rate == 16_000,
        f.max_language_hint_bytes is Some ==> limits_base(Some(f)).max_language_hint_bytes == f.max_language_hint_bytes->0,
        f.max_language_hint_bytes is None ==> limits_base(Some(f)).max_language_hint_bytes == 16,
        r.stt_per_min is Some ==> rate_limit_base(Some(r)).stt_per_min == r.stt_per_min->0,
        r.stt_per_min is None ==> rate_limit_base(Some(r)).stt_per_min == 120,
        r.llm_per_min is Some ==> rate_limit_base(Some(r)).llm_per_min == r.llm_per_min->0,
        r.llm_per_min is None ==> rate_limit_base(Some(r)).llm_per_min == 30,
        limits_base(None) == (LimitsConfig {
            max_audio_frame_samples: 480_000,
            required_sample_rate: 16_000,
            max_language_hint_bytes: 16,
        }),
        rate_limit_base(None) == (RateLimitConfig { stt_per_min: 120, llm_per_min: 30 }),
{
}

/// Each variable of page fetching and of the weather sets its own entry and no other.
pub proof fn law_agent_variables(
    env: Env,
    web: WebFetchSettings,
    weather: WeatherSettings,
    n: nat,
)
    ensures
        env.var("WEB_FETCH_ALLOW_PUBLIC"@) == Some("true"@) ==> web_fetch_over(env, web).allow_public,
        env.var("WEB_FETCH_ALLOW_PUBLIC"@) == Some("false"@) ==> !web_fetch_over(env, web).allow_public,
        env.var("WEB_FETCH_ALLOW_PUBLIC"@) is None ==> web_fetch_over(env, web).allow_public == web.allow_public,
        env.var("WEB_FETCH_ALLOWLIST"@) is Some ==> web_fetch_over(env, web).allowlist == pieces(
            text::split(env.var("WEB_FETCH_ALLOWLIST"@)->0, ','),
        ),
        env.var("WEB_FETCH_ALLOWLIST"@) is None ==> web_fetch_over(env, web).allowlist == web.allowlist,
        env.var("WEB_FETCH_MAX_BYTES"@) == Some(text::digits(n)) && n <= usize::MAX ==> web_fetch_over(env, web).max_bytes == n,
        env.var("WEB_FETCH_MAX_BYTES"@) is None ==> web_fetch_over(env, web).max_bytes == web.max_bytes,
        env.var("WEB_FETCH_TIMEOUT_MS"@) == Some(text::digits(n)) && n <= u64::MAX ==> web_fetch_over(env, web).timeout_ms == n,
        env.var("WEB_FETCH_TIMEOUT_MS"@) is None ==> web_fetch_over(env, web).timeout_ms == web.timeout_ms,
        env.var("WEATHER_API_KEY"@) is Some ==> weather_over(env, weather).api_key == env.var("WEATHER_API_KEY"@)->0,
        env.var("WEATHER_API_KEY"@) is None ==> weather_over(env, weather).api_key == weather.api_key,
        env.var("WEATHER_TIMEOUT_MS"@) == Some(text::digits(n)) && n <= u64::MAX ==> weather_over(env, weather).timeout_ms == n,
        env.var("WEATHER_TIMEOUT_MS"@) is None ==> weather_over(env, weather).timeout_ms == weather.timeout_ms,
        env.var("WEATHER_BASE_URL"@) is Some ==> weather_over(env, weather).base_url == env.var("WEATHER_BASE_URL"@)->0,
        env.var("WEATHER_BASE_URL"@) is None ==> weather_over(env, weather).base_url == weather.base_url,
{
    law_switches_are_true_or_false(env, "WEB_FETCH_ALLOW_PUBLIC"@, web.allow_public);
    law_numbers_are_taken(
        env,
        "WEB_FETCH_MAX_BYTES"@,
        web.max_bytes as int,
        n,
        usize::MAX as nat,
    );
    law_numbers_are_taken(
        env,
        "WEB_FETCH_TIMEOUT_MS"@,
        web.timeout_ms as int,
        n,
        u64::MAX as nat,
    );
    law_numbers_are_taken(
        env,
        "WEATHER_TIMEOUT_MS"@,
        weather.timeout_ms as int,
        n,
        u64::MAX as nat,
    );
}

/// Each entry of the file for page fetching and the weather counts where it is there;
/// else the default does: no public pages, two mebibytes, half a minute, eight seconds
/// for the weather.
pub proof fn law_agent_file(
    f: config_file::WebFetchConfigView,
    w: config_file::WeatherConfigView,
)
    ensures
        f.allow_public is Some ==> web_fetch_base(Some(f)).allow_public == f.allow_public->0,
        f.allow_public is None ==> web_fetch_base(Some(f)).allow_public == false,
        f.allowlist is Some ==> web_fetch_base(Some(f)).allowlist == f.allowlist->0,
        f.allowlist is None ==> web_fetch_base(Some(f)).allowlist.len() == 0,
        f.max_bytes is Some ==> web_fetch_base(Some(f)).max_bytes == f.max_bytes->0,
        f.max_bytes is None ==> web_fetch_base(Some(f)).max_bytes == 2_097_152,
        f.timeout_ms is Some ==> web_fetch_base(Some(f)).timeout_ms == f.timeout_ms->0,
        f.timeout_ms is None ==> web_fetch_base(Some(f)).timeout_ms == 30_000,
        w.api_key is Some ==> weather_base(Some(w)).api_key == w.api_key->0,
        w.api_key is None ==> weather_base(Some(w)).api_key.len() == 0,
        w.timeout_ms is Some ==> weather_base(Some(w)).timeout_ms == w.timeout_ms->0,
        w.timeout_ms is None ==> weather_base(Some(w)).timeout_ms == 8_000,
        w.base_url is Some ==> weather_base(Some(w)).base_url == w.base_url->0,
        w.base_url is None ==> weather_base(Some(w)).base_url == "https://api.weatherapi.com"@,
        !web_fetch_base(None).allow_public && web_fetch_base(None).allowlist.len() == 0,
        web_fetch_base(None).max_bytes == 2_097_152 && web_fetch_base(None).timeout_ms == 30_000,
        weather_base(None).api_key.len() == 0 && weather_base(None).timeout_ms == 8_000,
        weather_base(None).base_url == "https://api.weatherapi.com"@,
{
}

/// Agents are on unless they are switched off, and the rounds are four unless another
/// number is set, which is kept between one and thirty-two.
pub proof fn law_agents_are_on_by_default(
    env: Env,
    file: Option<config_file::AgentConfigView>,
    n: nat,
)
    ensures
        ({
            let a = agents_resolved(env, file);
            let said = match file {
                Some(f) => f.enabled,
                None => None,
            };
            let rounds = match file {
                Some(f) => f.llm_max_tool_rounds,
                None => None,
            };
            let none = env.var("LLM_MAX_TOOL_ROUNDS"@) is None;
            &&& env.var("AGENTS_ENABLED"@) == Some("true"@) ==> a.enabled
            &&& env.var("AGENTS_ENABLED"@) == Some("false"@) ==> !a.enabled
            &&& env.var("AGENTS_ENABLED"@) is None && said is Some ==> a.enabled == said->0
            &&& env.var("AGENTS_ENABLED"@) is None && said is None ==> a.enabled
            &&& none && rounds is None ==> a.llm_max_tool_rounds == 4
            &&& none && rounds is Some && 1 <= rounds->0 <= 32 ==> a.llm_max_tool_rounds
                == rounds->0
            &&& env.var("LLM_MAX_TOOL_ROUNDS"@) == Some(text::digits(n)) && 1 <= n <= 32
                ==> a.llm_max_tool_rounds == n
            &&& env.var("LLM_MAX_TOOL_ROUNDS"@) == Some(text::digits(n)) && 32 < n <= u32::MAX
                ==> a.llm_max_tool_rounds == 32
            &&& env.var("LLM_MAX_TOOL_ROUNDS"@) == Some(text::digits(n)) && n == 0
                ==> a.llm_max_tool_rounds == 1
            &&& a.web_fetch == web_fetch_over(
                env,
                web_fetch_base(
                    match file {
                        Some(f) => f.web_fetch,
                        None => None,
                    },
                ),
            )
            &&& a.weather == weather_over(
                env,
                weather_base(
                    match file {
                        Some(f) => f.get_weather,
                        None => None,
                    },
                ),
            )
        }),
{
    law_switches_are_true_or_false(env, "AGENTS_ENABLED"@, true);
    law_numbers_are_taken(env, "LLM_MAX_TOOL_ROUNDS"@, 4, n, u32::MAX as nat);
}

/// Where the server listens, which model it loads, how many jobs wait and how long
/// sessions and transcriptions last: the variable, else the file, else the default. The
/// model has no default.
pub proof fn law_server_entries(env: Env, file: config_file::ConfigView)
    ensures
        env.var("BIND_ADDR"@) is Some ==> bind_text(env, file) == env.var("BIND_ADDR"@)->0,
        env.var("BIND_ADDR"@) is None && file.server is Some && file.server->0.bind_addr is Some
            ==> bind_text(env, file) == file.server->0.bind_addr->0,
        env.var("BIND_ADDR"@) is None && (file.server is None || file.server->0.bind_addr is None)
            ==> bind_text(env, file) == "0.0.0.0:8080"@,
        env.var("WHISPER_MODEL_PATH"@) is Some ==> model_path(env, file) == env.var(
            "WHISPER_MODEL_PATH"@,
        ),
        env.var("WHISPER_MODEL_PATH"@) is None && file.server is Some ==> model_path(env, file)
            == file.server->0.whisper_model_path,
        env.var("WHISPER_MODEL_PATH"@) is None && file.server is None ==> model_path(env, file)
            is None,
        file.server is None ==> queue_base(file) == 32 && idle_base(file) == 30_000 && infer_base(
            file,
        ) == 30_000,
        file.server is Some ==> {
            let s = file.server->0;
            &&& s.max_queue is Some ==> queue_base(file) == s.max_queue->0
            &&& s.max_queue is None ==> queue_base(file) == 32
            &&& s.session_idle_timeout_ms is Some ==> idle_base(file)
                == s.session_idle_timeout_ms->0
            &&& s.session_idle_timeout_ms is None ==> idle_base(file) == 30_000
            &&& s.infer_timeout_ms is Some ==> infer_base(file) == s.infer_timeout_ms->0
            &&& s.infer_timeout_ms is None ==> infer_base(file) == 30_000
        },
{
}

/// Without a model there is no server, and an address that cannot be read is told
/// first.
pub proof fn law_model_is_required(
    env: Env,
    file: config_file::ConfigView,
    bind: Result<Endpoint, Seq<char>>,
)
    ensures
        bind is Err ==> first_error(config_errors(env, file, bind)) == Some(
            ErrorView::InvalidBindAddr(bind->Err_0),
        ),
        bind is Ok && env.var("WHISPER_MODEL_PATH"@) is None && (file.server is None
            || file.server->0.whisper_model_path is None) ==> first_error(
            config_errors(env, file, bind),
        ) == Some(ErrorView::MissingModelPath),
        (forall|key: Seq<char>| key != "WHISPER_MODEL_PATH"@ ==> env.var(key) is None) && bind
            is Ok && model_path(env, file) is Some ==> first_error(config_errors(env, file, bind))
            is None,
{
    let s = config_errors(env, file, bind);
    assert(s.len() >= 2);
    if bind is Err {
        law_first_error_is_told(s, 0);
    } else if model_path(env, file) is None {
        assert(s[0] is None);
        law_first_error_is_told(s, 1);
    } else if forall|key: Seq<char>| key != "WHISPER_MODEL_PATH"@ ==> env.var(key) is None {
        reveal_strlit("WHISPER_MODEL_PATH");
        reveal_strlit("MAX_QUEUE");
        reveal_strlit("SESSION_IDLE_TIMEOUT_MS");
        reveal_strlit("INFER_TIMEOUT_MS");
        reveal_strlit("MAX_AUDIO_FRAME_SAMPLES");
        reveal_strlit("REQUIRED_SAMPLE_RATE");
        reveal_strlit("MAX_LANGUAGE_HINT_BYTES");
        reveal_strlit("LLM_ENABLED");
        reveal_strlit("LLM_REQUEST_TIMEOUT_SECS");
        reveal_strlit("LLM_ALLOW_USER_LOCATION");
        reveal_strlit("AGENTS_ENABLED");
        reveal_strlit("LLM_MAX_TOOL_ROUNDS");
        reveal_strlit("WEB_FETCH_ALLOW_PUBLIC");
        reveal_strlit("WEB_FETCH_MAX_BYTES");
        reveal_strlit("WEB_FETCH_TIMEOUT_MS");
        reveal_strlit("WEATHER_TIMEOUT_MS");
        reveal_strlit("STT_RATE_PER_MIN");
        reveal_strlit("LLM_RATE_PER_MIN");
        assert("WHISPER_MODEL_PATH"@.len() == 18 && "WHISPER_MODEL_PATH"@[1] == 'H');
        assert("MAX_QUEUE"@ != "WHISPER_MODEL_PATH"@);
        assert("SESSION_IDLE_TIMEOUT_MS"@ != "WHISPER_MODEL_PATH"@);
        assert("INFER_TIMEOUT_MS"@ != "WHISPER_MODEL_PATH"@);
        assert("MAX_AUDIO_FRAME_SAMPLES"@ != "WHISPER_MODEL_PATH"@);
        assert("REQUIRED_SAMPLE_RATE"@ != "WHISPER_MODEL_PATH"@);
        assert("MAX_LANGUAGE_HINT_BYTES"@ != "WHISPER_MODEL_PATH"@);
        assert("LLM_ENABLED"@ != "WHISPER_MODEL_PATH"@);
        assert("LLM_REQUEST_TIMEOUT_SECS"@ != "WHISPER_MODEL_PATH"@);
        assert("LLM_ALLOW_USER_LOCATION"@ != "WHISPER_MODEL_PATH"@);
        assert("AGENTS_ENABLED"@ != "WHISPER_MODEL_PATH"@);
        assert("LLM_MAX_TOOL_ROUNDS"@ != "WHISPER_MODEL_PATH"@);
        assert("WEB_FETCH_ALLOW_PUBLIC"@ != "WHISPER_MODEL_PATH"@);
        assert("WEB_FETCH_MAX_BYTES"@ != "WHISPER_MODEL_PATH"@);
        assert("WEB_FETCH_TIMEOUT_MS"@ != "WHISPER_MODEL_PATH"@);
        assert("WEATHER_TIMEOUT_MS"@[1] == 'E');
        assert("WEATHER_TIMEOUT_MS"@ != "WHISPER_MODEL_PATH"@);
        assert("STT_RATE_PER_MIN"@ != "WHISPER_MODEL_PATH"@);
        assert("LLM_RATE_PER_MIN"@ != "WHISPER_MODEL_PATH"@);
        lemma_no_errors(s);
    }
}

/// What is said of a configuration that cannot be used.
pub proof fn law_config_errors_say_what_is_wrong(e: ConfigError)
    ensures
        e is MissingModelPath ==> e.text() == "WHISPER_MODEL_PATH is required"@,
        e is InvalidBindAddr ==> e.text() == "invalid BIND_ADDR: "@ + e->InvalidBindAddr_0@,
        e is InvalidEnv ==> e.text() == "invalid env var "@ + e->InvalidEnv_0@ + ": "@
            + e->InvalidEnv_1@,
{
}

} // verus!
