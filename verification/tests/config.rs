use nagent::config::{
    comma_list, AgentConfig, Config, ConfigError, Env, LimitsConfig, LlmConfig, RateLimitConfig,
    WeatherConfig, WebFetchConfig,
};
use nagent::config_file::{
    merge_toml_configs, ConfigFileError, TomlAgentConfig, TomlConfig, TomlLlmConfig,
    TomlRateLimitConfig, TomlServerConfig, TomlWebFetchConfig,
};
use nagent::llm_prompt::DEFAULT_SYSTEM_PROMPT;
use nagent::net::{Endpoint, Ip};

fn env(pairs: &[(&str, &str)]) -> Env {
    Env { vars: pairs.iter().map(|(k, v)| (k.to_string(), v.to_string())).collect() }
}

fn local() -> Result<Endpoint, String> {
    Ok(Endpoint { ip: Ip::V4(127, 0, 0, 1), port: 9 })
}

#[test]
fn rate_limit_defaults_match_plan() {
    let cfg = RateLimitConfig::default();
    assert_eq!(cfg.stt_per_min, 120, "STT_RATE_PER_MIN default should be 120");
    assert_eq!(cfg.llm_per_min, 30, "LLM_RATE_PER_MIN default should be 30");
}

#[test]
fn merge_takes_later_over_earlier() {
    let earlier = TomlConfig {
        server: Some(TomlServerConfig {
            bind_addr: Some("127.0.0.1:1111".into()),
            max_queue: Some(8),
            whisper_model_path: Some("/from/earlier.bin".into()),
            rate_limits: Some(TomlRateLimitConfig {
                stt_per_min: Some(60),
                ..TomlRateLimitConfig::default()
            }),
            ..TomlServerConfig::default()
        }),
        agents: Some(TomlAgentConfig {
            enabled: Some(true),
            web_fetch: Some(TomlWebFetchConfig {
                allow_public: Some(false),
                max_bytes: Some(1024),
                ..TomlWebFetchConfig::default()
            }),
            ..TomlAgentConfig::default()
        }),
        ..TomlConfig::default()
    };
    let later = TomlConfig {
        server: Some(TomlServerConfig {
            max_queue: Some(99),
            whisper_model_path: Some("/from/later.bin".into()),
            rate_limits: Some(TomlRateLimitConfig {
                llm_per_min: Some(30),
                ..TomlRateLimitConfig::default()
            }),
            ..TomlServerConfig::default()
        }),
        agents: Some(TomlAgentConfig {
            llm_max_tool_rounds: Some(7),
            web_fetch: Some(TomlWebFetchConfig {
                allow_public: Some(true),
                ..TomlWebFetchConfig::default()
            }),
            ..TomlAgentConfig::default()
        }),
        ..TomlConfig::default()
    };
    let merged = merge_toml_configs(&earlier, &later);
    let server = merged.server.expect("server section present after merge");
    assert_eq!(server.bind_addr.as_deref(), Some("127.0.0.1:1111"));
    assert_eq!(server.max_queue, Some(99));
    assert_eq!(server.whisper_model_path.as_deref(), Some("/from/later.bin"));
    let rates = server.rate_limits.expect("rate_limits merged");
    assert_eq!(rates.stt_per_min, Some(60));
    assert_eq!(rates.llm_per_min, Some(30));

    let agents = merged.agents.expect("agents section present after merge");
    assert_eq!(agents.enabled, Some(true));
    assert_eq!(agents.llm_max_tool_rounds, Some(7));

    let wf = agents.web_fetch.expect("web_fetch section present after merge");
    assert_eq!(wf.allow_public, Some(true));
    assert_eq!(wf.max_bytes, Some(1024));
}

fn with_server(bind_addr: &str, max_queue: usize) -> TomlConfig {
    TomlConfig {
        server: Some(TomlServerConfig {
            bind_addr: Some(bind_addr.into()),
            max_queue: Some(max_queue),
            ..TomlServerConfig::default()
        }),
        ..TomlConfig::default()
    }
}

#[test]
fn merge_with_earlier_only_is_identity() {
    let earlier = with_server("127.0.0.1:2222", 4);
    let later = TomlConfig::empty();
    let merged = merge_toml_configs(&earlier, &later);
    assert_eq!(merged, earlier);
    let server = merged.server.expect("server section present after merge");
    assert_eq!(server.bind_addr.as_deref(), Some("127.0.0.1:2222"));
    assert_eq!(server.max_queue, Some(4));
}

#[test]
fn merge_with_later_only_takes_all_from_later() {
    let earlier = TomlConfig::empty();
    let later = with_server("127.0.0.1:3333", 64);
    let merged = merge_toml_configs(&earlier, &later);
    assert_eq!(merged, later);
    let server = merged.server.expect("server section present after merge");
    assert_eq!(server.bind_addr.as_deref(), Some("127.0.0.1:3333"));
    assert_eq!(server.max_queue, Some(64));
}

#[test]
fn files_stack() {
    let a = with_server("a", 1);
    let b = TomlConfig {
        llm: Some(TomlLlmConfig { default_model: Some("m".into()), ..TomlLlmConfig::default() }),
        ..TomlConfig::default()
    };
    let c = with_server("c", 3);
    let left = merge_toml_configs(&merge_toml_configs(&a, &b), &c);
    let right = merge_toml_configs(&a, &merge_toml_configs(&b, &c));
    assert_eq!(left, right);
    assert_eq!(left.server.unwrap().bind_addr.as_deref(), Some("c"));
    assert_eq!(merge_toml_configs(&a, &a), a);
}

#[test]
fn errors_of_a_file_name_it() {
    assert_eq!(
        ConfigFileError::Io("/x.toml".into(), "gone".into()).message(),
        "could not read config file /x.toml: gone"
    );
    assert_eq!(
        ConfigFileError::Parse("/x.toml".into(), "bad".into()).message(),
        "invalid config file /x.toml: bad"
    );
}

#[test]
fn defaults_without_variables() {
    let cfg =
        Config::from_env(&env(&[("WHISPER_MODEL_PATH", "m.bin")]), &TomlConfig::empty(), local())
            .unwrap();
    assert_eq!(cfg.whisper_model_path, "m.bin");
    assert_eq!(cfg.bind_addr, Endpoint { ip: Ip::V4(127, 0, 0, 1), port: 9 });
    assert_eq!(cfg.limits, LimitsConfig::default());
    assert_eq!(cfg.rate_limit, RateLimitConfig::default());
    assert_eq!(cfg.llm, LlmConfig::from_env(&env(&[]), None).unwrap());
    assert_eq!(cfg.agents, AgentConfig::default());
    assert_eq!(cfg.agents.web_fetch, WebFetchConfig::default());
    assert_eq!(cfg.agents.weather, WeatherConfig::default());
    assert_eq!(Config::bind_addr_text(&env(&[]), &TomlConfig::empty()), "0.0.0.0:8080");
}

#[test]
fn the_environment_wins_over_the_file() {
    let file = TomlConfig {
        server: Some(TomlServerConfig {
            bind_addr: Some("1.2.3.4:5".into()),
            whisper_model_path: Some("file.bin".into()),
            max_queue: Some(7),
            ..TomlServerConfig::default()
        }),
        ..TomlConfig::default()
    };
    let vars = env(&[("MAX_QUEUE", "9"), ("BIND_ADDR", "0.0.0.0:1")]);
    let cfg = Config::from_env(&vars, &file, local()).unwrap();
    assert_eq!(cfg.max_queue, 9);
    assert_eq!(cfg.whisper_model_path, "file.bin");
    assert_eq!(Config::bind_addr_text(&vars, &file), "0.0.0.0:1");
    assert_eq!(Config::bind_addr_text(&env(&[]), &file), "1.2.3.4:5");
}

#[test]
fn each_error_of_the_configuration() {
    let none = TomlConfig::empty();
    let err = Config::from_env(&env(&[]), &none, local()).unwrap_err();
    assert_eq!(err, ConfigError::MissingModelPath);
    assert_eq!(err.message(), "WHISPER_MODEL_PATH is required");
    let model = ("WHISPER_MODEL_PATH", "m");
    let err = Config::from_env(&env(&[model]), &none, Err("no port".into())).unwrap_err();
    assert_eq!(err.message(), "invalid BIND_ADDR: no port");
    let err = Config::from_env(&env(&[model, ("MAX_QUEUE", "x")]), &none, local()).unwrap_err();
    assert_eq!(err.message(), "invalid env var MAX_QUEUE: invalid digit found in string");
}

#[test]
fn lists_are_split_at_commas() {
    assert_eq!(comma_list(" a, b ,,c "), ["a", "b", "c"]);
    assert!(comma_list("").is_empty());
    let cfg =
        LlmConfig::from_env(&env(&[("LLM_CORS_ALLOW_ORIGINS", "https://a, https://b")]), None)
            .unwrap();
    assert_eq!(cfg.cors_allow_origins, ["https://a", "https://b"]);
}

#[test]
fn the_prompt_falls_back_to_the_built_in_one() {
    let built_in = LlmConfig::from_env(&env(&[]), None).unwrap();
    assert_eq!(built_in.system_prompt.as_deref(), Some(DEFAULT_SYSTEM_PROMPT));
    let file = TomlLlmConfig { system_prompt: Some("be brief".into()), ..TomlLlmConfig::default() };
    let from_file = LlmConfig::from_env(&env(&[]), Some(&file)).unwrap();
    assert_eq!(from_file.system_prompt.as_deref(), Some("be brief"));
    let from_env =
        LlmConfig::from_env(&env(&[("LLM_SYSTEM_PROMPT", "be kind")]), Some(&file)).unwrap();
    assert_eq!(from_env.system_prompt.as_deref(), Some("be kind"));
}
