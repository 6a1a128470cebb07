use agile_inc::config::{
    default_dedupe_ttl, default_llm_base_url, default_llm_max_tokens, default_llm_model, default_log_level,
    default_max_llm_rounds, default_max_output_kb, default_opencode_command, default_po_system_prompt,
    default_timeout, default_workdir, parse_bounded, Config, EnvOverrides, TopicBuilder,
};

fn no_overrides() -> EnvOverrides {
    EnvOverrides {
        mqtt_host: None,
        mqtt_port: None,
        mqtt_base_topic: None,
        redis_url: None,
        redis_dedupe_ttl: None,
        opencode_command: None,
        opencode_timeout: None,
        agents_log_level: None,
    }
}

fn file_config() -> Config {
    let mut c = Config::default();
    c.mqtt.host = "default.example.com".to_string();
    c.mqtt.port = 1883;
    c.mqtt.base_topic = "default".to_string();
    c.mqtt.client_id_prefix = "default".to_string();
    c.redis.url = "redis://localhost:6379".to_string();
    c.redis.dedupe_ttl_seconds = default_dedupe_ttl();
    c.opencode.command = "opencode".to_string();
    c.opencode.timeout_seconds = default_timeout();
    c.agents.log_level = "info".to_string();
    c
}

#[test]
fn test_topic_builder() {
    let builder = TopicBuilder::new("agileinc");

    assert_eq!(builder.role_inbox("po"), "agileinc/role/po/inbox");
    assert_eq!(builder.role_inbox("dev"), "agileinc/role/dev/inbox");
    assert_eq!(builder.events(), "agileinc/events");
    assert_eq!(builder.system_alerts(), "agileinc/system/alerts");
    assert_eq!(builder.policy_changed(), "agileinc/policy/changed");
}

#[test]
fn role_topic_is_the_inbox() {
    let builder = TopicBuilder::new("agileinc");
    assert_eq!(builder.role_topic("qa"), builder.role_inbox("qa"));
    assert_ne!(builder.role_inbox("qa"), builder.role_inbox("dev"));
}

#[test]
fn test_env_overrides() {
    let mut config = file_config();
    let mut env = no_overrides();
    env.mqtt_host = Some("env.example.com".to_string());
    env.mqtt_port = Some("1885".to_string());
    env.redis_url = Some("redis://env:6379".to_string());
    env.opencode_timeout = Some("900".to_string());
    config.apply_env_overrides(&env);
    assert_eq!(config.mqtt.host, "env.example.com");
    assert_eq!(config.mqtt.port, 1885);
    assert_eq!(config.redis.url, "redis://env:6379");
    assert_eq!(config.opencode.timeout_seconds, 900);
    assert_eq!(config.mqtt.base_topic, "default");
    assert_eq!(config.agents.log_level, "info");
}

#[test]
fn unparsable_numbers_keep_file_values() {
    let mut config = file_config();
    let mut env = no_overrides();
    env.mqtt_port = Some("70000".to_string());
    env.redis_dedupe_ttl = Some("soon".to_string());
    env.opencode_timeout = Some("-5".to_string());
    env.agents_log_level = Some("debug".to_string());
    env.opencode_command = Some("myopencode".to_string());
    env.mqtt_base_topic = Some("other".to_string());
    config.apply_env_overrides(&env);
    assert_eq!(config.mqtt.port, 1883);
    assert_eq!(config.redis.dedupe_ttl_seconds, 86400);
    assert_eq!(config.opencode.timeout_seconds, 1800);
    assert_eq!(config.agents.log_level, "debug");
    assert_eq!(config.opencode.command, "myopencode");
    assert_eq!(config.mqtt.base_topic, "other");
}

#[test]
fn no_overrides_leave_config_unchanged() {
    let mut config = file_config();
    config.apply_env_overrides(&no_overrides());
    assert_eq!(config.mqtt.host, "default.example.com");
    assert_eq!(config.mqtt.port, 1883);
    assert_eq!(config.redis.url, "redis://localhost:6379");
    assert_eq!(config.opencode.command, "opencode");
}

#[test]
fn test_default_config_values() {
    assert_eq!(default_dedupe_ttl(), 86400);
    assert_eq!(default_opencode_command(), "opencode");
    assert_eq!(default_workdir(), "./");
    assert_eq!(default_timeout(), 1800);
    assert_eq!(default_max_output_kb(), 2048);
    assert_eq!(default_log_level(), "info");
    assert_eq!(default_llm_model(), "minimax-m2.5:cloud");
    assert_eq!(default_llm_max_tokens(), 2048);
    assert_eq!(default_llm_base_url(), "http://localhost:11434");
    assert_eq!(
        default_po_system_prompt(),
        "You are a Product Owner agent. Analyze the story and respond with your thoughts."
    );
    assert_eq!(default_max_llm_rounds(), 10);
}

#[test]
fn bounded_number_parsing() {
    assert_eq!(parse_bounded("1885", 65535), Some(1885));
    assert_eq!(parse_bounded("+42", 65535), Some(42));
    assert_eq!(parse_bounded("0065535", 65535), Some(65535));
    assert_eq!(parse_bounded("65536", 65535), None);
    assert_eq!(parse_bounded("", 65535), None);
    assert_eq!(parse_bounded("+", 65535), None);
    assert_eq!(parse_bounded("12a", 65535), None);
    assert_eq!(parse_bounded(" 1", 65535), None);
    assert_eq!(parse_bounded("18446744073709551615", u64::MAX), Some(u64::MAX));
    assert_eq!(parse_bounded("18446744073709551616", u64::MAX), None);
    // agrees with the standard parser
    for s in ["7", "+7", "-7", "007", "99999", "x"] {
        assert_eq!(parse_bounded(s, 65535), s.parse::<u16>().ok().map(|v| v as u64));
    }
}
