use glm_monitor::config::{choose_setting, compose_domain, number_setting, Config, ConfigError, Platform};

fn config(base_url: &str) -> Config {
    Config {
        base_url: base_url.to_string(),
        auth_token: "test".to_string(),
        refresh_sec: 300,
        http_timeout_sec: 20,
    }
}

#[test]
fn test_platform_detection() {
    let config = Config {
        base_url: "https://api.z.ai/api/anthropic".to_string(),
        auth_token: "test".to_string(),
        refresh_sec: 300,
        http_timeout_sec: 20,
    };
    assert_eq!(config.platform(), Platform::Zai);

    let config = Config {
        base_url: "https://open.bigmodel.cn/api/anthropic".to_string(),
        auth_token: "test".to_string(),
        refresh_sec: 300,
        http_timeout_sec: 20,
    };
    assert_eq!(config.platform(), Platform::Zhipu);
}

#[test]
fn platform_dev_and_unknown_hosts() {
    assert_eq!(config("https://dev.bigmodel.cn/api").platform(), Platform::Zhipu);
    assert_eq!(config("https://example.com/api").platform(), Platform::Unknown);
    assert_eq!(Platform::Zai.label(), "ZAI");
    assert_eq!(Platform::Zhipu.label(), "ZHIPU");
    assert_eq!(Platform::Unknown.label(), "UNKNOWN");
}

#[test]
fn domain_keeps_scheme_host_and_port() {
    assert_eq!(config("https://api.z.ai/api/anthropic").domain(), Ok("https://api.z.ai".to_string()));
    assert_eq!(config("http://localhost:8080/x/y").domain(), Ok("http://localhost:8080".to_string()));
    assert_eq!(config("https://api.z.ai:443/api").domain(), Ok("https://api.z.ai".to_string()));
    assert_eq!(config("not a url").domain(), Err(ConfigError::InvalidBaseUrl));
}

#[test]
fn endpoints_append_quota_path() {
    let e = config("https://api.z.ai/api/anthropic").endpoints().unwrap();
    assert_eq!(e.domain, "https://api.z.ai");
    assert_eq!(e.quota_limit_url, "https://api.z.ai/api/monitor/usage/quota/limit");
    assert!(config("::nope").endpoints().is_err());
}

#[test]
fn compose_domain_without_host() {
    assert_eq!(compose_domain("file", None, None), "file://unknown");
    assert_eq!(compose_domain("http", Some("h"), Some(81)), "http://h:81");
}

#[test]
fn setting_precedence() {
    assert_eq!(choose_setting(Some("  env  "), Some("file"), Some("def"), "X"), Ok("env".to_string()));
    assert_eq!(choose_setting(Some("   "), Some(" file\n"), Some("def"), "X"), Ok("file".to_string()));
    assert_eq!(choose_setting(None, Some(""), Some("def"), "X"), Ok("def".to_string()));
    assert_eq!(
        choose_setting(None, None, None, "TOKEN"),
        Err(ConfigError::Missing("TOKEN".to_string()))
    );
}

#[test]
fn numeric_settings() {
    assert_eq!(number_setting(Some("300"), 60), 300);
    assert_eq!(number_setting(Some("+15"), 60), 15);
    assert_eq!(number_setting(Some("18446744073709551615"), 60), u64::MAX);
    assert_eq!(number_setting(Some("18446744073709551616"), 60), 60);
    assert_eq!(number_setting(Some(" 30"), 60), 60);
    assert_eq!(number_setting(Some("-1"), 60), 60);
    assert_eq!(number_setting(Some(""), 60), 60);
    assert_eq!(number_setting(Some("+"), 60), 60);
    assert_eq!(number_setting(None, 20), 20);
}

#[test]
fn endpoints_domain_matches_domain() {
    for url in ["https://api.z.ai/api/anthropic", "http://localhost:8080/x", "https://open.bigmodel.cn/api/anthropic"] {
        let c = config(url);
        let e = c.endpoints().unwrap();
        assert_eq!(Ok(e.domain.clone()), c.domain());
        assert_eq!(e.quota_limit_url, format!("{}/api/monitor/usage/quota/limit", e.domain));
    }
}

#[test]
fn setting_trims_all_whitespace() {
    assert_eq!(choose_setting(Some("\t\u{2003}tok\u{85}\r\n"), None, None, "X"), Ok("tok".to_string()));
    assert_eq!(choose_setting(Some("\u{200b}"), None, Some("d"), "X"), Ok("\u{200b}".to_string()));
}

#[test]
fn platform_search_over_unicode_text() {
    assert_eq!(config("https://ü.example/ä/api.z.ai").platform(), Platform::Zai);
    assert_eq!(config("api.z.a").platform(), Platform::Unknown);
    assert_eq!(config("").platform(), Platform::Unknown);
    assert_eq!(config("xx.dev.bigmodel.cn").platform(), Platform::Zhipu);
}

#[test]
fn parse_u64_forms() {
    use_parse(&[("0", Some(0)), ("007", Some(7)), ("+0", Some(0)), ("1_000", None), ("12a", None), ("٣", None)]);
}

fn use_parse(cases: &[(&str, Option<u64>)]) {
    for (text, expected) in cases {
        assert_eq!(glm_monitor::config::parse_u64(text), *expected);
        assert_eq!(text.parse::<u64>().ok(), *expected);
    }
}
