use glm_monitor::api::{decode_payload, finish_fetch, is_success, FetchError};
use glm_monitor::app::{App, KeyInput};
use glm_monitor::config::{Config, ConfigError, Platform};
use glm_monitor::models::{AppState, Limit, QuotaLimitResponse};
use glm_monitor::view::{body_view, fits_terminal, limit_tone, row_height, status_word, BodyView, Tone};

fn snapshot(pct: Option<i64>) -> QuotaLimitResponse {
    QuotaLimitResponse {
        limits: vec![Limit {
            limit_type: "TOKENS_LIMIT".to_string(),
            usage: Some(100),
            current_value: Some(10),
            remaining: Some(90),
            percentage: pct,
            unit: Some(3),
            number: Some(5),
            usage_details: vec![],
            next_reset_time: None,
        }],
    }
}

fn config() -> Config {
    Config {
        base_url: "https://api.z.ai/api/anthropic".to_string(),
        auth_token: "test-token".to_string(),
        refresh_sec: 300,
        http_timeout_sec: 20,
    }
}

#[test]
fn test_app_creation() {
    let config = Config {
        base_url: "https://api.z.ai/api/anthropic".to_string(),
        auth_token: "test-token".to_string(),
        refresh_sec: 300,
        http_timeout_sec: 20,
    };

    let app = App::new(config, 0);
    assert!(app.is_ok());

    let app = app.unwrap();
    assert_eq!(app.platform, Platform::Zai);
    assert!(!app.state.should_quit);
}

#[test]
fn app_creation_rejects_bad_url() {
    let mut c = config();
    c.base_url = "no scheme here".to_string();
    assert_eq!(App::new(c, 0).err(), Some(ConfigError::InvalidBaseUrl));
}

#[test]
fn app_strings_and_initial_state() {
    let app = App::new(config(), 1000).unwrap();
    assert_eq!(app.domain(), "https://api.z.ai");
    assert_eq!(app.refresh_interval_str(), "300s");
    assert_eq!(app.timeout_str(), "20s");
    assert!(app.get_quota().is_none());
    assert!(app.get_last_error().is_none());
    assert!(app.state.is_loading);
    assert_eq!(app.state.refresh_interval, 300_000);
    assert!(app.tick(1000));
    assert!(!app.tick(999));
}

#[test]
fn keys_quit_and_refresh() {
    let mut app = App::new(config(), 0).unwrap();
    app.refresh_data(Ok(snapshot(Some(100))), 10, 1);
    assert!(!app.tick(20));
    app.handle_key_event(KeyInput::Char('x'), 20);
    assert!(!app.state.should_quit && !app.state.is_loading);
    app.handle_key_event(KeyInput::Char('R'), 20);
    assert!(app.state.is_loading);
    assert!(app.tick(20));
    app.handle_key_event(KeyInput::Other, 30);
    assert!(!app.state.should_quit);
    app.handle_key_event(KeyInput::Char('q'), 30);
    assert!(app.state.should_quit);
}

#[test]
fn failed_refresh_keeps_old_data() {
    let mut app = App::new(config(), 0).unwrap();
    app.refresh_data(Ok(snapshot(Some(4200))), 5, 77);
    assert_eq!(app.state.last_update, Some(77));
    let before = app.state.quota_data.clone();
    app.refresh_data(Err(FetchError::Transport("timed out".to_string())), 10, 78);
    assert_eq!(app.state.quota_data, before);
    assert_eq!(
        app.get_last_error(),
        Some("Failed to send request to quota limit endpoint: timed out".to_string())
    );
    assert_eq!(app.state.last_update, Some(77));
    assert_eq!(app.state.next_refresh, 300_010);
    assert!(!app.state.is_loading);
}

#[test]
fn success_clears_error_and_replaces_data() {
    let mut s = AppState::new(60_000, 0);
    s.set_error("boom".to_string(), 1);
    assert_eq!(s.last_error, Some("boom".to_string()));
    assert_eq!(s.next_refresh, 60_001);
    s.update_quota(snapshot(Some(1)), 2, 3);
    assert_eq!(s.last_error, None);
    assert_eq!(s.quota_data, Some(snapshot(Some(1))));
    assert_eq!(s.next_refresh, 60_002);
    assert_eq!(s.seconds_until_refresh(2), 60);
    assert_eq!(s.seconds_until_refresh(59_002), 1);
    assert_eq!(s.seconds_until_refresh(70_000), 0);
}

#[test]
fn forced_refresh_is_due_right_after_a_refresh() {
    let mut s = AppState::new(300_000, 0);
    s.update_quota(snapshot(None), 500, 0);
    assert!(!s.should_refresh_now(501));
    s.force_refresh(501);
    assert!(s.should_refresh_now(501));
    assert!(s.should_refresh_now(10_000));
}

#[test]
fn deadline_saturates_at_clock_end() {
    let mut s = AppState::new(u64::MAX, 0);
    s.set_error("e".to_string(), 10);
    assert_eq!(s.next_refresh, u64::MAX);
}

#[test]
fn non_success_status_is_an_error_with_status() {
    assert!(is_success(200) && is_success(299));
    assert!(!is_success(199) && !is_success(300) && !is_success(404));
    let r = finish_fetch(
        503,
        "https://api.z.ai/api/monitor/usage/quota/limit".to_string(),
        "busy".to_string(),
        Some(Ok(snapshot(Some(1)))),
        Ok(snapshot(Some(1))),
    );
    let e = r.unwrap_err();
    assert_eq!(
        e.message(),
        "HTTP 503: Failed to fetch quota limit\nURL: https://api.z.ai/api/monitor/usage/quota/limit\nResponse: busy"
    );
}

#[test]
fn wrapped_and_direct_bodies_agree() {
    let wrapped = finish_fetch(200, "u".to_string(), "b".to_string(), Some(Ok(snapshot(Some(7)))), Err("no limits".to_string()));
    let direct = finish_fetch(200, "u".to_string(), "b".to_string(), None, Ok(snapshot(Some(7))));
    assert_eq!(wrapped, direct);
    assert_eq!(wrapped, Ok(snapshot(Some(7))));
}

#[test]
fn bad_data_member_falls_back_to_whole_body() {
    let r = decode_payload(Some(Err("bad".to_string())), Ok(snapshot(None)));
    assert_eq!(r, Ok(snapshot(None)));
    let r = decode_payload(Some(Err("bad".to_string())), Err("missing field `limits`".to_string()));
    let e = r.unwrap_err();
    assert_eq!(e, FetchError::Decode("missing field `limits`".to_string()));
    assert_eq!(e.message(), "Failed to parse quota limit response: missing field `limits`");
}

#[test]
fn body_view_priority() {
    let mut s = AppState::new(1000, 0);
    assert_eq!(body_view(&s), BodyView::Loading);
    assert_eq!(status_word(&s), "Loading...");
    s.set_error("x".to_string(), 0);
    assert_eq!(body_view(&s), BodyView::Error);
    assert_eq!(status_word(&s), "Error");
    let mut t = AppState::new(1000, 0);
    t.is_loading = false;
    assert_eq!(body_view(&t), BodyView::NoData);
    assert_eq!(status_word(&t), "Waiting");
    t.update_quota(snapshot(None), 0, 0);
    assert_eq!(body_view(&t), BodyView::Limits);
    assert_eq!(status_word(&t), "Connected");
}

#[test]
fn tones_sizes_and_rows() {
    assert_eq!(limit_tone(Some(9000)), Tone::Alert);
    assert_eq!(limit_tone(Some(8999)), Tone::Warning);
    assert_eq!(limit_tone(Some(7000)), Tone::Warning);
    assert_eq!(limit_tone(Some(6999)), Tone::Normal);
    assert_eq!(limit_tone(None), Tone::Normal);
    assert!(fits_terminal(40, 10));
    assert!(!fits_terminal(39, 10));
    assert!(!fits_terminal(40, 9));
    assert_eq!(row_height(20, 3), 6);
    assert_eq!(row_height(20, 0), 20);
    assert_eq!(row_height(20, 100_000), 0);
}

#[test]
fn body_read_failure_message() {
    let e = FetchError::Body("connection reset".to_string());
    assert_eq!(e.message(), "Failed to read response body: connection reset");
}

#[test]
fn forced_refresh_cycle_sets_next_deadline() {
    let mut app = App::new(config(), 0).unwrap();
    app.refresh_data(Ok(snapshot(Some(1))), 100, 1);
    app.handle_key_event(KeyInput::Char('r'), 150);
    assert!(app.tick(150));
    app.refresh_data(Err(FetchError::Body("x".to_string())), 160, 2);
    assert!(!app.state.is_loading);
    assert_eq!(app.state.next_refresh, 160 + 300_000);
    assert_eq!(app.state.quota_data, Some(snapshot(Some(1))));
    assert_eq!(app.state.last_update, Some(1));
}

#[test]
fn app_endpoints_follow_base_url() {
    let app = App::new(config(), 0).unwrap();
    assert_eq!(app.endpoints.domain, "https://api.z.ai");
    assert_eq!(app.endpoints.quota_limit_url, "https://api.z.ai/api/monitor/usage/quota/limit");
}
