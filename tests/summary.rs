use glm_monitor::models::{Limit, QuotaLimitResponse};
use glm_monitor::summary::{failure_text, failure_tooltip, headline, tooltip_text, StatusClass};

fn limit(name: &str, pct: Option<i64>) -> Limit {
    Limit {
        limit_type: name.to_string(),
        usage: None,
        current_value: None,
        remaining: None,
        percentage: pct,
        unit: None,
        number: None,
        usage_details: vec![],
        next_reset_time: None,
    }
}

fn quota(pcts: &[Option<i64>]) -> QuotaLimitResponse {
    QuotaLimitResponse {
        limits: pcts.iter().enumerate().map(|(i, p)| limit(&format!("L{}", i), *p)).collect(),
    }
}

#[test]
fn one_shot_classes() {
    let h = headline(&quota(&[Some(9500)]));
    assert_eq!(h.class, StatusClass::Critical);
    assert_eq!(h.class.label(), "critical");
    assert_eq!(h.text, "L0: 95%");
    assert_eq!(h.percentage, 95);
    let h = headline(&quota(&[Some(8000)]));
    assert_eq!(h.class, StatusClass::Warning);
    assert_eq!(h.class.label(), "warning");
    let h = headline(&quota(&[Some(5000)]));
    assert_eq!(h.class, StatusClass::Normal);
    assert_eq!(h.class.label(), "normal");
    assert_eq!(h.percentage, 50);
}

#[test]
fn one_shot_without_percentages() {
    let h = headline(&quota(&[None, None]));
    assert_eq!(h.text, "GLM: N/A");
    assert_eq!(h.percentage, 0);
    assert_eq!(h.class, StatusClass::Normal);
    let h = headline(&quota(&[]));
    assert_eq!(h.text, "GLM: N/A");
}

#[test]
fn one_shot_picks_first_highest() {
    let h = headline(&quota(&[Some(1000), Some(6050), None, Some(6050), Some(20)]));
    assert_eq!(h.text, "L1: 60%");
    assert_eq!(h.percentage, 60);
    let h = headline(&quota(&[Some(9000), Some(7500)]));
    assert_eq!(h.class, StatusClass::Warning);
    let h = headline(&quota(&[Some(7500)]));
    assert_eq!(h.class, StatusClass::Normal);
}

#[test]
fn tooltip_joins_and_trims() {
    let blocks = vec![
        vec!["a: 1".to_string(), "    Remaining: 2".to_string()],
        vec!["b".to_string()],
    ];
    assert_eq!(tooltip_text(&blocks), "a: 1\n    Remaining: 2\n\nb");
    assert_eq!(tooltip_text(&vec![]), "");
}

#[test]
fn failure_status() {
    assert_eq!(failure_text(), "GLM: Err");
    assert_eq!(failure_tooltip(None), "No data");
    assert_eq!(failure_tooltip(Some("HTTP 500".to_string())), "HTTP 500");
}

#[test]
fn one_shot_rounds_halves_to_even() {
    assert_eq!(headline(&quota(&[Some(1250)])).text, "L0: 12%");
    assert_eq!(headline(&quota(&[Some(1350)])).text, "L0: 14%");
    assert_eq!(headline(&quota(&[Some(1249)])).text, "L0: 12%");
    assert_eq!(headline(&quota(&[Some(1251)])).text, "L0: 13%");
    assert_eq!(format!("{:.0}", 12.5f64), "12");
    assert_eq!(format!("{:.0}", 13.5f64), "14");
}

#[test]
fn tooltip_trims_unicode_whitespace() {
    let blocks = vec![vec!["\u{3000} x \u{a0}".to_string()]];
    assert_eq!(tooltip_text(&blocks), "x");
}
