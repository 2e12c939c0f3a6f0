use glm_monitor::format::Format;
use glm_monitor::models::{Limit, UsageDetail};

fn limit(name: &str) -> Limit {
    Limit {
        limit_type: name.to_string(),
        usage: Some(1000000),
        current_value: Some(250000),
        remaining: Some(750000),
        percentage: Some(2500),
        unit: None,
        number: Some(5),
        usage_details: vec![],
        next_reset_time: None,
    }
}

#[test]
fn test_format_int() {
    assert_eq!(Format::format_int(Some(1234567)), "1 234 567");
    assert_eq!(Format::format_int(None), "N/A");
}

#[test]
fn format_int_small_and_boundary_values() {
    assert_eq!(Format::format_int(Some(0)), "0");
    assert_eq!(Format::format_int(Some(999)), "999");
    assert_eq!(Format::format_int(Some(1000)), "1 000");
    assert_eq!(Format::format_int(Some(100000)), "100 000");
}

#[test]
fn format_int_negative_and_extremes() {
    assert_eq!(Format::format_int(Some(-1234567)), "-1 234 567");
    assert_eq!(Format::format_int(Some(-123)), "-123");
    assert_eq!(Format::format_int(Some(i64::MAX)), "9 223 372 036 854 775 807");
    assert_eq!(Format::format_int(Some(i64::MIN)), "-9 223 372 036 854 775 808");
}

#[test]
fn test_progress_bar() {
    assert_eq!(Format::progress_bar(Some(5000), 10), "[█████░░░░░] 50%");
    assert_eq!(Format::progress_bar(Some(0), 10), "[░░░░░░░░░░] 0%");
    assert_eq!(Format::progress_bar(Some(10000), 10), "[██████████] 100%");
}

#[test]
fn progress_bar_clamps_and_rounds() {
    assert_eq!(Format::progress_bar(None, 4), "[░░░░] 0%");
    assert_eq!(Format::progress_bar(Some(-500), 4), "[░░░░] 0%");
    assert_eq!(Format::progress_bar(Some(25000), 4), "[████] 100%");
    assert_eq!(Format::progress_bar(Some(1250), 4), "[█░░░] 12%");
    assert_eq!(Format::progress_bar(Some(1350), 4), "[█░░░] 14%");
    assert_eq!(Format::progress_bar(Some(1251), 4), "[█░░░] 13%");
    assert_eq!(Format::progress_bar(Some(3333), 3), "[█░░] 33%");
    assert_eq!(Format::progress_bar(Some(5000), 0), "[] 50%");
}

#[test]
fn progress_bar_width_is_exact() {
    for pct in [None, Some(-1), Some(0), Some(4999), Some(5000), Some(9999), Some(10000), Some(20000)] {
        for width in 0..25usize {
            let bar = Format::progress_bar(pct, width);
            let inner: String = bar.chars().skip(1).take_while(|c| *c != ']').collect();
            assert_eq!(inner.chars().count(), width);
        }
    }
}

#[test]
fn reset_time_countdowns() {
    // 13:05:07 UTC on 1970-01-02
    let reset: i64 = (86400 + 13 * 3600 + 5 * 60 + 7) * 1000;
    assert_eq!(Format::format_reset_time_at(reset, reset - 45_000, 0), "Resets: 13:05:07 (in 45s)");
    assert_eq!(Format::format_reset_time_at(reset, reset - 90_000, 0), "Resets: 13:05:07 (in 1m 30s)");
    assert_eq!(Format::format_reset_time_at(reset, reset - 7_500_000, 0), "Resets: 13:05:07 (in 2h 5m)");
    assert_eq!(Format::format_reset_time_at(reset, reset, 0), "Resets: 13:05:07 (passed)");
    assert_eq!(Format::format_reset_time_at(reset + 999, reset, 3600), "Resets: 14:05:07 (passed)");
    assert_eq!(Format::format_reset_time_at(0, 0, -3600), "Resets: 23:00:00 (passed)");
}

#[test]
fn limit_lines_with_details_and_reset() {
    let mut l = limit("TOKENS_LIMIT");
    l.usage_details = vec![
        UsageDetail { model_code: Some("glm-4.6".to_string()), usage: Some(12345) },
        UsageDetail { model_code: None, usage: None },
    ];
    let lines = Format::format_limit_with(&l, Some("Resets: 01:02:03 (passed)".to_string()));
    assert_eq!(
        lines,
        vec![
            "TOKENS_LIMIT: 250 000/1 000 000 [█████░░░░░░░░░░░░░░░] 25% (5)".to_string(),
            "    Remaining: 750 000".to_string(),
            "    Resets: 01:02:03 (passed)".to_string(),
            "    Details:".to_string(),
            "      - glm-4.6: 12 345".to_string(),
            "      - unknown: N/A".to_string(),
        ]
    );
}

#[test]
fn limit_lines_absent_values_render_na() {
    let l = Limit {
        limit_type: "TIME_LIMIT".to_string(),
        usage: None,
        current_value: None,
        remaining: None,
        percentage: None,
        unit: None,
        number: None,
        usage_details: vec![],
        next_reset_time: None,
    };
    let lines = Format::format_limit(&l);
    assert_eq!(
        lines,
        vec![
            "TIME_LIMIT: N/A/N/A [░░░░░░░░░░░░░░░░░░░░] 0% (N/A)".to_string(),
            "    Remaining: N/A".to_string(),
        ]
    );
}

#[test]
fn limit_lines_show_reset_from_clock() {
    let mut l = limit("TOKENS_LIMIT");
    l.next_reset_time = Some(4_102_444_800_000); // year 2100
    let lines = Format::format_limit(&l);
    assert_eq!(lines.len(), 3);
    assert!(lines[2].starts_with("    Resets: "));
    assert!(lines[2].contains("(in "));
    let mut past = limit("TOKENS_LIMIT");
    past.next_reset_time = Some(1000);
    let lines = Format::format_limit(&past);
    assert!(lines[2].ends_with("(passed)"));
}

#[test]
fn limit_lines_skip_unrepresentable_reset() {
    let mut l = limit("TOKENS_LIMIT");
    l.next_reset_time = Some(i64::MAX);
    assert_eq!(Format::format_limit(&l).len(), 2);
}

#[test]
fn grouped_text_strips_back_to_decimal() {
    for v in [0i64, 7, -7, 12, 123, -123, 1234, -1234, 12345, 123456, -1234567, i64::MAX, i64::MIN] {
        let text = Format::format_int(Some(v));
        assert_eq!(text.replace(' ', ""), v.to_string());
        assert!(!text.contains("  "));
        assert!(!text.starts_with(' ') && !text.ends_with(' '));
    }
}
