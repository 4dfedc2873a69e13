//! The registry behind `/healthz` and `/metrics`, and the log lines.

use http_switchboard::obs::{
    message_line, message_line_at, report_event, transition_line, transition_line_at, warn_line,
    warn_line_at, ProfileSubsystem, Registry,
};
use http_switchboard::pump::Health;

#[test]
fn w5_a_denied_profile_makes_the_service_report_degraded() {
    let mut registry = Registry::new();
    registry.register("a");
    registry.set_health("a", Health::Working);
    let (healthy, body) = registry.healthz();
    assert!(healthy, "{body}");
    assert!(body.contains(r#""state":"working""#), "{body}");

    registry.set_health("a", Health::Denied);
    let (healthy, body) = registry.healthz();
    assert!(
        !healthy,
        "a denied profile must not be reported as healthy: {body}"
    );
    assert!(body.contains("degraded"), "{body}");
    assert!(body.contains(r#""state":"denied""#), "{body}");
}

#[test]
fn w6_the_counters_and_the_duration_move_as_expected() {
    let mut registry = Registry::new();
    registry.record("a", true, 12);
    registry.record("a", false, 30);
    let text = registry.metrics();
    assert!(
        text.contains(r#"switchboard_messages_received_total{profile="a"} 2"#),
        "{text}"
    );
    assert!(
        text.contains(r#"switchboard_messages_delivered_total{profile="a"} 1"#),
        "{text}"
    );
    assert!(
        text.contains(r#"switchboard_messages_failed_total{profile="a"} 1"#),
        "{text}"
    );
    assert!(
        text.contains(r#"switchboard_delivery_duration_ms_total{profile="a"} 42"#),
        "the duration W6 asks for is missing: {text}"
    );
}

#[test]
fn w7_every_log_line_is_valid_json_with_the_fixed_fields() {
    // A line that its own data can break is a line you cannot query, so
    // the awkward cases are in here on purpose.
    for (profile, detail) in [
        ("alertmanager", "plain"),
        (r#"quote"and\backslash"#, "line\nbreak and \"quotes\""),
    ] {
        let line = message_line(profile, "kyu", "delivered", 12, 2);
        let parsed: serde_json::Value =
            serde_json::from_str(&line).unwrap_or_else(|e| panic!("not JSON: {line} ({e})"));
        assert_eq!(parsed["profile"], profile);
        assert_eq!(parsed["outcome"], "delivered");
        assert_eq!(parsed["duration_ms"], 12);
        assert_eq!(parsed["attempts"], 2);
        assert!(parsed["ts"].is_number());

        let line = transition_line(profile, Health::Working, Health::Denied, detail);
        let parsed: serde_json::Value =
            serde_json::from_str(&line).unwrap_or_else(|e| panic!("not JSON: {line} ({e})"));
        assert_eq!(parsed["from"], "Working");
        assert_eq!(parsed["to"], "Denied");
        assert_eq!(parsed["detail"], detail);
    }
}

#[test]
fn w7_a_warning_is_not_dressed_up_as_a_state_change() {
    // A failed self-report must not be logged as a transition that never
    // happened.
    let line = warn_line("p", "self_report_failed", "the hub refused");
    let parsed: serde_json::Value = serde_json::from_str(&line).expect("valid JSON");
    assert_eq!(parsed["event"], "self_report_failed");
    assert!(
        parsed.get("from").is_none(),
        "no invented transition: {line}"
    );
    assert!(parsed.get("to").is_none(), "no invented transition: {line}");
}

#[test]
fn w7_a_health_body_carries_names_and_never_content() {
    let mut registry = Registry::new();
    registry.register("alertmanager");
    registry.record("alertmanager", true, 5);
    let (_, body) = registry.healthz();
    let parsed: serde_json::Value = serde_json::from_str(&body).expect("valid JSON");
    assert_eq!(parsed["profiles"][0]["name"], "alertmanager");
    assert!(parsed["profiles"][0]["last_success_age_s"].is_number());
}

// ── exact shapes ───────────────────────────────────────────────────────

#[test]
fn a_fresh_registry_is_healthy_and_lists_nothing() {
    let registry = Registry::new();
    let (healthy, body) = registry.healthz_at(100);
    assert!(healthy);
    assert_eq!(body, r#"{"status":"ok","profiles":[]}"#);
}

#[test]
fn the_health_body_lists_profiles_in_name_order_with_their_age() {
    let mut registry = Registry::new();
    registry.register("b");
    registry.record_at("a", true, 5, 90);
    registry.set_health("a", Health::Working);
    let (healthy, body) = registry.healthz_at(100);
    assert!(healthy, "{body}");
    let parsed: serde_json::Value = serde_json::from_str(&body).expect("valid JSON");
    assert_eq!(parsed["status"], "ok");
    assert_eq!(parsed["profiles"][0]["name"], "a");
    assert_eq!(parsed["profiles"][0]["state"], "working");
    assert_eq!(parsed["profiles"][0]["last_success_age_s"], 10);
    assert_eq!(parsed["profiles"][1]["name"], "b");
    assert!(parsed["profiles"][1]["last_success_age_s"].is_null());
}

#[test]
fn a_failing_or_unreachable_hub_makes_the_service_degraded() {
    for bad in [Health::Failing, Health::HubDown, Health::Denied] {
        let mut registry = Registry::new();
        registry.set_health("x", bad);
        let (healthy, body) = registry.healthz_at(1);
        assert!(!healthy, "{body}");
        assert!(body.contains(r#""status":"degraded""#), "{body}");
    }
    let mut registry = Registry::new();
    registry.set_health("x", Health::Starting);
    assert!(registry.healthz_at(1).0);
}

#[test]
fn recording_registers_and_counts() {
    let mut registry = Registry::new();
    assert!(registry.can_record("a", 7));
    registry.record_at("a", false, 7, 3);
    let snapshot = registry.snapshot();
    assert_eq!(snapshot.len(), 1);
    assert_eq!(snapshot[0].0, "a");
    let s = snapshot[0].1;
    assert_eq!((s.received, s.delivered, s.failed, s.duration_ms_total), (1, 0, 1, 7));
    assert_eq!(s.last_success_unix, None);
    assert_eq!(registry.health_of("a"), None);
    assert_eq!(registry.health_of("nobody"), None);
    assert!(!registry.can_record("a", u64::MAX));
}

#[test]
fn the_metrics_text_carries_help_type_and_one_line_per_profile() {
    let mut registry = Registry::new();
    registry.record_at("b", true, 3, 1);
    registry.record_at("a", true, 4, 1);
    let text = registry.metrics();
    assert!(text.starts_with("# HELP switchboard_messages_received_total"), "{text}");
    assert!(text.contains("# TYPE switchboard_messages_received_total counter\n"), "{text}");
    let a = text.find(r#"switchboard_messages_received_total{profile="a"} 1"#).unwrap();
    let b = text.find(r#"switchboard_messages_received_total{profile="b"} 1"#).unwrap();
    assert!(a < b, "profiles come in name order: {text}");
}

#[test]
fn resetting_health_puts_every_profile_back_to_starting() {
    let mut registry = Registry::new();
    registry.set_health("a", Health::Failing);
    registry.set_health("b", Health::Working);
    assert_eq!(registry.reset_health(), 2);
    assert_eq!(registry.health_of("a"), Some(Health::Starting));
    assert_eq!(registry.health_of("b"), Some(Health::Starting));
    assert!(registry.healthz_at(5).0);
}

#[test]
fn the_log_lines_have_their_exact_shape() {
    assert_eq!(
        message_line_at(7, "p", "http", "failed", 12, 3),
        r#"{"ts":7,"level":"info","profile":"p","source":"http","outcome":"failed","duration_ms":12,"attempts":3}"#
    );
    assert_eq!(
        warn_line_at(8, "p", "self_report_failed", "x"),
        r#"{"ts":8,"level":"warn","profile":"p","event":"self_report_failed","detail":"x"}"#
    );
    assert_eq!(
        transition_line_at(9, "p", Health::Failing, Health::Working, "back"),
        r#"{"ts":9,"level":"warn","profile":"p","event":"state_change","from":"Failing","to":"Working","detail":"back"}"#
    );
}

#[test]
fn a_subsystem_reports_the_state_of_its_profile() {
    let mut registry = Registry::new();
    let sub = ProfileSubsystem::new("a");
    assert_eq!(sub.name, "a");
    let (ok, _) = sub.check(&registry);
    assert!(ok, "a profile nobody heard of yet is still starting");
    registry.set_health("a", Health::Failing);
    let (ok, _) = sub.check(&registry);
    assert!(!ok);
    registry.set_health("a", Health::Working);
    assert!(sub.check(&registry).0);
}

#[test]
fn a_state_change_is_reported_once_and_a_repeat_not_at_all() {
    let failing = report_event("p", Health::Working, Health::Failing, "deliveries are failing")
        .expect("a failure is reported");
    let parsed: serde_json::Value = serde_json::from_str(&failing).expect("valid JSON");
    assert_eq!(parsed["event"], "profile.failing");
    assert_eq!(parsed["profile"], "p");
    assert_eq!(parsed["detail"], "deliveries are failing");

    let recovered = report_event("p", Health::Failing, Health::Working, "back to normal")
        .expect("a recovery is reported");
    let parsed: serde_json::Value = serde_json::from_str(&recovered).expect("valid JSON");
    assert_eq!(parsed["event"], "profile.recovered");

    assert!(report_event("p", Health::Failing, Health::Failing, "again").is_none());
    assert!(report_event("p", Health::Working, Health::Working, "again").is_none());
    assert!(report_event("p", Health::Starting, Health::Working, "first").is_none());
}

#[test]
fn registering_twice_keeps_the_counters() {
    let mut registry = Registry::new();
    registry.record_at("a", true, 5, 1);
    registry.set_health("a", Health::Working);
    registry.register("a");
    registry.register("b");
    registry.register("b");
    let snapshot = registry.snapshot();
    assert_eq!(snapshot.len(), 2);
    assert_eq!(snapshot[0].1.received, 1);
    assert_eq!(snapshot[0].1.health, Some(Health::Working));
    assert_eq!(snapshot[1].0, "b");
}

#[test]
fn a_quoted_value_is_escaped_as_json_needs_it() {
    let quoted = http_switchboard::text::json_quote("a\"b\\c\n\t\u{1}\u{1f}é/");
    assert_eq!(quoted, "\"a\\\"b\\\\c\\n\\t\\u0001\\u001fé/\"");
    assert_eq!(http_switchboard::text::json_quote(""), "\"\"");
}
