//! The Profiles section of the status page.

use http_switchboard::config;
use http_switchboard::dashboard::{shorten, Profiles};
use http_switchboard::obs::Registry;
use http_switchboard::pump::Health;

fn no_env() -> config::EnvLookup {
    config::EnvLookup::new(Vec::new())
}

#[test]
fn a_destination_is_shown_without_its_path() {
    assert_eq!(
        shorten("http://10.10.10.2:8123/api/webhook/secret-id"),
        "http://10.10.10.2:8123/…"
    );
    assert_eq!(shorten("https://example.org"), "https://example.org/…");
    assert_eq!(shorten("not a url"), "not a url");
}

#[test]
fn each_profile_is_a_row_with_its_state_shape_and_counters() {
    let text = r#"
[kyu]
base_url = "http://127.0.0.1:8080"

[[profiles]]
name = "hook"
from = { http_path = "/hook" }
to = { url = "http://127.0.0.1:9/api/webhook/abc" }
content_type = "application/json"
body = "{}"

[[profiles]]
name = "pumped"
from = { kyu_topic = "alerts.raw" }
to = { kyu_topic = "alerts.homelab" }
content_type = "application/json"
body = "{}"
"#;
    let cfg = match config::load("t.toml", text, &no_env()) {
        Ok(cfg) => cfg,
        Err(e) => panic!("{}", e.to_string()),
    };
    let section = Profiles::new(&cfg);
    assert_eq!(
        section.shapes,
        vec![
            ("hook".to_string(), "POST /hook → http://127.0.0.1:9/…".to_string()),
            ("pumped".to_string(), "kyu topic alerts.raw → kyu topic alerts.homelab".to_string()),
        ]
    );

    let mut registry = Registry::new();
    registry.record_at("hook", true, 3, 1);
    registry.record_at("hook", false, 3, 2);
    registry.set_health("hook", Health::Failing);
    let rows = section.rows(&registry);
    assert_eq!(
        rows,
        vec![
            (
                "hook".to_string(),
                "failing · POST /hook → http://127.0.0.1:9/… · 1 delivered, 1 failed".to_string()
            ),
            (
                "pumped".to_string(),
                "starting · kyu topic alerts.raw → kyu topic alerts.homelab · 0 delivered, 0 failed"
                    .to_string()
            ),
        ]
    );
}

#[test]
fn recheck_clears_a_failure_a_profile_can_no_longer_clear_itself() {
    let mut registry = Registry::new();
    registry.set_health("hook", Health::Failing);
    registry.set_health("other", Health::Working);
    assert!(!registry.healthz_at(1).0);
    let (detail, body) = http_switchboard::dashboard::recheck(&mut registry);
    assert_eq!(
        detail,
        "an operator reset the remembered health of 2 profile(s) from the dashboard"
    );
    assert_eq!(body, r#"{"rechecked":2}"#);
    assert!(registry.healthz_at(1).0, "after the recheck the stale failure is gone");
    assert_eq!(registry.health_of("hook"), Some(Health::Starting));
}
