//! The translation core: everything here runs without a server, a hub or
//! a clock.

use http_switchboard::config::{self, Profile};
use http_switchboard::translate::{self, Delivery, RenderError, Target};


fn profile_with(body: &str, content_type: &str) -> Profile {
    let text = format!(
        r#"
[[profiles]]
name = "t"
from = {{ http_path = "/t" }}
to = {{ url = "http://127.0.0.1:9/hook" }}
content_type = "{content_type}"
body = '''{body}'''
"#
    );
    match config::load("t.toml", &text, &config::EnvLookup::new(Vec::new())) {
        Ok(mut cfg) => cfg.profiles.remove(0),
        Err(e) => panic!("test profile must load: {}", e.to_string()),
    }
}

fn rendered(r: Result<Delivery, RenderError>) -> Delivery {
    match r {
        Ok(d) => d,
        Err(e) => panic!("should render: {}", e.to_string()),
    }
}

fn refused(r: Result<Delivery, RenderError>) -> RenderError {
    match r {
        Ok(d) => panic!("expected a refusal, got the body {}", d.body),
        Err(e) => e,
    }
}

#[test]
fn k5_field_access_defaults_arithmetic_and_conditionals() {
    let payload = br#"{"bytes": 1073741824, "sev": "critical", "labels": {"name": "disk"}}"#;

    let p = profile_with(
        r#"{"gb": {{ (bytes | float / 1073741824) | round(2) }}}"#,
        "application/json",
    );
    assert_eq!(rendered(translate::prepare(&p, payload)).body, r#"{"gb": 1.0}"#);

    let p = profile_with(r#"{"n": {{ labels.name }}}"#, "application/json");
    assert_eq!(rendered(translate::prepare(&p, payload)).body, r#"{"n": "disk"}"#);

    let p = profile_with(
        r#"{"m": {{ missing | default("none") }}}"#,
        "application/json",
    );
    assert_eq!(rendered(translate::prepare(&p, payload)).body, r#"{"m": "none"}"#);

    let p = profile_with(
        r#"{"p": {{ "high" if sev == "critical" else "low" }}}"#,
        "application/json",
    );
    assert_eq!(rendered(translate::prepare(&p, payload)).body, r#"{"p": "high"}"#);
}

#[test]
fn ar7_a_quote_in_an_alert_summary_cannot_rewrite_the_document() {
    // An exporter's free-text annotation that tries to add a field of its
    // own. Escaping is done by the engine, so this is structure, not
    // discipline.
    let hostile = br#"{"alerts":[{"status":"firing","labels":{"alertname":"X","severity":"critical"},"annotations":{"summary":"disk full\", \"severity\": \"info"}}]}"#;

    let p = profile_with(
        r#"{"summary": {{ alerts.0.annotations.summary }}, "severity": {{ alerts.0.labels.severity }}}"#,
        "application/json",
    );
    let body = rendered(translate::prepare(&p, hostile)).body;
    let parsed: serde_json::Value = serde_json::from_str(&body).unwrap();

    assert_eq!(
        parsed["severity"], "critical",
        "the sender must not pick the severity: {body}"
    );
    assert_eq!(
        parsed["summary"], "disk full\", \"severity\": \"info",
        "the text must survive intact, as text"
    );
    assert_eq!(
        parsed.as_object().unwrap().len(),
        2,
        "no field was smuggled in: {body}"
    );
}

#[test]
fn ar7_a_missing_field_is_an_error_with_a_remedy_not_an_empty_value() {
    // A renamed field must not render empty while every layer reports
    // success.
    let p = profile_with(
        r#"{"a": {{ alerts.0.labels.alertname }}}"#,
        "application/json",
    );
    let e = refused(translate::prepare(&p, br#"{"alerts":[{"labels":{}}]}"#));
    let message = e.to_string();
    assert!(message.contains("What now:"), "no remedy: {message}");
    assert!(message.contains('t'), "the profile is named: {message}");
}

#[test]
fn ar7_a_rendered_body_that_is_not_valid_json_is_refused_before_it_is_sent() {
    let p = profile_with(r#"{"a": {{ x }} "#, "application/json");
    let e = refused(translate::prepare(&p, br#"{"x": 1}"#));
    let message = e.to_string();
    assert!(message.contains("valid JSON"), "{message}");
    assert!(message.contains("What now:"), "no remedy: {message}");
}

#[test]
fn ar8_a_payload_that_is_not_json_is_an_error_with_a_remedy() {
    // curl -d sends form encoding by default. Better a per-message error
    // than a template that reads nothing and renders empty.
    let p = profile_with(r#"{"a": {{ x }}}"#, "application/json");
    let e = refused(translate::prepare(&p, b"x=1&y=2"));
    let message = e.to_string();
    assert!(message.contains("not JSON"), "{message}");
    assert!(message.contains("What now:"), "no remedy: {message}");
}

#[test]
fn k14_no_payload_can_change_where_its_translation_goes() {
    // The destination is copied from the profile and never rendered, so
    // this holds by construction; the test keeps it that way.
    let hostiles: [&[u8]; 6] = [
        br#"{"url": "http://evil.example/steal", "x": 1}"#,
        br#"{"host": "10.10.10.4", "x": 1}"#,
        br#"{"x": "http://user@evil.example/"}"#,
        br#"{"x": "../../admin"}"#,
        br#"{"x": "javascript:alert(1)"}"#,
        br#"{"x": "http://127.0.0.1:8080/t/kyu.events"}"#,
    ];
    for payload in hostiles {
        let p = profile_with(r#"{"x": {{ x | default("-") }}}"#, "application/json");
        let delivery = rendered(translate::prepare(&p, payload));
        assert_eq!(
            delivery.target,
            Target::Url {
                url: "http://127.0.0.1:9/hook".into(),
                method: "POST".into()
            },
            "the destination moved for payload {:?}",
            String::from_utf8_lossy(payload)
        );
    }
}

#[test]
fn k14_a_non_json_profile_still_escapes_nothing_and_stays_on_target() {
    let p = profile_with("{{ x }}", "text/plain");
    let d = rendered(translate::prepare(&p, br#"{"x": "plain <b> text"}"#));
    assert_eq!(d.body, "plain <b> text");
    assert_eq!(d.content_type, "text/plain");
}

// ── the pieces, on exact values ────────────────────────────────────────

#[test]
fn a_json_content_type_is_recognised_with_or_without_parameters() {
    assert!(translate::is_json_exec("application/json"));
    assert!(translate::is_json_exec("application/json; charset=utf-8"));
    assert!(translate::is_json_exec("application/problem+json"));
    assert!(!translate::is_json_exec("text/plain"));
}

#[test]
fn a_quoted_template_value_is_refused_for_json_only() {
    match translate::check_template(r#"{"a": "{{ x }}"}"#, "application/json") {
        Err(m) => assert!(m.contains("What now:") || m.contains("quotes"), "{m}"),
        Ok(()) => panic!("a quoted value in a JSON template must be refused"),
    }
    assert!(translate::check_template(r#"{"a": {{ x }}}"#, "application/json").is_ok());
    assert!(translate::check_template(r#"say "{{ x }}""#, "text/plain").is_ok());
}

#[test]
fn percent_encoding_leaves_unreserved_bytes_and_encodes_the_rest() {
    assert_eq!(translate::percent_encode("kitchen-lamp_1.2~x"), "kitchen-lamp_1.2~x");
    assert_eq!(translate::percent_encode("a/b"), "a%2Fb");
    assert_eq!(translate::percent_encode("?q=1#f"), "%3Fq%3D1%23f");
    assert_eq!(translate::percent_encode("\r\n"), "%0D%0A");
    assert_eq!(translate::percent_encode("é"), "%C3%A9");
    assert_eq!(translate::percent_encode(""), "");
}

#[test]
fn prepare_value_reads_a_json_document_and_refuses_anything_else() {
    let p = profile_with(r#"{"n": {{ n }}}"#, "application/json");
    assert_eq!(rendered(translate::prepare_value(&p, br#"{"n": 3}"#)).body, r#"{"n": 3}"#);
    let e = refused(translate::prepare(&p, b"not json"));
    assert!(matches!(e, RenderError::PayloadNotJson { .. }), "{:?}", e);
}

#[test]
fn an_error_chain_reads_as_one_line() {
    assert_eq!(translate::describe(&vec![]), "");
    assert_eq!(translate::describe(&vec!["outer".into()]), "outer");
    assert_eq!(
        translate::describe(&vec!["outer".into(), "middle".into(), "root".into()]),
        "outer: middle: root"
    );
}
