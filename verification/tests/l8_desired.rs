//! Templated destinations: a path segment may come from the message, the
//! rest of the address may not.

use http_switchboard::config::{self, Profile};
use http_switchboard::translate::{self, Delivery, RenderError, Target};

fn no_env() -> config::EnvLookup {
    config::EnvLookup::new(Vec::new())
}

fn load_first(text: &str) -> Profile {
    match config::load("t.toml", text, &no_env()) {
        Ok(mut cfg) => cfg.profiles.remove(0),
        Err(e) => panic!("test profile must load: {}", e.to_string()),
    }
}

fn profile(to: &str) -> Profile {
    load_first(&format!(
        r#"
[[profiles]]
name = "t"
from = {{ http_path = "/t" }}
to = {to}
content_type = "application/json"
body = '''{{"ok": true}}'''
"#
    ))
}

fn profile_with_method(to: &str, method: &str) -> Profile {
    load_first(&format!(
        r#"
[[profiles]]
name = "t"
from = {{ http_path = "/t" }}
to = {to}
method = "{method}"
content_type = "application/json"
body = '''{{"ok": true}}'''
"#
    ))
}

fn rendered(r: Result<Delivery, RenderError>) -> Delivery {
    match r {
        Ok(d) => d,
        Err(e) => panic!("should render: {}", e.to_string()),
    }
}

fn refused(r: Result<Delivery, RenderError>) -> RenderError {
    match r {
        Ok(d) => panic!("expected a refusal, got the body {}", d.body),
        Err(e) => e,
    }
}

#[test]
fn k7_a_path_segment_may_come_from_the_message() {
    let p = profile_with_method(
        r#"{ url = "http://127.0.0.1:9/devices/{{ id }}/state" }"#,
        "PUT",
    );
    let delivery = rendered(translate::prepare(&p, br#"{"id": "kitchen-lamp"}"#));

    assert_eq!(
        delivery.target,
        Target::Url {
            url: "http://127.0.0.1:9/devices/kitchen-lamp/state".into(),
            method: "PUT".into()
        }
    );
}

#[test]
fn k7_a_value_cannot_add_a_path_segment_or_leave_the_host() {
    // Every interpolated value is percent-encoded, so a slash, a traversal
    // or a whole URL in the message stays one segment's worth of text.
    let p = profile(r#"{ url = "http://127.0.0.1:9/devices/{{ id }}/state" }"#);

    for (payload, must_not_contain) in [
        (&br#"{"id": "a/b"}"#[..], "/a/b/"),
        (&br#"{"id": "http://evil.example/x"}"#[..], "evil.example/x"),
    ] {
        let delivery = rendered(translate::prepare(&p, payload));
        let Target::Url { url, .. } = &delivery.target else {
            panic!("expected a URL target");
        };
        assert!(
            url.starts_with("http://127.0.0.1:9/devices/"),
            "the address moved: {url}"
        );
        assert!(
            !url.contains(must_not_contain),
            "a value escaped its segment: {url}"
        );
    }

    // A traversal is refused outright rather than encoded and hoped
    // about: %2F decoding differs between servers, so fail closed.
    let e = refused(translate::prepare(&p, br#"{"id": "../../admin"}"#));
    let message = e.to_string();
    assert!(message.contains("What now:"), "no remedy: {message}");
}

#[test]
fn k7_a_templated_host_is_refused() {
    let p = profile(r#"{ url = "http://{{ host }}/x" }"#);
    let e = refused(translate::prepare(&p, br#"{"host": "evil.example"}"#));
    let message = e.to_string();
    assert!(message.contains("What now:"), "no remedy: {message}");
    assert!(message.contains("host"), "{message}");
}

#[test]
fn k7_awkward_values_in_a_templated_path_stay_one_segment() {
    let p = profile(r#"{ url = "http://127.0.0.1:9/devices/{{ id }}/state" }"#);

    let empty = rendered(translate::prepare(&p, br#"{"id": ""}"#));
    let Target::Url { url, .. } = &empty.target else {
        panic!("expected a URL target")
    };
    assert_eq!(
        url, "http://127.0.0.1:9/devices//state",
        "an empty value must not silently vanish into the path"
    );

    for payload in [
        &br#"{"id": {"a": 1}}"#[..],
        &br#"{"id": [1, 2]}"#[..],
        &br#"{"id": "line\r\nInjected: header"}"#[..],
        &br#"{"id": "?query=1"}"#[..],
        &br##"{"id": "#fragment"}"##[..],
    ] {
        let d = rendered(translate::prepare(&p, payload));
        let Target::Url { url, .. } = &d.target else {
            panic!("expected a URL target")
        };
        assert!(
            url.starts_with("http://127.0.0.1:9/devices/") && url.ends_with("/state"),
            "the shape of the address must survive: {url}"
        );
        for forbidden in ['\r', '\n', '?', '#'] {
            assert!(
                !url.contains(forbidden),
                "{forbidden:?} must be encoded, not passed through: {url}"
            );
        }
    }
}

#[test]
fn a_kyu_destination_is_a_topic_and_never_rendered() {
    let text = r#"
[kyu]
base_url = "http://127.0.0.1:8080"

[[profiles]]
name = "t"
from = { http_path = "/t" }
to = { kyu_topic = "alerts.homelab" }
content_type = "application/json"
body = '''{"ok": true}'''
"#;
    let p = load_first(text);
    let d = rendered(translate::prepare(&p, br#"{"topic": "elsewhere"}"#));
    assert_eq!(d.target, Target::KyuTopic { topic: "alerts.homelab".into() });
}
