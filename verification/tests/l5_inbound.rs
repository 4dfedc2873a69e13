//! The inbound side without a server: the door, the routes and the answer
//! a sender gets.

use http_switchboard::adapters::{DeliverError, Outcome};
use http_switchboard::config::{self, Config};
use http_switchboard::inbound::{
    after_delivery, answer, answer_for, constant_time_eq, door_refusal, profile_result, ProfileResult, door_open, failure_text, routes, NOT_DELIVERED_REMEDY,
};
use http_switchboard::pump::Health;
use http_switchboard::secret::Secret;

fn no_env() -> config::EnvLookup {
    config::EnvLookup::new(Vec::new())
}

fn load(text: &str) -> Config {
    match config::load("t.toml", text, &no_env()) {
        Ok(cfg) => cfg,
        Err(e) => panic!("this config should load: {}", e.to_string()),
    }
}

#[test]
fn k10_profiles_sharing_a_path_must_agree_on_the_token() {
    // One path is one door: the check happens once per request, so two
    // different expectations behind it would half-deliver.
    let text = r#"
[[profiles]]
name = "a"
from = { http_path = "/hook" }
to = { url = "http://127.0.0.1:1/x" }
content_type = "application/json"
inbound_token = "one"
body = "{}"

[[profiles]]
name = "b"
from = { http_path = "/hook" }
to = { url = "http://127.0.0.1:1/y" }
content_type = "application/json"
inbound_token = "two"
body = "{}"
"#;
    let err = match config::load("t.toml", text, &no_env()) {
        Ok(_) => panic!("two tokens on one path must be refused"),
        Err(e) => e.to_string(),
    };
    assert!(err.contains("What now:"), "no remedy: {err}");
    assert!(err.contains("/hook"), "{err}");
    assert!(
        !err.contains("one") || !err.contains("two"),
        "tokens must not be echoed: {err}"
    );
}

#[test]
fn an_unguarded_path_is_open_to_anyone() {
    assert!(door_open(&None, None));
    assert!(door_open(&None, Some("Bearer whatever")));
}

#[test]
fn without_the_token_the_door_stays_shut() {
    let expected = Some(Secret::new("let-me-in"));
    assert!(!door_open(&expected, None));
    assert!(!door_open(&expected, Some("Bearer wrong")));
    assert!(!door_open(&expected, Some("let-me-in")), "the Bearer prefix is required");
    assert!(!door_open(&expected, Some("Bearer let-me-in ")));
    assert!(!door_open(&expected, Some("bearer let-me-in")));
    assert!(door_open(&expected, Some("Bearer let-me-in")));
}

#[test]
fn the_comparison_is_exact() {
    assert!(constant_time_eq(b"", b""));
    assert!(constant_time_eq(b"abc", b"abc"));
    assert!(!constant_time_eq(b"abc", b"abd"));
    assert!(!constant_time_eq(b"abc", b"ab"));
}

#[test]
fn a_sender_is_told_200_only_when_every_profile_delivered() {
    let (status, body) = answer(&vec![]);
    assert_eq!(status, 200);
    assert_eq!(body, "delivered\n");

    let failures = vec!["profile 'a': broke".to_string(), "profile 'b': also".to_string()];
    let (status, body) = answer(&failures);
    assert_eq!(status, 502);
    assert_eq!(
        body,
        format!("not delivered.\nprofile 'a': broke\nprofile 'b': also{NOT_DELIVERED_REMEDY}")
    );
    assert!(body.contains("What now:"));
}

#[test]
fn a_failed_delivery_is_listed_under_its_profile() {
    let e = DeliverError::Status {
        status: 500,
        advice: "try later".to_string(),
    };
    assert_eq!(
        failure_text("hook", &e),
        "profile 'hook': the destination refused the message with status 500. What now: try later"
    );
}

#[test]
fn every_path_gets_one_route_with_every_profile_behind_it() {
    let cfg = load(
        r#"
[kyu]
base_url = "http://127.0.0.1:8080"

[[profiles]]
name = "a"
from = { http_path = "/hook" }
to = { url = "http://127.0.0.1:1/x" }
content_type = "application/json"
body = "{}"

[[profiles]]
name = "pumped"
from = { kyu_topic = "alerts.raw" }
to = { url = "http://127.0.0.1:1/y" }
content_type = "application/json"
body = "{}"

[[profiles]]
name = "b"
from = { http_path = "/other" }
to = { url = "http://127.0.0.1:1/z" }
content_type = "application/json"
body = "{}"

[[profiles]]
name = "c"
from = { http_path = "/hook" }
to = { url = "http://127.0.0.1:1/w" }
content_type = "application/json"
body = "{}"
"#,
    );
    assert_eq!(cfg.to_string(), "4 profile(s)");
    let r = routes(&cfg);
    assert_eq!(
        r,
        vec![
            ("/hook".to_string(), vec![0usize, 3]),
            ("/other".to_string(), vec![2usize]),
        ]
    );
}

#[test]
fn a_delivery_sets_its_profile_working_and_a_failure_failing() {
    assert_eq!(after_delivery(true), (Health::Working, "back to normal"));
    assert_eq!(after_delivery(false), (Health::Failing, "deliveries are failing"));
}

#[test]
fn a_shut_door_answers_401() {
    let expected = Some(Secret::new("let-me-in"));
    let refusal = door_refusal(&expected, Some("Bearer wrong")).expect("the door is shut");
    assert_eq!(refusal.0, 401);
    assert!(refusal.1.contains("What now:"));
    assert!(!refusal.1.contains("let-me-in"), "the token never appears in an answer");
    assert!(door_refusal(&expected, Some("Bearer let-me-in")).is_none());
    assert!(door_refusal(&None, None).is_none());
}

#[test]
fn a_path_answers_200_only_when_every_profile_delivered() {
    let delivered = profile_result("a", &Ok(Outcome { attempts: 2, result: Ok(()) }));
    assert!(matches!(delivered, ProfileResult::Delivered { attempts: 2 }));
    let refused = profile_result(
        "b",
        &Ok(Outcome {
            attempts: 3,
            result: Err(DeliverError::Status { status: 500, advice: "later".into() }),
        }),
    );
    match &refused {
        ProfileResult::Failed { attempts, reason } => {
            assert_eq!(*attempts, 3);
            assert_eq!(
                reason,
                "profile 'b': the destination refused the message with status 500. What now: later"
            );
        }
        _ => panic!("a refused delivery is a failure"),
    }
    let (status, body) = answer_for(&vec![delivered]);
    assert_eq!((status, body.as_str()), (200, "delivered\n"));
    let again = profile_result("a", &Ok(Outcome { attempts: 1, result: Ok(()) }));
    let (status, body) = answer_for(&vec![again, refused]);
    assert_eq!(status, 502);
    assert!(body.contains("profile 'b'"), "{body}");
    assert!(!body.contains("profile 'a'"), "{body}");
}
