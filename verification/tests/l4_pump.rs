//! A pump turn, driven by hand: the decisions without a hub or a clock.

use http_switchboard::adapters::{DeliverError, Outcome};
use http_switchboard::config::{self, Profile};
use http_switchboard::pump::{
    advance, followup, poll_status, Action, Event, Health, HubError, HubMessage, Poll, PumpState, Step, Turn,
    DENIED_TEXT, HUB_DOWN_PAUSE_MS, IDLE_PAUSE_MS, NOT_JSON_REASON,
};

fn no_env() -> config::EnvLookup {
    config::EnvLookup::new(Vec::new())
}

fn pumped(body: &str) -> Profile {
    let text = format!(
        r#"
[kyu]
base_url = "http://127.0.0.1:8080"

[[profiles]]
name = "pumped"
from = {{ kyu_topic = "alerts.raw" }}
to = {{ url = "http://127.0.0.1:9/hook" }}
content_type = "application/json"
lease_ms = 60000
max_attempts = 4
body = '''{body}'''
"#
    );
    match config::load("t.toml", &text, &no_env()) {
        Ok(mut cfg) => cfg.profiles.remove(0),
        Err(e) => panic!("test profile must load: {}", e.to_string()),
    }
}

fn message(id: &str, payload: &str) -> Poll {
    Poll::Message(Box::new(HubMessage {
        id: id.to_string(),
        payload: payload.to_string(),
        attempt: 1,
    }))
}

/// A state whose policy is already written, so a poll goes straight to
/// the message.
fn settled() -> PumpState {
    PumpState {
        replay_next: false,
        health: Health::Working,
        policy_pushed: true,
    }
}

fn finished(r: (Turn, Action)) -> Step {
    match r {
        (Turn::Start, Action::Finish { step }) => step,
        _ => panic!("expected the turn to be over"),
    }
}

/// The profile the hub scenarios run with.
fn kyu_profile(topic: &str, to: &str, body: &str) -> Profile {
    let text = format!(
        r#"
[kyu]
base_url = "http://127.0.0.1:1"

[[profiles]]
name = "p"
subscription = "switchboard"
from = {{ kyu_topic = "{topic}" }}
to = {to}
content_type = "application/json"
retries = 0
timeout_ms = 2000
body = '''{body}'''
"#
    );
    match config::load("t.toml", &text, &no_env()) {
        Ok(mut cfg) => cfg.profiles.remove(0),
        Err(e) => panic!("test profile must load: {}", e.to_string()),
    }
}

#[test]
fn k2_a_message_is_acknowledged_only_after_it_was_delivered() {
    let p = kyu_profile("t", r#"{ url = "http://127.0.0.1:1/x" }"#, r#"{"x": {{ x }}}"#);
    let mut s = PumpState::default();
    let (t, a) = advance(&p, &mut s, Turn::Start, Event::Begin);
    assert!(matches!(a, Action::Poll { from_beginning: false }));
    let (t, a) = advance(&p, &mut s, t, Event::Polled { poll: Ok(message("m1", r#"{"x": 1}"#)) });
    assert!(matches!(a, Action::SetPolicy { .. }), "the first successful poll writes the policy");
    let (t, a) = advance(&p, &mut s, t, Event::PolicySet { ok: true });
    let Action::Deliver { delivery } = a else {
        panic!("a translated message is delivered first");
    };
    assert_eq!(delivery.body, r#"{"x": 1}"#);
    let (t, a) = advance(
        &p,
        &mut s,
        t,
        Event::Delivered { outcome: Outcome { attempts: 1, result: Ok(()) } },
    );
    assert!(matches!(&a, Action::Ack { id } if id == "m1"), "only now is it acknowledged");
    let step = finished(advance(&p, &mut s, t, Event::Acked { ok: true }));
    assert_eq!(step, Step::Delivered { id: "m1".into(), attempts: 1, ack_failed: false });
    assert_eq!(s.health, Health::Working);
}

#[test]
fn k2_a_refused_delivery_is_handed_back_and_never_acknowledged() {
    let p = pumped(r#"{"alert": {{ name }}}"#);
    let mut s = settled();
    let (t, _) = advance(&p, &mut s, Turn::Start, Event::Begin);
    let (t, _) = advance(&p, &mut s, t, Event::Polled { poll: Ok(message("m2", r#"{"name": "X"}"#)) });
    let refusal = DeliverError::Status { status: 500, advice: "later".into() };
    let (t, a) = advance(
        &p,
        &mut s,
        t,
        Event::Delivered { outcome: Outcome { attempts: 3, result: Err(refusal) } },
    );
    assert!(matches!(&a, Action::Nack { id, dead: false } if id == "m2"));
    let step = finished(advance(&p, &mut s, t, Event::Nacked));
    match step {
        Step::HandedBack { id, attempts, reason } => {
            assert_eq!(id, "m2");
            assert_eq!(attempts, 3);
            assert!(reason.contains("500"), "{reason}");
        }
        other => panic!("expected a hand-back, got {other:?}"),
    }
    assert_eq!(s.health, Health::Failing);
}

#[test]
fn an_ack_the_hub_refuses_is_asked_once_more_then_left_to_the_lease() {
    let p = pumped("{}");
    let mut s = settled();
    let (t, _) = advance(&p, &mut s, Turn::Start, Event::Begin);
    let (t, _) = advance(&p, &mut s, t, Event::Polled { poll: Ok(message("m3", "{}")) });
    let (t, _) = advance(&p, &mut s, t, Event::Delivered { outcome: Outcome { attempts: 1, result: Ok(()) } });
    let (t, a) = advance(&p, &mut s, t, Event::Acked { ok: false });
    assert!(matches!(&a, Action::Ack { id } if id == "m3"));
    let step = finished(advance(&p, &mut s, t, Event::Acked { ok: false }));
    assert_eq!(step, Step::Delivered { id: "m3".into(), attempts: 1, ack_failed: true });
}

#[test]
fn ar8_an_unknown_topic_makes_the_next_poll_ask_for_the_history() {
    let p = pumped("{}");
    let mut s = PumpState::default();
    let (t, a) = advance(&p, &mut s, Turn::Start, Event::Begin);
    assert!(matches!(a, Action::Poll { from_beginning: false }));
    let step = finished(advance(&p, &mut s, t, Event::Polled { poll: Ok(Poll::UnknownTopic) }));
    assert_eq!(step, Step::TopicMissing);
    assert!(s.replay_next);
    let (t, a) = advance(&p, &mut s, Turn::Start, Event::Begin);
    assert!(matches!(a, Action::Poll { from_beginning: true }), "the history is asked for");
    // The history is asked for once.
    let (t, _) = advance(&p, &mut s, t, Event::Polled { poll: Ok(Poll::Empty) });
    let _ = finished(advance(&p, &mut s, t, Event::PolicySet { ok: true }));
    assert!(!s.replay_next);
}

#[test]
fn ar8_a_refused_token_is_its_own_state_not_a_hub_outage() {
    let p = pumped("{}");
    let mut s = settled();
    let (t, _) = advance(&p, &mut s, Turn::Start, Event::Begin);
    let step = finished(advance(&p, &mut s, t, Event::Polled { poll: Err(HubError::Denied) }));
    assert_eq!(step, Step::Denied { detail: DENIED_TEXT.into() });
    assert_eq!(s.health, Health::Denied);
}

#[test]
fn ar8_an_unreachable_hub_is_a_state_the_pump_survives() {
    let p = pumped("{}");
    let mut s = settled();
    let (t, _) = advance(&p, &mut s, Turn::Start, Event::Begin);
    let step = finished(advance(
        &p,
        &mut s,
        t,
        Event::Polled { poll: Err(HubError::Unreachable { detail: "connection refused".into() }) },
    ));
    match step {
        Step::HubDown { detail } => assert!(detail.contains("connection refused"), "{detail}"),
        other => panic!("expected the hub to be down, got {other:?}"),
    }
    assert_eq!(s.health, Health::HubDown);
    // The next idle poll brings the profile back.
    let (t, _) = advance(&p, &mut s, Turn::Start, Event::Begin);
    let step = finished(advance(&p, &mut s, t, Event::Polled { poll: Ok(Poll::Empty) }));
    assert_eq!(step, Step::Idle);
    assert_eq!(s.health, Health::Working);
}

#[test]
fn ar7_a_message_that_can_never_render_is_dead_lettered_not_looped() {
    let p = pumped(r#"{"a": {{ alerts.0.labels.alertname }}}"#);
    let mut s = settled();
    let (t, _) = advance(&p, &mut s, Turn::Start, Event::Begin);
    let (t, a) = advance(&p, &mut s, t, Event::Polled { poll: Ok(message("m4", r#"{"alerts": []}"#)) });
    assert!(matches!(&a, Action::Nack { id, dead: true } if id == "m4"));
    let step = finished(advance(&p, &mut s, t, Event::Nacked));
    assert!(matches!(&step, Step::DeadLettered { id, reason } if id == "m4" && reason.contains("What now:")));
    assert_eq!(s.health, Health::Failing);

    // Not JSON at all: dead-lettered with its own reason.
    let (t, _) = advance(&p, &mut s, Turn::Start, Event::Begin);
    let (t, a) = advance(&p, &mut s, t, Event::Polled { poll: Ok(Poll::NotJson { id: "m5".into() }) });
    assert!(matches!(&a, Action::Nack { id, dead: true } if id == "m5"));
    let step = finished(advance(&p, &mut s, t, Event::Nacked));
    assert_eq!(step, Step::DeadLettered { id: "m5".into(), reason: NOT_JSON_REASON.into() });
}

#[test]
fn ar8_the_subscription_policy_is_pushed_once() {
    let p = pumped("{}");
    let mut s = PumpState::default();
    let (t, _) = advance(&p, &mut s, Turn::Start, Event::Begin);
    let (t, a) = advance(&p, &mut s, t, Event::Polled { poll: Ok(Poll::Empty) });
    assert!(matches!(a, Action::SetPolicy { lease_ms: 60000, max_attempts: 4 }));
    let step = finished(advance(&p, &mut s, t, Event::PolicySet { ok: true }));
    assert_eq!(step, Step::Idle);
    assert!(s.policy_pushed);
    let (t, _) = advance(&p, &mut s, Turn::Start, Event::Begin);
    let step = finished(advance(&p, &mut s, t, Event::Polled { poll: Ok(Poll::Empty) }));
    assert_eq!(step, Step::Idle, "no second policy write");
}

#[test]
fn a_policy_the_hub_refused_is_tried_again_next_turn() {
    let p = pumped("{}");
    let mut s = PumpState::default();
    let (t, _) = advance(&p, &mut s, Turn::Start, Event::Begin);
    let (t, _) = advance(&p, &mut s, t, Event::Polled { poll: Ok(Poll::Empty) });
    let _ = finished(advance(&p, &mut s, t, Event::PolicySet { ok: false }));
    assert!(!s.policy_pushed);
    let (t, _) = advance(&p, &mut s, Turn::Start, Event::Begin);
    let (_, a) = advance(&p, &mut s, t, Event::Polled { poll: Ok(Poll::Empty) });
    assert!(matches!(a, Action::SetPolicy { .. }));
}

#[test]
fn an_http_profile_has_nothing_to_pump() {
    let text = r#"
[[profiles]]
name = "hook"
from = { http_path = "/hook" }
to = { url = "http://127.0.0.1:9/hook" }
content_type = "application/json"
body = "{}"
"#;
    let p = match config::load("t.toml", text, &no_env()) {
        Ok(mut cfg) => cfg.profiles.remove(0),
        Err(e) => panic!("{}", e.to_string()),
    };
    let mut s = PumpState::default();
    assert_eq!(finished(advance(&p, &mut s, Turn::Start, Event::Begin)), Step::Idle);
}

#[test]
fn a_finished_turn_says_what_to_count_and_how_long_to_pause() {
    let f = followup(&Step::Delivered { id: "x".into(), attempts: 3, ack_failed: false });
    assert_eq!((f.record, f.outcome, f.attempts, f.pause_ms), (Some(true), Some("delivered"), 3, 0));
    let f = followup(&Step::HandedBack { id: "x".into(), attempts: 2, reason: "r".into() });
    assert_eq!((f.record, f.outcome, f.attempts, f.pause_ms), (Some(false), Some("handed-back"), 2, 0));
    let f = followup(&Step::DeadLettered { id: "x".into(), reason: "r".into() });
    assert_eq!((f.record, f.outcome, f.attempts), (Some(false), Some("dead-lettered"), 1));
    let f = followup(&Step::Idle);
    assert_eq!((f.record, f.pause_ms), (None, IDLE_PAUSE_MS));
    let f = followup(&Step::HubDown { detail: "d".into() });
    assert_eq!((f.record, f.pause_ms), (None, HUB_DOWN_PAUSE_MS));
}

#[test]
fn hub_errors_say_what_to_do() {
    assert_eq!(HubError::Denied.to_string(), DENIED_TEXT);
    let m = HubError::Status { status: 503 }.to_string();
    assert!(m.starts_with("the hub answered 503. What now: "), "{m}");
}

#[test]
fn a_hub_status_is_read_before_its_body() {
    assert!(poll_status(200).is_none());
    assert!(matches!(poll_status(204), Some(Ok(Poll::Empty))));
    assert!(matches!(poll_status(404), Some(Ok(Poll::UnknownTopic))));
    assert!(matches!(poll_status(401), Some(Err(HubError::Denied))));
    assert!(matches!(poll_status(403), Some(Err(HubError::Denied))));
    assert!(matches!(poll_status(500), Some(Err(HubError::Status { status: 500 }))));
}
