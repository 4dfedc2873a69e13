//! Retrying inside one claim, and what a receiver's answer means.

use http_switchboard::adapters::{
    advice_for, after_failure, request_for, status_outcome, DeliverError, CLIENT_ERROR_ADVICE,
    CREDENTIALS_ADVICE, NOT_FOUND_ADVICE, SERVER_ERROR_ADVICE, TOO_LARGE_ADVICE,
};
use http_switchboard::secret::Secret;
use http_switchboard::translate::{Delivery, Target};

#[test]
fn only_what_could_plausibly_recover_is_retried() {
    assert!(DeliverError::Timeout { timeout_ms: 10 }.is_retryable());
    assert!(DeliverError::Transport { detail: "refused".into() }.is_retryable());
    for status in [500u16, 502, 503, 429] {
        assert!(DeliverError::Status { status, advice: String::new() }.is_retryable(), "{status}");
    }
    for status in [400u16, 401, 404, 413] {
        assert!(!DeliverError::Status { status, advice: String::new() }.is_retryable(), "{status}");
    }
}

#[test]
fn the_pauses_double_and_stop_when_the_retries_are_spent() {
    assert_eq!(after_failure(1, 2, true), Some(1_000));
    assert_eq!(after_failure(2, 2, true), Some(2_000));
    assert_eq!(after_failure(3, 2, true), None, "three attempts is one plus two retries");
    assert_eq!(after_failure(4, 10, true), Some(8_000));
    assert_eq!(after_failure(1, 2, false), None, "a permanent error is not retried");
    assert_eq!(after_failure(1, 0, true), None);
    assert_eq!(after_failure(55, 55, true), Some(1_000 * (1u64 << 54)), "the largest pause still fits");
    assert_eq!(after_failure(56, 55, true), None);
}

#[test]
fn a_receivers_answer_becomes_an_outcome_with_advice() {
    assert!(status_outcome(200).is_ok());
    assert!(status_outcome(204).is_ok());
    match status_outcome(503) {
        Err(DeliverError::Status { status, advice }) => {
            assert_eq!(status, 503);
            assert_eq!(advice, SERVER_ERROR_ADVICE);
        }
        other => panic!("expected a refusal, got {other:?}"),
    }
    assert_eq!(advice_for(401), CREDENTIALS_ADVICE);
    assert_eq!(advice_for(403), CREDENTIALS_ADVICE);
    assert_eq!(advice_for(404), NOT_FOUND_ADVICE);
    assert_eq!(advice_for(413), TOO_LARGE_ADVICE);
    assert_eq!(advice_for(400), CLIENT_ERROR_ADVICE);
    assert_eq!(advice_for(500), SERVER_ERROR_ADVICE);
}

#[test]
fn every_delivery_error_says_what_to_do() {
    let m = DeliverError::Timeout { timeout_ms: 250 }.to_string();
    assert!(m.starts_with("the destination did not answer within 250 ms. What now: "), "{m}");
    let m = DeliverError::Transport { detail: "connection refused".into() }.to_string();
    assert!(m.starts_with("the destination could not be reached: connection refused. What now: "), "{m}");
}

fn delivery(target: Target) -> Delivery {
    Delivery {
        target,
        content_type: "application/json".into(),
        headers: vec![],
        body: "{}".into(),
    }
}

#[test]
fn a_topic_is_published_to_the_hub_under_its_token() {
    let d = delivery(Target::KyuTopic { topic: "alerts.homelab".into() });
    let (url, method, token) = request_for(
        &Some("http://127.0.0.1:8080".into()),
        &Some(Secret::new("hub-token")),
        &d,
    );
    assert_eq!(url, "http://127.0.0.1:8080/t/alerts.homelab");
    assert_eq!(method, "POST");
    assert_eq!(token.map(|t| t.expose().to_string()), Some("hub-token".to_string()));
}

#[test]
fn a_url_is_called_as_configured_without_the_hubs_token() {
    let d = delivery(Target::Url { url: "http://127.0.0.1:9/x".into(), method: "PUT".into() });
    let (url, method, token) = request_for(
        &Some("http://127.0.0.1:8080".into()),
        &Some(Secret::new("hub-token")),
        &d,
    );
    assert_eq!(url, "http://127.0.0.1:9/x");
    assert_eq!(method, "PUT");
    assert!(token.is_none());
}
