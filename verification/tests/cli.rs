//! The command line's logic: usage, the dry-run's arguments and output.

use http_switchboard::cli::{check_line, dry_run_report, parse_dry_run, pick_profile, preview, usage, USAGE};
use http_switchboard::config;
use http_switchboard::secret::Secret;
use http_switchboard::translate::{Delivery, Target};

fn args(words: &[&str]) -> Vec<String> {
    words.iter().map(|w| w.to_string()).collect()
}

#[test]
fn the_usage_lists_every_command() {
    let u = usage();
    assert_eq!(u, USAGE);
    assert!(u.contains("--check"));
    assert!(u.contains("--healthcheck"));
    assert!(u.contains("test --config <config.toml> --profile <name> --input <message.json>"));
}

#[test]
fn the_dry_run_reads_its_three_options() {
    let a = match parse_dry_run(&args(&["--profile", "alertmanager", "--input", "in.json"])) {
        Ok(a) => a,
        Err(e) => panic!("{e}"),
    };
    assert_eq!(a.config, "config.toml", "the default config");
    assert_eq!(a.profile, "alertmanager");
    assert_eq!(a.input, "in.json");

    let a = match parse_dry_run(&args(&[
        "--config", "c.toml", "--input", "x", "--profile", "p", "--profile", "q",
    ])) {
        Ok(a) => a,
        Err(e) => panic!("{e}"),
    };
    assert_eq!((a.config.as_str(), a.profile.as_str(), a.input.as_str()), ("c.toml", "q", "x"));
}

#[test]
fn the_dry_run_fails_closed_and_says_what_to_do() {
    match parse_dry_run(&args(&["--nonsense"])) {
        Err(e) => {
            assert!(e.starts_with("unknown option '--nonsense'.\n"), "{e}");
            assert!(e.ends_with(USAGE), "{e}");
        }
        Ok(_) => panic!("an unknown option must be refused"),
    }
    match parse_dry_run(&args(&["--profile", "p"])) {
        Err(e) => assert_eq!(e, USAGE),
        Ok(_) => panic!("an input is required"),
    }
    match parse_dry_run(&args(&["--profile", "p", "--input"])) {
        Err(e) => assert_eq!(e, USAGE, "an option without its value counts as missing"),
        Ok(_) => panic!("an input is required"),
    }
}

#[test]
fn an_unknown_profile_is_answered_with_the_ones_that_exist() {
    let text = r#"
[[profiles]]
name = "alertmanager"
from = { http_path = "/a" }
to = { url = "http://127.0.0.1:9/a" }
content_type = "application/json"
body = "{}"

[[profiles]]
name = "uptime-kuma"
from = { http_path = "/u" }
to = { url = "http://127.0.0.1:9/u" }
content_type = "application/json"
body = "{}"
"#;
    let cfg = match config::load("c.toml", text, &config::EnvLookup::new(Vec::new())) {
        Ok(c) => c,
        Err(e) => panic!("{}", e.to_string()),
    };
    assert_eq!(pick_profile("c.toml", &cfg, "uptime-kuma"), Ok(1));
    assert_eq!(
        pick_profile("c.toml", &cfg, "nope"),
        Err("c.toml: there is no profile named 'nope'. What now: pick one of: alertmanager, uptime-kuma."
            .to_string())
    );
}

#[test]
fn the_preview_shows_the_result_and_never_a_header_value() {
    let d = Delivery {
        target: Target::Url { url: "http://127.0.0.1:9/hook".into(), method: "POST".into() },
        content_type: "application/json".into(),
        headers: vec![("authorization".into(), Secret::new("do-not-print-me"))],
        body: r#"{"alert": "X"}"#.into(),
    };
    let printed = preview(&d);
    assert_eq!(
        printed,
        "would send POST http://127.0.0.1:9/hook\ncontent-type: application/json\nheader: authorization: ***\n---\n{\"alert\": \"X\"}\n"
    );
    assert!(!printed.contains("do-not-print-me"));

    let d = Delivery {
        target: Target::KyuTopic { topic: "alerts.homelab".into() },
        content_type: "text/plain".into(),
        headers: vec![],
        body: "hi".into(),
    };
    assert_eq!(
        preview(&d),
        "would publish to kyu topic alerts.homelab\ncontent-type: text/plain\n---\nhi\n"
    );
}

#[test]
fn a_passing_check_says_how_many_profiles() {
    assert_eq!(check_line("deploy/config.toml", 1), "deploy/config.toml: ok, 1 profile(s)");
}

#[test]
fn the_dry_run_reports_a_refusal_as_failure() {
    let text = r#"
[[profiles]]
name = "t"
from = { http_path = "/t" }
to = { url = "http://127.0.0.1:9/t" }
content_type = "application/json"
body = '{"a": {{ x }}}'
"#;
    let cfg = match config::load("c.toml", text, &config::EnvLookup::new(Vec::new())) {
        Ok(c) => c,
        Err(e) => panic!("{}", e.to_string()),
    };
    let p = &cfg.profiles[0];
    let (ok, shown) = dry_run_report(&http_switchboard::translate::prepare(p, br#"{"x": 1}"#));
    assert!(ok);
    assert_eq!(shown, "would send POST http://127.0.0.1:9/t\ncontent-type: application/json\n---\n{\"a\": 1}\n");
    let (ok, shown) = dry_run_report(&http_switchboard::translate::prepare(p, b"x=1"));
    assert!(!ok);
    assert!(shown.contains("not JSON") && shown.ends_with('\n'), "{shown}");
}
