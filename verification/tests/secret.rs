//! A secret value never prints itself; only `expose` hands it out.

use http_switchboard::secret::Secret;

#[test]
fn k8_a_secret_never_prints_itself() {
    let s = Secret::new("hunter2");
    assert_eq!(s.display_text(), "***");
    assert_eq!(s.debug_text(), "Secret(***)");
    assert!(!format!("{} {}", s.debug_text(), s.display_text()).contains("hunter2"));
    assert_eq!(s.expose(), "hunter2");
}

#[test]
fn a_cloned_secret_exposes_the_same_value() {
    let s = Secret::new("t0ken");
    let t = s.clone();
    assert!(s == t);
    assert_eq!(t.expose(), "t0ken");
    assert!(Secret::new("a") != Secret::new("b"));
}
