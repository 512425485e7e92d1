use gemini_bridge::credential::{credential_usable, gemini_check_status, resolve_credential};

const NOT_CONFIGURED: &str = "Gemini API key not configured. Configure in the app settings.";

#[test]
fn empty_value_is_not_usable() {
    assert!(!credential_usable(""));
}

#[test]
fn placeholder_is_not_usable() {
    assert!(!credential_usable("your_api_key_here"));
}

#[test]
fn ordinary_value_is_usable() {
    assert!(credential_usable("sk-123"));
    assert!(credential_usable("x"));
    assert!(credential_usable("your_api_key_her"));
    assert!(credential_usable("your_api_key_here2"));
}

#[test]
fn placeholder_embedded_not_configured() {
    let r = gemini_check_status(Some("your_api_key_here"), None);
    assert!(!r.configured);
    assert_eq!(r.message, NOT_CONFIGURED);
}

#[test]
fn empty_embedded_not_configured() {
    let r = gemini_check_status(Some(""), None);
    assert!(!r.configured);
}

#[test]
fn placeholder_runtime_not_configured() {
    let r = gemini_check_status(None, Some("your_api_key_here".to_string()));
    assert!(!r.configured);
    assert_eq!(r.message, NOT_CONFIGURED);
}

#[test]
fn empty_runtime_not_configured() {
    let r = gemini_check_status(None, Some(String::new()));
    assert!(!r.configured);
}

#[test]
fn unset_everywhere_reports_not_configured() {
    let r = gemini_check_status(None, None);
    assert!(!r.configured);
    assert_eq!(r.message, NOT_CONFIGURED);
}

#[test]
fn configured_when_runtime_set() {
    let r = gemini_check_status(None, Some("sk-123".to_string()));
    assert!(r.configured);
    assert_eq!(r.message, "Gemini API is configured");
}

#[test]
fn embedded_wins_over_runtime() {
    let r = resolve_credential(Some("build-key"), Some("env-key".to_string()));
    assert_eq!(r, Some("build-key".to_string()));
}

#[test]
fn runtime_used_when_embedded_placeholder() {
    let r = resolve_credential(Some("your_api_key_here"), Some("env-key".to_string()));
    assert_eq!(r, Some("env-key".to_string()));
}

#[test]
fn runtime_used_when_embedded_absent() {
    let r = resolve_credential(None, Some("env-key".to_string()));
    assert_eq!(r, Some("env-key".to_string()));
}

#[test]
fn absent_when_both_unusable() {
    let r = resolve_credential(Some(""), Some("your_api_key_here".to_string()));
    assert_eq!(r, None);
}
