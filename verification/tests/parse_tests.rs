use gemini_bridge::parse::parse_worker_output;

#[test]
fn parses_canonical_output() {
    let out = "{\"image_base64\":\"aGVsbG8=\",\"prompt_used\":\"a red circle\"}";
    let r = parse_worker_output(out).unwrap();
    assert_eq!(r.image_base64, "aGVsbG8=");
    assert_eq!(r.prompt_used, "a red circle");
}

#[test]
fn parses_with_whitespace_and_reordered_fields() {
    let out = " {\n  \"prompt_used\" : \"p\" ,\n  \"image_base64\" : \"i\"\n} \n";
    let r = parse_worker_output(out).unwrap();
    assert_eq!(r.image_base64, "i");
    assert_eq!(r.prompt_used, "p");
}

#[test]
fn parses_escapes() {
    let out = "{\"image_base64\":\"a\\nb\\u0041\",\"prompt_used\":\"q\\\"s\\\\t\\/u\"}";
    let r = parse_worker_output(out).unwrap();
    assert_eq!(r.image_base64, "a\nbA");
    assert_eq!(r.prompt_used, "q\"s\\t/u");
}

#[test]
fn parses_unicode_escape() {
    let out = "{\"image_base64\":\"\\u00e9\\u0416\",\"prompt_used\":\"ok\"}";
    let r = parse_worker_output(out).unwrap();
    assert_eq!(r.image_base64, "\u{00e9}\u{0416}");
}

#[test]
fn ignores_unknown_scalar_members() {
    let out = "{\"image_base64\":\"i\",\"elapsed\":1.25,\"ok\":true,\"note\":\"n\",\
               \"prompt_used\":\"p\"}";
    let r = parse_worker_output(out).unwrap();
    assert_eq!(r.image_base64, "i");
    assert_eq!(r.prompt_used, "p");
}

#[test]
fn rejects_missing_required_field() {
    assert!(parse_worker_output("{\"image_base64\":\"i\"}").is_none());
    assert!(parse_worker_output("{\"prompt_used\":\"p\"}").is_none());
    assert!(parse_worker_output("{}").is_none());
}

#[test]
fn rejects_duplicate_required_field() {
    let out = "{\"image_base64\":\"i\",\"image_base64\":\"j\",\"prompt_used\":\"p\"}";
    assert!(parse_worker_output(out).is_none());
}

#[test]
fn rejects_non_string_required_field() {
    let out = "{\"image_base64\":7,\"prompt_used\":\"p\"}";
    assert!(parse_worker_output(out).is_none());
}

#[test]
fn rejects_trailing_content() {
    let out = "{\"image_base64\":\"i\",\"prompt_used\":\"p\"} x";
    assert!(parse_worker_output(out).is_none());
}

#[test]
fn rejects_non_object_output() {
    assert!(parse_worker_output("").is_none());
    assert!(parse_worker_output("   ").is_none());
    assert!(parse_worker_output("null").is_none());
    assert!(parse_worker_output("plain text, not json").is_none());
    assert!(parse_worker_output("[1,2]").is_none());
}

#[test]
fn rejects_unterminated_string() {
    assert!(parse_worker_output("{\"image_base64\":\"i").is_none());
}

#[test]
fn parses_surrogate_pair() {
    let out = "{\"image_base64\":\"\\ud83d\\ude00\",\"prompt_used\":\"p\"}";
    let r = parse_worker_output(out).unwrap();
    assert_eq!(r.image_base64, "\u{1F600}");
}

#[test]
fn rejects_unpaired_surrogate() {
    let high_alone = "{\"image_base64\":\"\\ud83dx\",\"prompt_used\":\"p\"}";
    assert!(parse_worker_output(high_alone).is_none());
    let low_alone = "{\"image_base64\":\"\\ude00\",\"prompt_used\":\"p\"}";
    assert!(parse_worker_output(low_alone).is_none());
}

#[test]
fn accepts_output_that_serde_also_accepts() {
    let out = "{ \"image_base64\": \"QUJD\", \"prompt_used\": \"x y z\" }";
    let v: serde_json::Value = serde_json::from_str(out).unwrap();
    let r = parse_worker_output(out).unwrap();
    assert_eq!(r.image_base64, v["image_base64"].as_str().unwrap());
    assert_eq!(r.prompt_used, v["prompt_used"].as_str().unwrap());
}
