use gemini_bridge::payload::{
    serialize_edit_request, serialize_generate_request, serialize_process_request,
};
use gemini_bridge::types::{GeminiEditRequest, GeminiGenerateRequest, GeminiProcessRequest};

#[test]
fn generate_canonical_payload() {
    let req = GeminiGenerateRequest {
        prompt: "a red circle".to_string(),
        style: None,
        width: None,
        height: None,
    };
    let payload = serialize_generate_request(&req);
    assert_eq!(
        payload,
        "{\"prompt\":\"a red circle\",\"style\":null,\"width\":null,\"height\":null}"
    );
}

#[test]
fn generate_payload_with_all_fields() {
    let req = GeminiGenerateRequest {
        prompt: "p".to_string(),
        style: Some("sketch".to_string()),
        width: Some(640),
        height: Some(480),
    };
    let payload = serialize_generate_request(&req);
    assert_eq!(
        payload,
        "{\"prompt\":\"p\",\"style\":\"sketch\",\"width\":640,\"height\":480}"
    );
}

#[test]
fn generate_payload_escapes_specials() {
    let req = GeminiGenerateRequest {
        prompt: "a\"b\\c\nd".to_string(),
        style: None,
        width: None,
        height: None,
    };
    let payload = serialize_generate_request(&req);
    assert_eq!(
        payload,
        "{\"prompt\":\"a\\u0022b\\u005Cc\\u000Ad\",\"style\":null,\"width\":null,\"height\":null}"
    );
}

#[test]
fn edit_canonical_payload() {
    let req = GeminiEditRequest {
        image_base64: "aGVsbG8=".to_string(),
        prompt: "add a hat".to_string(),
    };
    let payload = serialize_edit_request(&req);
    assert_eq!(
        payload,
        "{\"image_base64\":\"aGVsbG8=\",\"prompt\":\"add a hat\"}"
    );
}

#[test]
fn process_payload_all_absent() {
    let req = GeminiProcessRequest {
        image_base64: "QUJD".to_string(),
        style: None,
        custom_prompt: None,
        remove_background: None,
        threshold: None,
        padding: None,
    };
    let payload = serialize_process_request(&req);
    assert_eq!(
        payload,
        "{\"image_base64\":\"QUJD\",\"style\":null,\"custom_prompt\":null,\
         \"remove_background\":null,\"threshold\":null,\"padding\":null}"
    );
}

#[test]
fn process_payload_all_present() {
    let req = GeminiProcessRequest {
        image_base64: "QUJD".to_string(),
        style: Some("lineart".to_string()),
        custom_prompt: Some("clean edges".to_string()),
        remove_background: Some(true),
        threshold: Some(128),
        padding: Some(0),
    };
    let payload = serialize_process_request(&req);
    assert_eq!(
        payload,
        "{\"image_base64\":\"QUJD\",\"style\":\"lineart\",\"custom_prompt\":\"clean edges\",\
         \"remove_background\":true,\"threshold\":128,\"padding\":0}"
    );
}

#[test]
fn process_payload_false_flag() {
    let req = GeminiProcessRequest {
        image_base64: "QQ==".to_string(),
        style: None,
        custom_prompt: None,
        remove_background: Some(false),
        threshold: None,
        padding: None,
    };
    let payload = serialize_process_request(&req);
    assert!(payload.contains("\"remove_background\":false"));
}

#[test]
fn generate_payload_round_trips_through_json() {
    let req = GeminiGenerateRequest {
        prompt: "a \"quoted\" prompt\twith\nspecials \\ done".to_string(),
        style: Some("ink".to_string()),
        width: Some(1024),
        height: None,
    };
    let payload = serialize_generate_request(&req);
    let v: serde_json::Value = serde_json::from_str(&payload).unwrap();
    assert_eq!(v["prompt"].as_str().unwrap(), req.prompt);
    assert_eq!(v["style"].as_str().unwrap(), "ink");
    assert_eq!(v["width"].as_u64().unwrap(), 1024);
    assert!(v["height"].is_null());
    assert_eq!(v.as_object().unwrap().len(), 4);
}

#[test]
fn process_payload_round_trips_through_json() {
    let req = GeminiProcessRequest {
        image_base64: "QUJDRA==".to_string(),
        style: None,
        custom_prompt: Some("crisp \u{1F600} output".to_string()),
        remove_background: Some(true),
        threshold: Some(42),
        padding: Some(7),
    };
    let payload = serialize_process_request(&req);
    let v: serde_json::Value = serde_json::from_str(&payload).unwrap();
    assert_eq!(v["image_base64"].as_str().unwrap(), "QUJDRA==");
    assert!(v["style"].is_null());
    assert_eq!(v["custom_prompt"].as_str().unwrap(), "crisp \u{1F600} output");
    assert_eq!(v["remove_background"].as_bool().unwrap(), true);
    assert_eq!(v["threshold"].as_u64().unwrap(), 42);
    assert_eq!(v["padding"].as_u64().unwrap(), 7);
}

#[test]
fn edit_payload_round_trips_through_json() {
    let req = GeminiEditRequest {
        image_base64: "////".to_string(),
        prompt: "control \u{0001} char".to_string(),
    };
    let payload = serialize_edit_request(&req);
    let v: serde_json::Value = serde_json::from_str(&payload).unwrap();
    assert_eq!(v["image_base64"].as_str().unwrap(), "////");
    assert_eq!(v["prompt"].as_str().unwrap(), "control \u{0001} char");
}
