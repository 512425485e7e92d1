use gemini_bridge::bridge::{
    bridge_error_text, dispatch_module, interpret_worker_output, operation_failure_message,
    operation_name, resolve_backend_dir, worker_args, BridgeError, Operation,
};

#[test]
fn operation_names_are_fixed() {
    assert_eq!(operation_name(Operation::Generate), "generate");
    assert_eq!(operation_name(Operation::Edit), "edit");
    assert_eq!(operation_name(Operation::ProcessImage), "process");
    assert_eq!(dispatch_module(), "core.gemini.cli");
}

#[test]
fn worker_args_layout() {
    let payload =
        "{\"prompt\":\"a red circle\",\"style\":null,\"width\":null,\"height\":null}".to_string();
    let args = worker_args(Operation::Generate, payload.clone());
    assert_eq!(args.len(), 4);
    assert_eq!(args[0], "-m");
    assert_eq!(args[1], "core.gemini.cli");
    assert_eq!(args[2], "generate");
    assert_eq!(args[3], payload);
}

#[test]
fn backend_dir_resolves_sibling() {
    let r = resolve_backend_dir(Some("/home/user/project".to_string()));
    assert_eq!(r.ok().unwrap(), "/home/user/project/backend");
}

#[test]
fn backend_dir_fails_without_parent() {
    let e = resolve_backend_dir(None).err().unwrap();
    assert!(matches!(&e, BridgeError::PathResolution { .. }));
    assert_eq!(bridge_error_text(&e), "Failed to get parent directory");
}

#[test]
fn nonzero_exit_preserves_stderr_verbatim() {
    let stderr = "Traceback (most recent call last):\n  boom\n";
    let r = interpret_worker_output(false, "{\"image_base64\":\"i\",\"prompt_used\":\"p\"}", stderr);
    let e = r.err().unwrap();
    assert!(matches!(&e, BridgeError::Worker { .. }));
    let text = bridge_error_text(&e);
    assert_eq!(text, format!("Python backend error: {}", stderr));
    assert!(text.ends_with(stderr));
}

#[test]
fn bad_stdout_is_a_parse_error_not_a_worker_error() {
    let raw = "warning: something odd happened";
    let r = interpret_worker_output(true, raw, "");
    let e = r.err().unwrap();
    assert!(matches!(&e, BridgeError::ResponseParse { .. }));
    assert!(!matches!(&e, BridgeError::Worker { .. }));
    match &e {
        BridgeError::ResponseParse { raw: kept, .. } => assert_eq!(kept, raw),
        _ => unreachable!(),
    }
    assert!(bridge_error_text(&e).starts_with("Failed to parse response: "));
}

#[test]
fn good_stdout_returns_result_unchanged() {
    let stdout = "{\"image_base64\":\"aGVsbG8=\",\"prompt_used\":\"a red circle\"}";
    let r = interpret_worker_output(true, stdout, "").ok().unwrap();
    assert_eq!(r.image_base64, "aGVsbG8=");
    assert_eq!(r.prompt_used, "a red circle");
}

#[test]
fn failure_message_carries_operation_context() {
    let e = BridgeError::Worker { stderr: "no module named core".to_string() };
    assert_eq!(
        operation_failure_message(Operation::Generate, &e),
        "Failed to generate image: Python backend error: no module named core"
    );
    assert_eq!(
        operation_failure_message(Operation::Edit, &e),
        "Failed to edit image: Python backend error: no module named core"
    );
    assert_eq!(
        operation_failure_message(Operation::ProcessImage, &e),
        "Failed to process image: Python backend error: no module named core"
    );
}

#[test]
fn launch_failure_text() {
    let e = BridgeError::Launch { detail: "No such file or directory (os error 2)".to_string() };
    assert_eq!(
        bridge_error_text(&e),
        "Failed to execute Python: No such file or directory (os error 2)"
    );
}

#[test]
fn serialization_failure_text() {
    let e = BridgeError::Serialization { detail: "unsupported value".to_string() };
    assert_eq!(bridge_error_text(&e), "Failed to serialize request: unsupported value");
}
