use tinyfusion_core::oracle::{format_error_message, VerifyResult};

#[test]
fn test_error_message_formatting() {
    let result = VerifyResult {
        exit_code: Some(1),
        stdout: String::new(),
        stderr: "error: something broke".into(),
        timed_out: false,
    };
    let msg = format_error_message(&result);
    assert!(msg.contains("exit code 1"));
    assert!(msg.contains("something broke"));
    assert!(msg.contains("Please re-analyze"));
}
