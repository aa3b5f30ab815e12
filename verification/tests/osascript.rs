use apple_mail_cli::bridge::BridgeError;
use apple_mail_cli::osascript::{
    arguments_for, bounded_lossy_text, interpret_process_output, OsascriptBridge, PollAction,
    PollEvent, MAX_STDERR_CHARS, MAX_STDOUT_BYTES,
};

const SCRIPT: &str = "function run(argv) { return argv[0]; }";

#[test]
fn request_is_passed_as_an_argument_instead_of_jxa_source() {
    let request = r#"{"action":"search","query":"'; dangerous()"}"#;

    let arguments = arguments_for(SCRIPT, request);

    assert_eq!(arguments[0], "-l");
    assert_eq!(arguments[1], "JavaScript");
    assert_eq!(arguments[2], "-e");
    assert_eq!(arguments[4], "--");
    assert_eq!(arguments[5], request);
    assert!(!arguments[3].contains(request));
}

#[test]
fn stderr_is_decoded_lossily_and_cut() {
    assert_eq!(bounded_lossy_text(b"plain"), "plain");
    assert_eq!(bounded_lossy_text(b"a\xffb"), "a\u{fffd}b");
    let long = "é".repeat(MAX_STDERR_CHARS + 10);
    let cut = bounded_lossy_text(long.as_bytes());
    assert_eq!(cut.chars().count(), MAX_STDERR_CHARS);
    assert_eq!(cut, "é".repeat(MAX_STDERR_CHARS));
}

#[test]
fn process_output_becomes_a_response_or_an_error() {
    assert_eq!(
        interpret_process_output(true, Some(0), b"{\"ok\":true}".to_vec(), b"").unwrap(),
        "{\"ok\":true}",
    );
    match interpret_process_output(false, Some(1), b"ignored".to_vec(), b"denied") {
        Err(BridgeError::Failed { code, stderr }) => {
            assert_eq!(code, Some(1));
            assert_eq!(stderr, "denied");
        }
        other => panic!("unexpected outcome {other:?}"),
    }
    match interpret_process_output(true, Some(0), vec![0xff, 0xfe], b"") {
        Err(BridgeError::InvalidOutput(message)) => assert!(message.contains("utf-8")),
        other => panic!("unexpected outcome {other:?}"),
    }
    match interpret_process_output(true, Some(0), vec![b'x'; MAX_STDOUT_BYTES as usize + 1], b"") {
        Err(BridgeError::InvalidOutput(message)) => {
            assert_eq!(message, "stdout exceeded the supported limit")
        }
        other => panic!("unexpected outcome {other:?}"),
    }
    match interpret_process_output(false, None, Vec::new(), &vec![b'e'; 65_537]) {
        Err(BridgeError::InvalidOutput(message)) => {
            assert_eq!(message, "stderr exceeded the supported limit")
        }
        other => panic!("unexpected outcome {other:?}"),
    }
}

#[test]
fn polling_decides_between_waiting_collecting_and_aborting() {
    let bridge = OsascriptBridge::new();
    assert_eq!(bridge.timeout_secs(), 30);
    assert_eq!(OsascriptBridge::default().timeout_secs(), 30);
    assert!(matches!(bridge.decide(PollEvent::Exited), PollAction::Collect));
    assert!(matches!(
        bridge.decide(PollEvent::Running { elapsed_nanos: 29_999_999_999 }),
        PollAction::Wait
    ));
    assert!(matches!(
        bridge.decide(PollEvent::Running { elapsed_nanos: 30_000_000_000 }),
        PollAction::Abort(BridgeError::Timeout)
    ));
    match bridge.decide(PollEvent::WaitFailed("lost".to_string())) {
        PollAction::Abort(BridgeError::Unavailable(message)) => assert_eq!(message, "lost"),
        other => panic!("unexpected action {other:?}"),
    }
}
