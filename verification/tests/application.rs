use apple_mail_cli::application::{interpret_response, run, validate_response, ApplicationError};
use apple_mail_cli::bridge::{BridgeError, MailBridge};
use apple_mail_cli::cli::Cli;
use apple_mail_cli::json::{json_text, JsonValue};
use apple_mail_cli::output::error_envelope;

fn text(value: &str) -> JsonValue {
    JsonValue::String(value.to_string())
}

fn number(value: u64) -> JsonValue {
    JsonValue::Number(value.to_string())
}

fn object(entries: Vec<(&str, JsonValue)>) -> JsonValue {
    JsonValue::Object(entries.into_iter().map(|(k, v)| (k.to_string(), v)).collect())
}

struct FakeBridge {
    reply: Option<Result<String, BridgeError>>,
    requests: Vec<String>,
}

impl FakeBridge {
    fn returning(response: &str) -> Self {
        Self {
            reply: Some(Ok(response.to_owned())),
            requests: Vec::new(),
        }
    }

    fn failing(error: BridgeError) -> Self {
        Self {
            reply: Some(Err(error)),
            requests: Vec::new(),
        }
    }

    fn request(&self) -> Option<&str> {
        assert!(self.requests.len() <= 1, "the bridge was called more than once");
        self.requests.first().map(String::as_str)
    }
}

impl MailBridge for FakeBridge {
    fn execute(&mut self, request: &str) -> Result<String, BridgeError> {
        self.requests.push(request.to_owned());
        self.reply.take().expect("one reply per test")
    }
}

#[test]
fn application_sends_the_command_as_json_and_returns_the_bridge_response() {
    let cli =
        Cli::try_parse_from(&["apple-mail", "accounts"]).expect("accounts command should parse");
    let mut bridge = FakeBridge::returning(r#"{"ok":true,"data":[]}"#);

    let response = run(cli.command(), &mut bridge).expect("application should run");

    assert_eq!(bridge.request(), Some(r#"{"action":"accounts"}"#));
    assert_eq!(
        response,
        object(vec![("data", JsonValue::Array(vec![])), ("ok", JsonValue::Bool(true))]),
    );
}

#[test]
fn application_rejects_a_bridge_response_without_an_envelope() {
    let cli =
        Cli::try_parse_from(&["apple-mail", "accounts"]).expect("accounts command should parse");
    let mut bridge = FakeBridge::returning("[]");

    let error = run(cli.command(), &mut bridge)
        .expect_err("a response without an envelope must be rejected");

    assert!(error.message().contains("response envelope"));
}

#[test]
fn application_returns_a_failed_bridge_envelope_as_an_error() {
    let cli =
        Cli::try_parse_from(&["apple-mail", "accounts"]).expect("accounts command should parse");
    let mut bridge = FakeBridge::returning(
        r#"{"ok":false,"error":{"code":"permission_denied","message":"Allow Automation"}}"#,
    );

    let error = run(cli.command(), &mut bridge)
        .expect_err("a failed bridge envelope must produce an application error");

    assert_eq!(
        error.response(),
        Some(&object(vec![
            (
                "error",
                object(vec![
                    ("code", text("permission_denied")),
                    ("message", text("Allow Automation")),
                ]),
            ),
            ("ok", JsonValue::Bool(false)),
        ])),
    );
    assert_eq!(error.exit_code(), 3);
}

#[test]
fn mark_read_without_execution_returns_a_preview_without_calling_mail() {
    let cli = Cli::try_parse_from(&[
        "apple-mail",
        "mark-read",
        "--account",
        "account-1",
        "--mailbox",
        "Inbox",
        "--id",
        "42",
    ])
    .expect("mark-read command should parse");
    let mut bridge = FakeBridge::returning(r#"{"ok":true,"data":{"unexpected":true}}"#);

    let response = run(cli.command(), &mut bridge).expect("preview should succeed");

    assert_eq!(bridge.request(), None);
    assert_eq!(
        response,
        object(vec![
            (
                "data",
                object(vec![
                    (
                        "mutation",
                        object(vec![
                            ("account", text("account-1")),
                            ("action", text("mark-read")),
                            ("id", number(42)),
                            ("mailbox", text("Inbox")),
                        ]),
                    ),
                    ("status", text("preview")),
                ]),
            ),
            ("ok", JsonValue::Bool(true)),
        ]),
    );
}

#[test]
fn mark_read_with_execution_calls_mail() {
    let cli = Cli::try_parse_from(&[
        "apple-mail",
        "mark-read",
        "--account",
        "account-1",
        "--mailbox",
        "Inbox",
        "--id",
        "42",
        "--execute",
    ])
    .expect("mark-read command should parse");
    let mut bridge = FakeBridge::returning(r#"{"ok":true,"data":{"read":true}}"#);

    let response = run(cli.command(), &mut bridge).expect("mutation should succeed");

    assert_eq!(
        bridge.request(),
        Some(r#"{"action":"mark-read","account":"account-1","mailbox":"Inbox","id":42}"#),
    );
    assert_eq!(
        response,
        object(vec![
            ("data", object(vec![("read", JsonValue::Bool(true))])),
            ("ok", JsonValue::Bool(true)),
        ]),
    );
}

#[test]
fn move_without_execution_returns_a_preview_without_calling_mail() {
    let cli = Cli::try_parse_from(&[
        "apple-mail",
        "move",
        "--account",
        "account-1",
        "--mailbox",
        "Inbox",
        "--id",
        "42",
        "--to",
        "Archive/2026",
    ])
    .expect("move command should parse");
    let mut bridge = FakeBridge::returning(r#"{"ok":true,"data":{"unexpected":true}}"#);

    let response = run(cli.command(), &mut bridge).expect("preview should succeed");

    assert_eq!(bridge.request(), None);
    assert_eq!(
        response,
        object(vec![
            (
                "data",
                object(vec![
                    (
                        "mutation",
                        object(vec![
                            ("account", text("account-1")),
                            ("action", text("move")),
                            ("destination", text("Archive/2026")),
                            ("id", number(42)),
                            ("mailbox", text("Inbox")),
                        ]),
                    ),
                    ("status", text("preview")),
                ]),
            ),
            ("ok", JsonValue::Bool(true)),
        ]),
    );
}

#[test]
fn move_with_execution_calls_mail() {
    let cli = Cli::try_parse_from(&[
        "apple-mail",
        "move",
        "--account",
        "account-1",
        "--mailbox",
        "Inbox",
        "--id",
        "42",
        "--to",
        "Archive/2026",
        "--execute",
    ])
    .expect("move command should parse");
    let mut bridge = FakeBridge::returning(r#"{"ok":true,"data":{"mailbox":"Archive/2026"}}"#);

    let response = run(cli.command(), &mut bridge).expect("mutation should succeed");

    assert_eq!(
        bridge.request(),
        Some(
            r#"{"action":"move","account":"account-1","mailbox":"Inbox","id":42,"destination":"Archive/2026"}"#
        ),
    );
    assert_eq!(
        response,
        object(vec![
            ("data", object(vec![("mailbox", text("Archive/2026"))])),
            ("ok", JsonValue::Bool(true)),
        ]),
    );
}

#[test]
fn requests_are_escaped_by_the_json_renderer() {
    let cli = Cli::try_parse_from(&["apple-mail", "search", "say \"hi\"\n\\ é", "--limit", "3"])
        .expect("search should parse");
    let mut bridge = FakeBridge::returning(r#"{"ok":true,"data":[]}"#);

    run(cli.command(), &mut bridge).expect("search should succeed");

    assert_eq!(
        bridge.request(),
        Some("{\"action\":\"search\",\"query\":\"say \\\"hi\\\"\\n\\\\ é\",\"limit\":3}"),
    );
}

#[test]
fn response_envelopes_are_checked() {
    let problem = |text: &str| match interpret_response(text) {
        Err(ApplicationError::InvalidEnvelope(problem)) => problem,
        other => panic!("unexpected outcome {other:?}"),
    };
    assert_eq!(problem("[]"), "response envelope must be an object");
    assert_eq!(problem("{}"), "response envelope must contain a boolean ok field");
    assert_eq!(problem(r#"{"ok":"yes"}"#), "response envelope must contain a boolean ok field");
    assert_eq!(problem(r#"{"ok":true}"#), "successful response envelope must contain data");
    assert_eq!(problem(r#"{"ok":false,"data":1}"#), "failed response envelope must contain error");
    assert!(matches!(interpret_response("{"), Err(ApplicationError::InvalidResponse(_))));
    assert!(matches!(
        interpret_response(r#"{"ok":false,"error":null}"#),
        Err(ApplicationError::Mail(_))
    ));
    assert_eq!(
        interpret_response(r#"{"ok":true,"data":{"n":-1.5e3,"b":[null,true]}}"#).unwrap(),
        object(vec![
            (
                "data",
                object(vec![
                    ("b", JsonValue::Array(vec![JsonValue::Null, JsonValue::Bool(true)])),
                    ("n", JsonValue::Number("-1500.0".to_string())),
                ]),
            ),
            ("ok", JsonValue::Bool(true)),
        ]),
    );
    assert_eq!(
        validate_response(&object(vec![("ok", JsonValue::Bool(true)), ("data", JsonValue::Null)]))
            .unwrap(),
        true,
    );
}

#[test]
fn bridge_errors_are_reported() {
    let cli = Cli::try_parse_from(&["apple-mail", "accounts"]).expect("accounts should parse");

    let mut bridge = FakeBridge::failing(BridgeError::Timeout);
    let error = run(cli.command(), &mut bridge).expect_err("a timeout must fail");
    assert!(matches!(error, ApplicationError::Bridge(BridgeError::Timeout)));
    assert_eq!(error.exit_code(), 4);
    assert_eq!(error.message(), "bridge timed out");

    let mut bridge = FakeBridge::failing(BridgeError::Failed {
        code: Some(1),
        stderr: "denied".to_owned(),
    });
    let error = run(cli.command(), &mut bridge).expect_err("a failed bridge must fail");
    assert_eq!(bridge.request(), Some(r#"{"action":"accounts"}"#));
    match &error {
        ApplicationError::Bridge(BridgeError::Failed { code, stderr }) => {
            assert_eq!(*code, Some(1));
            assert_eq!(stderr, "denied");
        }
        other => panic!("unexpected error {other:?}"),
    }
    assert_eq!(error.message(), "bridge failed with exit code Some(1): denied");

    let mut bridge = FakeBridge::returning("not json");
    let error = run(cli.command(), &mut bridge).expect_err("invalid JSON must fail");
    assert!(error.message().starts_with("bridge returned invalid JSON: "));
    assert_eq!(error.exit_code(), 5);
}

#[test]
fn mail_error_codes_choose_the_exit_code() {
    let code = |code: &str| {
        let response = format!(r#"{{"ok":false,"error":{{"code":"{code}","message":"m"}}}}"#);
        interpret_response(&response).expect_err("a failed envelope").exit_code()
    };
    assert_eq!(code("invalid_request"), 2);
    assert_eq!(code("unsupported_action"), 2);
    assert_eq!(code("permission_denied"), 3);
    assert_eq!(code("mail_timeout"), 4);
    assert_eq!(code("move_unverified"), 5);
    let without_code = interpret_response(r#"{"ok":false,"error":"boom"}"#).unwrap_err();
    assert_eq!(without_code.exit_code(), 5);
    assert_eq!(without_code.message(), "Mail operation failed");
    assert_eq!(ApplicationError::InvalidEnvelope("x").exit_code(), 5);
}

#[test]
fn error_envelopes_are_failed_envelopes() {
    let mail = interpret_response(r#"{"ok":false,"error":{"code":"c","message":"Allow"}}"#)
        .unwrap_err();
    assert_eq!(mail.message(), "Allow");
    let envelope = error_envelope(&mail);
    assert_eq!(Some(&envelope), mail.response());
    assert_eq!(validate_response(&envelope).unwrap(), false);

    let error = ApplicationError::Bridge(BridgeError::Failed {
        code: Some(-3),
        stderr: "boom".to_string(),
    });
    assert_eq!(error.message(), "bridge failed with exit code Some(-3): boom");
    let envelope = error_envelope(&error);
    assert_eq!(
        envelope,
        object(vec![
            (
                "error",
                object(vec![
                    ("code", text("bridge_error")),
                    ("message", text("bridge failed with exit code Some(-3): boom")),
                ]),
            ),
            ("ok", JsonValue::Bool(false)),
        ]),
    );
    assert_eq!(validate_response(&envelope).unwrap(), false);
    assert_eq!(
        json_text(&envelope),
        r#"{"error":{"code":"bridge_error","message":"bridge failed with exit code Some(-3): boom"},"ok":false}"#,
    );
    let none = ApplicationError::Bridge(BridgeError::Failed { code: None, stderr: String::new() });
    assert_eq!(none.message(), "bridge failed with exit code None: ");
    assert_eq!(
        ApplicationError::Bridge(BridgeError::Unavailable("gone".into())).message(),
        "bridge unavailable: gone",
    );
    assert_eq!(
        ApplicationError::Bridge(BridgeError::InvalidOutput("bad".into())).message(),
        "bridge returned invalid output: bad",
    );
    assert_eq!(
        ApplicationError::InvalidEnvelope("response envelope must be an object").message(),
        "invalid response envelope: response envelope must be an object",
    );
}
