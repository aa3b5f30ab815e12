use apple_mail_cli::json::{json_text, JsonValue};
use apple_mail_cli::request::MutationPreview;
use apple_mail_cli::cli::Cli;
use apple_mail_cli::text::{i32_text, parse_bounded_decimal, same_text, u64_text};

#[test]
fn integers_are_rendered_in_base_ten() {
    assert_eq!(u64_text(0), "0");
    assert_eq!(u64_text(42), "42");
    assert_eq!(u64_text(u64::MAX), "18446744073709551615");
    assert_eq!(i32_text(-3), "-3");
    assert_eq!(i32_text(i32::MIN), "-2147483648");
    assert_eq!(i32_text(7), "7");
}

#[test]
fn decimals_are_parsed_within_a_bound() {
    assert_eq!(parse_bounded_decimal("25", 200), Some(25));
    assert_eq!(parse_bounded_decimal("+007", 200), Some(7));
    assert_eq!(parse_bounded_decimal("201", 200), None);
    assert_eq!(parse_bounded_decimal("", 200), None);
    assert_eq!(parse_bounded_decimal("+", 200), None);
    assert_eq!(parse_bounded_decimal("-1", 200), None);
    assert_eq!(parse_bounded_decimal("1x", 200), None);
    assert_eq!(parse_bounded_decimal("99999999999999999999999x", 200), None);
    assert_eq!(parse_bounded_decimal("18446744073709551615", u64::MAX), Some(u64::MAX));
    assert_eq!(parse_bounded_decimal("18446744073709551616", u64::MAX), None);
}

#[test]
fn texts_compare_by_characters() {
    assert!(same_text("mark-read", "mark-read"));
    assert!(!same_text("mark-read", "mark-reap"));
    assert!(!same_text("é", "e"));
    assert!(same_text("", ""));
}

#[test]
fn documents_render_compactly() {
    let doc = JsonValue::Object(vec![
        ("a".to_string(), JsonValue::Array(vec![JsonValue::Null, JsonValue::Bool(false)])),
        ("b\"".to_string(), JsonValue::Number("1.5".to_string())),
        ("c".to_string(), JsonValue::Object(vec![])),
    ]);
    assert_eq!(json_text(&doc), r#"{"a":[null,false],"b\"":1.5,"c":{}}"#);
    assert_eq!(json_text(&JsonValue::String("\u{1}\t".to_string())), r#""\u0001\t""#);
    assert_eq!(doc.deep_clone(), doc);
    assert_eq!(doc.member("c"), Some(&JsonValue::Object(vec![])));
    assert_eq!(doc.member("z"), None);
    assert_eq!(JsonValue::Bool(true).as_bool(), Some(true));
    assert_eq!(JsonValue::String("s".into()).as_str(), Some("s"));
    assert_eq!(JsonValue::Null.as_str(), None);
}

#[test]
fn a_preview_holds_the_members_of_the_executed_request() {
    let preview_cli = Cli::try_parse_from(&[
        "apple-mail", "move", "--account", "a", "--mailbox", "m", "--id", "9", "--to", "t",
    ])
    .unwrap();
    let executed_cli = Cli::try_parse_from(&[
        "apple-mail", "move", "--account", "a", "--mailbox", "m", "--id", "9", "--to", "t", "--execute",
    ])
    .unwrap();
    let preview = MutationPreview::from_command(preview_cli.command()).expect("a preview");
    assert!(MutationPreview::from_command(executed_cli.command()).is_none());
    let request = apple_mail_cli::request::MailRequest::from(executed_cli.command()).to_json();
    let (JsonValue::Object(mut left), JsonValue::Object(mut right)) = (preview.to_json(), request) else {
        panic!("objects expected");
    };
    left.sort_by(|x, y| x.0.cmp(&y.0));
    right.sort_by(|x, y| x.0.cmp(&y.0));
    assert_eq!(left, right);
}

#[test]
fn bodies_and_mutations_need_their_flags() {
    let cli = Cli::try_parse_from(&["apple-mail", "get", "--account", "a", "--mailbox", "m", "--id", "1"]).unwrap();
    let request = apple_mail_cli::request::MailRequest::from(cli.command());
    assert!(matches!(
        request,
        apple_mail_cli::request::MailRequest::Get { include_body: false, max_body_bytes: None, .. }
    ));
    let cli = Cli::try_parse_from(&["apple-mail", "mark-read", "--account", "a", "--mailbox", "m", "--id", "1"]).unwrap();
    assert!(MutationPreview::from_command(cli.command()).is_some());
    let cli = Cli::try_parse_from(&["apple-mail", "accounts"]).unwrap();
    assert!(MutationPreview::from_command(cli.command()).is_none());
}

#[test]
fn string_literals_escape_quotes_backslashes_and_control_characters() {
    let text = JsonValue::String("\"\\\u{8}\t\n\u{c}\r\u{1f}\u{7f}é/".to_string());
    assert_eq!(json_text(&text), "\"\\\"\\\\\\b\\t\\n\\f\\r\\u001f\u{7f}é/\"");
    assert_eq!(json_text(&JsonValue::String(String::new())), "\"\"");
}

#[test]
fn an_execute_flag_anywhere_among_the_options_executes() {
    for args in [
        &["apple-mail", "mark-read", "--execute", "--account", "a", "--mailbox", "m", "--id", "1"][..],
        &["apple-mail", "move", "--account", "a", "--execute", "--mailbox", "m", "--id", "1", "--to", "t"][..],
    ] {
        let cli = Cli::try_parse_from(args).expect("command should parse");
        assert!(MutationPreview::from_command(cli.command()).is_none());
    }
}
