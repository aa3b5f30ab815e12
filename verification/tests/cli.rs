use apple_mail_cli::cli::{BoundedText, Cli, Command, ErrorKind};
use apple_mail_cli::json::JsonValue;
use apple_mail_cli::request::MailRequest;

fn text(value: &str) -> JsonValue {
    JsonValue::String(value.to_string())
}

fn number(value: u64) -> JsonValue {
    JsonValue::Number(value.to_string())
}

fn object(entries: Vec<(&str, JsonValue)>) -> JsonValue {
    JsonValue::Object(entries.into_iter().map(|(k, v)| (k.to_string(), v)).collect())
}

fn request_of(args: &[&str]) -> JsonValue {
    let cli = Cli::try_parse_from(args).expect("command should parse");
    MailRequest::from(cli.command()).to_json()
}

fn error_of(args: &[&str]) -> ErrorKind {
    Cli::try_parse_from(args).expect_err("command should be rejected").kind()
}

#[test]
fn accounts_command_is_accepted_without_options() {
    let cli =
        Cli::try_parse_from(&["apple-mail", "accounts"]).expect("accounts command should parse");

    assert!(matches!(cli.command(), Command::Accounts));
}

#[test]
fn mailboxes_command_requires_an_account_identifier() {
    let cli = Cli::try_parse_from(&["apple-mail", "mailboxes", "--account", "account-1"])
        .expect("mailboxes command should parse with an account identifier");

    assert!(matches!(cli.command(), Command::Mailboxes(_)));
}

#[test]
fn unread_command_defaults_to_twenty_five_messages() {
    let cli = Cli::try_parse_from(&["apple-mail", "unread"])
        .expect("unread command should parse without options");
    let Command::Unread(args) = cli.command() else {
        panic!("expected unread command");
    };

    assert_eq!(args.limit(), 25);
}

#[test]
fn unread_command_rejects_a_limit_above_two_hundred() {
    let error = Cli::try_parse_from(&["apple-mail", "unread", "--limit", "201"])
        .expect_err("an unbounded unread request must be rejected");

    assert_eq!(error.kind(), ErrorKind::ValueValidation);
}

#[test]
fn search_command_accepts_a_query_and_optional_scope() {
    let cli = Cli::try_parse_from(&[
        "apple-mail",
        "search",
        "release notes",
        "--account",
        "account-1",
        "--mailbox",
        "Inbox/Project",
        "--limit",
        "10",
    ])
    .expect("search command should parse with a bounded scope");

    assert!(matches!(cli.command(), Command::Search(_)));
}

#[test]
fn search_command_rejects_a_query_above_the_bridge_limit() {
    let query = "x".repeat(1_025);
    let error = Cli::try_parse_from(&["apple-mail", "search", &query])
        .expect_err("an oversized query must be rejected before spawning the bridge");

    assert_eq!(error.kind(), ErrorKind::ValueValidation);
}

#[test]
fn get_command_requires_a_complete_message_locator() {
    let cli = Cli::try_parse_from(&[
        "apple-mail",
        "get",
        "--account",
        "account-1",
        "--mailbox",
        "Inbox",
        "--id",
        "42",
    ])
    .expect("get command should parse with a complete message locator");

    assert!(matches!(cli.command(), Command::Get(_)));
}

#[test]
fn mark_read_command_requires_a_complete_message_locator() {
    let cli = Cli::try_parse_from(&[
        "apple-mail",
        "mark-read",
        "--account",
        "account-1",
        "--mailbox",
        "Inbox",
        "--id",
        "42",
    ])
    .expect("mark-read command should parse with a complete message locator");

    assert!(matches!(cli.command(), Command::MarkRead(_)));
}

#[test]
fn move_command_requires_an_explicit_destination_mailbox() {
    let cli = Cli::try_parse_from(&[
        "apple-mail",
        "move",
        "--account",
        "account-1",
        "--mailbox",
        "Inbox",
        "--id",
        "42",
        "--to",
        "Archive",
    ])
    .expect("move command should parse with an explicit destination");

    assert!(matches!(cli.command(), Command::Move(_)));
}

#[test]
fn accounts_command_maps_to_the_accounts_bridge_request() {
    let request = request_of(&["apple-mail", "accounts"]);

    assert_eq!(request, object(vec![("action", text("accounts"))]));
}

#[test]
fn mailboxes_command_maps_its_account_to_the_bridge_request() {
    let request = request_of(&["apple-mail", "mailboxes", "--account", "account-1"]);

    assert_eq!(
        request,
        object(vec![("action", text("mailboxes")), ("account", text("account-1"))]),
    );
}

#[test]
fn unread_command_omits_an_unspecified_account_from_the_bridge_request() {
    let request = request_of(&["apple-mail", "unread"]);

    assert_eq!(
        request,
        object(vec![("action", text("unread")), ("limit", number(25))]),
    );
}

#[test]
fn search_command_maps_query_scope_and_limit_to_the_bridge_request() {
    let request = request_of(&[
        "apple-mail",
        "search",
        "release notes",
        "--account",
        "account-1",
        "--mailbox",
        "Inbox/Project",
        "--limit",
        "10",
    ]);

    assert_eq!(
        request,
        object(vec![
            ("action", text("search")),
            ("query", text("release notes")),
            ("account", text("account-1")),
            ("mailbox", text("Inbox/Project")),
            ("limit", number(10)),
        ]),
    );
}

#[test]
fn get_command_omits_the_message_body_by_default() {
    let request = request_of(&[
        "apple-mail",
        "get",
        "--account",
        "account-1",
        "--mailbox",
        "Inbox",
        "--id",
        "42",
    ]);

    assert_eq!(
        request,
        object(vec![
            ("action", text("get")),
            ("account", text("account-1")),
            ("mailbox", text("Inbox")),
            ("id", number(42)),
            ("include_body", JsonValue::Bool(false)),
        ]),
    );
}

#[test]
fn get_command_includes_a_bounded_body_only_when_requested() {
    let request = request_of(&[
        "apple-mail",
        "get",
        "--account",
        "account-1",
        "--mailbox",
        "Inbox",
        "--id",
        "42",
        "--include-body",
        "--max-body-bytes",
        "4096",
    ]);

    assert_eq!(
        request,
        object(vec![
            ("action", text("get")),
            ("account", text("account-1")),
            ("mailbox", text("Inbox")),
            ("id", number(42)),
            ("include_body", JsonValue::Bool(true)),
            ("max_body_bytes", number(4096)),
        ]),
    );
}

#[test]
fn get_command_bounds_an_explicit_body_when_no_bound_is_supplied() {
    let request = request_of(&[
        "apple-mail",
        "get",
        "--account",
        "account-1",
        "--mailbox",
        "Inbox",
        "--id",
        "42",
        "--include-body",
    ]);

    assert_eq!(
        request,
        object(vec![
            ("action", text("get")),
            ("account", text("account-1")),
            ("mailbox", text("Inbox")),
            ("id", number(42)),
            ("include_body", JsonValue::Bool(true)),
            ("max_body_bytes", number(65_536)),
        ]),
    );
}

#[test]
fn get_command_rejects_a_body_bound_without_body_access() {
    let error = Cli::try_parse_from(&[
        "apple-mail",
        "get",
        "--account",
        "account-1",
        "--mailbox",
        "Inbox",
        "--id",
        "42",
        "--max-body-bytes",
        "4096",
    ])
    .expect_err("a body bound without body access must be rejected");

    assert_eq!(error.kind(), ErrorKind::MissingRequiredArgument);
}

#[test]
fn executing_mark_read_maps_its_locator_to_the_bridge_request() {
    let request = request_of(&[
        "apple-mail",
        "mark-read",
        "--account",
        "account-1",
        "--mailbox",
        "Inbox",
        "--id",
        "42",
        "--execute",
    ]);

    assert_eq!(
        request,
        object(vec![
            ("action", text("mark-read")),
            ("account", text("account-1")),
            ("mailbox", text("Inbox")),
            ("id", number(42)),
        ]),
    );
}

#[test]
fn executing_move_maps_locator_and_destination_to_the_bridge_request() {
    let request = request_of(&[
        "apple-mail",
        "move",
        "--account",
        "account-1",
        "--mailbox",
        "Inbox",
        "--id",
        "42",
        "--to",
        "Archive/2026",
        "--execute",
    ]);

    assert_eq!(
        request,
        object(vec![
            ("action", text("move")),
            ("account", text("account-1")),
            ("mailbox", text("Inbox")),
            ("id", number(42)),
            ("destination", text("Archive/2026")),
        ]),
    );
}

#[test]
fn a_missing_command_asks_for_help() {
    assert_eq!(error_of(&["apple-mail"]), ErrorKind::DisplayHelpOnMissingArgumentOrSubcommand);
    assert_eq!(error_of(&[]), ErrorKind::DisplayHelpOnMissingArgumentOrSubcommand);
}

#[test]
fn top_level_arguments_are_classified() {
    assert_eq!(error_of(&["apple-mail", "help"]), ErrorKind::DisplayHelp);
    assert_eq!(error_of(&["apple-mail", "--help"]), ErrorKind::DisplayHelp);
    assert_eq!(error_of(&["apple-mail", "-h"]), ErrorKind::DisplayHelp);
    assert_eq!(error_of(&["apple-mail", "--version"]), ErrorKind::DisplayVersion);
    assert_eq!(error_of(&["apple-mail", "-V"]), ErrorKind::DisplayVersion);
    assert_eq!(error_of(&["apple-mail", "--help=x"]), ErrorKind::TooManyValues);
    assert_eq!(error_of(&["apple-mail", "--bogus"]), ErrorKind::UnknownArgument);
    assert_eq!(error_of(&["apple-mail", "-x"]), ErrorKind::UnknownArgument);
    assert_eq!(error_of(&["apple-mail", "send"]), ErrorKind::InvalidSubcommand);
    assert_eq!(error_of(&["apple-mail", "-"]), ErrorKind::InvalidSubcommand);
}

#[test]
fn command_arguments_are_classified() {
    assert_eq!(error_of(&["apple-mail", "accounts", "--account", "a"]), ErrorKind::UnknownArgument);
    assert_eq!(error_of(&["apple-mail", "accounts", "extra"]), ErrorKind::UnknownArgument);
    assert_eq!(error_of(&["apple-mail", "unread", "-h"]), ErrorKind::DisplayHelp);
    assert_eq!(error_of(&["apple-mail", "unread", "--help"]), ErrorKind::DisplayHelp);
    assert_eq!(error_of(&["apple-mail", "unread", "-V"]), ErrorKind::UnknownArgument);
    assert_eq!(error_of(&["apple-mail", "unread", "--limit"]), ErrorKind::InvalidValue);
    assert_eq!(error_of(&["apple-mail", "unread", "--limit", "--account"]), ErrorKind::InvalidValue);
    assert_eq!(error_of(&["apple-mail", "unread", "--limit", "0"]), ErrorKind::ValueValidation);
    assert_eq!(error_of(&["apple-mail", "unread", "--limit", "ten"]), ErrorKind::ValueValidation);
    assert_eq!(error_of(&["apple-mail", "unread", "--limit", "-5"]), ErrorKind::InvalidValue);
    assert_eq!(error_of(&["apple-mail", "unread", "--limit=-5"]), ErrorKind::ValueValidation);
    assert_eq!(
        error_of(&["apple-mail", "unread", "--limit", "5", "--limit", "6"]),
        ErrorKind::ArgumentConflict,
    );
    assert_eq!(
        error_of(&["apple-mail", "mark-read", "--execute", "--execute"]),
        ErrorKind::ArgumentConflict,
    );
    assert_eq!(error_of(&["apple-mail", "mark-read", "--execute=yes"]), ErrorKind::TooManyValues);
    assert_eq!(error_of(&["apple-mail", "unread", "--account", ""]), ErrorKind::ValueValidation);
    assert_eq!(
        error_of(&["apple-mail", "search", "q", "--mailbox", "Inbox"]),
        ErrorKind::MissingRequiredArgument,
    );
    assert_eq!(error_of(&["apple-mail", "search"]), ErrorKind::MissingRequiredArgument);
    assert_eq!(error_of(&["apple-mail", "search", "a", "b"]), ErrorKind::UnknownArgument);
    assert_eq!(
        error_of(&["apple-mail", "move", "--account", "a", "--mailbox", "m", "--id", "1"]),
        ErrorKind::MissingRequiredArgument,
    );
    assert_eq!(
        error_of(&["apple-mail", "get", "--account", "a", "--mailbox", "m", "--id", "18446744073709551616"]),
        ErrorKind::ValueValidation,
    );
}

#[test]
fn attached_values_signs_and_escapes_are_accepted() {
    let request = request_of(&[
        "apple-mail",
        "search",
        "--limit=+7",
        "--account=a=b",
        "--",
        "--not-an-option",
    ]);

    assert_eq!(
        request,
        object(vec![
            ("action", text("search")),
            ("query", text("--not-an-option")),
            ("account", text("a=b")),
            ("limit", number(7)),
        ]),
    );

    let request = request_of(&["apple-mail", "mailboxes", "--account", "-"]);
    assert_eq!(request, object(vec![("action", text("mailboxes")), ("account", text("-"))]));

    let request = request_of(&[
        "apple-mail",
        "get",
        "--id",
        "18446744073709551615",
        "--account",
        "a",
        "--mailbox",
        "m",
    ]);
    assert_eq!(
        request,
        object(vec![
            ("action", text("get")),
            ("account", text("a")),
            ("mailbox", text("m")),
            ("id", number(u64::MAX)),
            ("include_body", JsonValue::Bool(false)),
        ]),
    );
}

#[test]
fn text_bounds_count_utf8_bytes() {
    let at_limit = "é".repeat(512);
    assert!(Cli::try_parse_from(&["apple-mail", "mailboxes", "--account", &at_limit]).is_ok());
    let above_limit = format!("{at_limit}x");
    assert_eq!(
        error_of(&["apple-mail", "mailboxes", "--account", &above_limit]),
        ErrorKind::ValueValidation,
    );
    let mailbox = "m".repeat(4_096);
    assert!(Cli::try_parse_from(&["apple-mail", "search", "q", "--account", "a", "--mailbox", &mailbox]).is_ok());
}

#[test]
fn getters_report_the_parsed_arguments() {
    let cli = Cli::try_parse_from(&[
        "apple-mail", "get", "--account", "acc", "--mailbox", "box", "--id", "7", "--include-body",
    ])
    .expect("get should parse");
    let Command::Get(args) = cli.command() else {
        panic!("expected get command");
    };
    assert_eq!(args.locator().account(), "acc");
    assert_eq!(args.locator().mailbox(), "box");
    assert_eq!(args.locator().id(), 7);
    assert!(args.include_body());
    assert_eq!(args.max_body_bytes(), Some(65_536));

    let cli = Cli::try_parse_from(&["apple-mail", "search", "q", "--account", "a", "--mailbox", "m"])
        .expect("search should parse");
    let Command::Search(args) = cli.command() else {
        panic!("expected search command");
    };
    assert_eq!(args.query(), "q");
    assert_eq!(args.account(), Some("a"));
    assert_eq!(args.mailbox(), Some("m"));
    assert_eq!(args.limit(), 25);

    let cli = Cli::try_parse_from(&[
        "apple-mail", "move", "--account", "a", "--mailbox", "m", "--id", "3", "--to", "Archive", "--execute",
    ])
    .expect("move should parse");
    let Command::Move(args) = cli.command() else {
        panic!("expected move command");
    };
    assert_eq!(args.destination(), "Archive");
    assert!(args.execute());
}

#[test]
fn bounded_text_reports_why_it_refuses_a_value() {
    assert_eq!(BoundedText::<4>::parse("").unwrap_err(), "value must not be empty");
    assert_eq!(BoundedText::<4>::parse("abcde").unwrap_err(), "value must not exceed 4 bytes");
    assert_eq!(BoundedText::<4>::parse("abcd").unwrap().as_str(), "abcd");
    assert_eq!(
        BoundedText::<1024>::parse(&"y".repeat(1025)).unwrap_err(),
        "value must not exceed 1024 bytes",
    );
}
