//! The requests that go to Mail and the previews of mutations.
use vstd::prelude::*;
use crate::cli::{effective_body_bound, Command, CommandModel, LocatorModel};
use crate::json::{entry_views, json_number, json_object, json_string, push_member, JsonTree, JsonValue};
use crate::text::decimal_text;

verus! {

/// One request to the Mail bridge.
#[derive(Debug)]
pub enum MailRequest<'a> {
    Accounts,
    Mailboxes { account: &'a str },
    Unread { account: Option<&'a str>, limit: u16 },
    Search { query: &'a str, account: Option<&'a str>, mailbox: Option<&'a str>, limit: u16 },
    Get {
        account: &'a str,
        mailbox: &'a str,
        id: u64,
        include_body: bool,
        max_body_bytes: Option<u32>,
    },
    MarkRead { account: &'a str, mailbox: &'a str, id: u64 },
    Move { account: &'a str, mailbox: &'a str, id: u64, destination: &'a str },
}

/// The model of a request.
pub enum RequestModel {
    Accounts,
    Mailboxes { account: Seq<char> },
    Unread { account: Option<Seq<char>>, limit: u16 },
    Search { query: Seq<char>, account: Option<Seq<char>>, mailbox: Option<Seq<char>>, limit: u16 },
    Get {
        account: Seq<char>,
        mailbox: Seq<char>,
        id: u64,
        include_body: bool,
        max_body_bytes: Option<u32>,
    },
    MarkRead { account: Seq<char>, mailbox: Seq<char>, id: u64 },
    Move { account: Seq<char>, mailbox: Seq<char>, id: u64, destination: Seq<char> },
}

pub open spec fn optional_view(o: Option<&str>) -> Option<Seq<char>> {
    match o {
        Some(s) => Some(s@),
        None => None,
    }
}

impl<'a> View for MailRequest<'a> {
    type V = RequestModel;

    open spec fn view(&self) -> RequestModel {
        match *self {
            MailRequest::Accounts => RequestModel::Accounts,
            MailRequest::Mailboxes { account } => RequestModel::Mailboxes { account: account@ },
            MailRequest::Unread { account, limit } => RequestModel::Unread {
                account: optional_view(account),
                limit,
            },
            MailRequest::Search { query, account, mailbox, limit } => RequestModel::Search {
                query: query@,
                account: optional_view(account),
                mailbox: optional_view(mailbox),
                limit,
            },
            MailRequest::Get { account, mailbox, id, include_body, max_body_bytes } =>
                RequestModel::Get {
                account: account@,
                mailbox: mailbox@,
                id,
                include_body,
                max_body_bytes,
            },
            MailRequest::MarkRead { account, mailbox, id } => RequestModel::MarkRead {
                account: account@,
                mailbox: mailbox@,
                id,
            },
            MailRequest::Move { account, mailbox, id, destination } => RequestModel::Move {
                account: account@,
                mailbox: mailbox@,
                id,
                destination: destination@,
            },
        }
    }
}

/// The request that a command sends to Mail.
pub open spec fn request_of(c: CommandModel) -> RequestModel {
    match c {
        CommandModel::Accounts => RequestModel::Accounts,
        CommandModel::Mailboxes(args) => RequestModel::Mailboxes { account: args.account },
        CommandModel::Unread(args) => RequestModel::Unread { account: args.account, limit: args.limit },
        CommandModel::Search(args) => RequestModel::Search {
            query: args.query,
            account: args.account,
            mailbox: args.mailbox,
            limit: args.limit,
        },
        CommandModel::Get(args) => RequestModel::Get {
            account: args.locator.account,
            mailbox: args.locator.mailbox,
            id: args.locator.id,
            include_body: args.include_body,
            max_body_bytes: effective_body_bound(args.include_body, args.max_body_bytes),
        },
        CommandModel::MarkRead(args) => RequestModel::MarkRead {
            account: args.locator.account,
            mailbox: args.locator.mailbox,
            id: args.locator.id,
        },
        CommandModel::Move(args) => RequestModel::Move {
            account: args.locator.account,
            mailbox: args.locator.mailbox,
            id: args.locator.id,
            destination: args.destination,
        },
    }
}

/// A member whose value is a string.
pub open spec fn text_member(key: Seq<char>, value: Seq<char>) -> (Seq<char>, JsonTree) {
    (key, JsonTree::Str(value))
}

/// A member whose value is a number.
pub open spec fn number_member(key: Seq<char>, value: nat) -> (Seq<char>, JsonTree) {
    (key, JsonTree::Number(decimal_text(value)))
}

/// The member for an optional string: none when it is absent.
pub open spec fn optional_text_member(key: Seq<char>, value: Option<Seq<char>>) -> Seq<(Seq<char>, JsonTree)> {
    match value {
        Some(v) => seq![text_member(key, v)],
        None => seq![],
    }
}

/// The JSON document of a request: the action first, then the arguments in
/// the order of their declaration; absent optional arguments are left out.
pub open spec fn request_tree(r: RequestModel) -> JsonTree {
    JsonTree::Object(
        match r {
            RequestModel::Accounts => seq![text_member("action"@, "accounts"@)],
            RequestModel::Mailboxes { account } => seq![
                text_member("action"@, "mailboxes"@),
                text_member("account"@, account),
            ],
            RequestModel::Unread { account, limit } => seq![text_member("action"@, "unread"@)]
                + optional_text_member("account"@, account) + seq![
                number_member("limit"@, limit as nat),
            ],
            RequestModel::Search { query, account, mailbox, limit } => seq![
                text_member("action"@, "search"@),
                text_member("query"@, query),
            ] + optional_text_member("account"@, account) + optional_text_member(
                "mailbox"@,
                mailbox,
            ) + seq![number_member("limit"@, limit as nat)],
            RequestModel::Get { account, mailbox, id, include_body, max_body_bytes } => seq![
                text_member("action"@, "get"@),
                text_member("account"@, account),
                text_member("mailbox"@, mailbox),
                number_member("id"@, id as nat),
                ("include_body"@, JsonTree::Bool(include_body)),
            ] + match max_body_bytes {
                Some(bound) => seq![number_member("max_body_bytes"@, bound as nat)],
                None => seq![],
            },
            RequestModel::MarkRead { account, mailbox, id } => seq![
                text_member("action"@, "mark-read"@),
                text_member("account"@, account),
                text_member("mailbox"@, mailbox),
                number_member("id"@, id as nat),
            ],
            RequestModel::Move { account, mailbox, id, destination } => seq![
                text_member("action"@, "move"@),
                text_member("account"@, account),
                text_member("mailbox"@, mailbox),
                number_member("id"@, id as nat),
                text_member("destination"@, destination),
            ],
        },
    )
}

fn push_text(entries: &mut Vec<(String, JsonValue)>, key: &str, value: &str)
    ensures
        entry_views(final(entries)@) == entry_views(old(entries)@).push(text_member(key@, value@)),
{
    push_member(entries, key, json_string(value));
}

fn push_number(entries: &mut Vec<(String, JsonValue)>, key: &str, value: u64)
    ensures
        entry_views(final(entries)@) == entry_views(old(entries)@).push(
            number_member(key@, value as nat),
        ),
{
    push_member(entries, key, json_number(value));
}

fn push_optional_text(entries: &mut Vec<(String, JsonValue)>, key: &str, value: Option<&str>)
    ensures
        entry_views(final(entries)@) == entry_views(old(entries)@) + optional_text_member(
            key@,
            optional_view(value),
        ),
{
    match value {
        Some(v) => {
            push_text(entries, key, v);
        },
        None => {
            assert(entry_views(entries@) =~= entry_views(entries@) + seq![]);
        },
    }
}

impl<'a> MailRequest<'a> {
    /// The request that `command` sends to Mail.
    pub fn from(command: &'a Command) -> (r: MailRequest<'a>)
        ensures
            r@ == request_of(command@),
    {
        match command {
            Command::Accounts => MailRequest::Accounts,
            Command::Mailboxes(args) => MailRequest::Mailboxes { account: args.account() },
            Command::Unread(args) => MailRequest::Unread { account: args.account(), limit: args.limit() },
            Command::Search(args) => MailRequest::Search {
                query: args.query(),
                account: args.account(),
                mailbox: args.mailbox(),
                limit: args.limit(),
            },
            Command::Get(args) => MailRequest::Get {
                account: args.locator().account(),
                mailbox: args.locator().mailbox(),
                id: args.locator().id(),
                include_body: args.include_body(),
                max_body_bytes: args.max_body_bytes(),
            },
            Command::MarkRead(args) => MailRequest::MarkRead {
                account: args.locator().account(),
                mailbox: args.locator().mailbox(),
                id: args.locator().id(),
            },
            Command::Move(args) => MailRequest::Move {
                account: args.locator().account(),
                mailbox: args.locator().mailbox(),
                id: args.locator().id(),
                destination: args.destination(),
            },
        }
    }

    /// The JSON document of this request.
    pub fn to_json(&self) -> (r: JsonValue)
        ensures
            r@ == request_tree(self@),
    {
        let mut entries: Vec<(String, JsonValue)> = Vec::new();
        let ghost start = entry_views(entries@);
        assert(start =~= seq![]);
        match *self {
            MailRequest::Accounts => {
                push_text(&mut entries, "action", "accounts");
            },
            MailRequest::Mailboxes { account } => {
                push_text(&mut entries, "action", "mailboxes");
                push_text(&mut entries, "account", account);
            },
            MailRequest::Unread { account, limit } => {
                push_text(&mut entries, "action", "unread");
                push_optional_text(&mut entries, "account", account);
                push_number(&mut entries, "limit", limit as u64);
            },
            MailRequest::Search { query, account, mailbox, limit } => {
                push_text(&mut entries, "action", "search");
                push_text(&mut entries, "query", query);
                push_optional_text(&mut entries, "account", account);
                push_optional_text(&mut entries, "mailbox", mailbox);
                push_number(&mut entries, "limit", limit as u64);
            },
            MailRequest::Get { account, mailbox, id, include_body, max_body_bytes } => {
                push_text(&mut entries, "action", "get");
                push_text(&mut entries, "account", account);
                push_text(&mut entries, "mailbox", mailbox);
                push_number(&mut entries, "id", id);
                push_member(&mut entries, "include_body", JsonValue::Bool(include_body));
                match max_body_bytes {
                    Some(bound) => {
                        push_number(&mut entries, "max_body_bytes", bound as u64);
                    },
                    None => {},
                }
            },
            MailRequest::MarkRead { account, mailbox, id } => {
                push_text(&mut entries, "action", "mark-read");
                push_text(&mut entries, "account", account);
                push_text(&mut entries, "mailbox", mailbox);
                push_number(&mut entries, "id", id);
            },
            MailRequest::Move { account, mailbox, id, destination } => {
                push_text(&mut entries, "action", "move");
                push_text(&mut entries, "account", account);
                push_text(&mut entries, "mailbox", mailbox);
                push_number(&mut entries, "id", id);
                push_text(&mut entries, "destination", destination);
            },
        }
        let ghost views = entry_views(entries@);
        assert(views =~= request_tree(self@)->Object_0);
        json_object(entries)
    }
}


/// A mutation that was asked for without `--execute`: what would change.
#[derive(Debug)]
pub enum MutationPreview<'a> {
    MarkRead { account: &'a str, mailbox: &'a str, id: u64 },
    Move { account: &'a str, mailbox: &'a str, id: u64, destination: &'a str },
}

/// The model of a mutation preview.
pub enum PreviewModel {
    MarkRead { account: Seq<char>, mailbox: Seq<char>, id: u64 },
    Move { account: Seq<char>, mailbox: Seq<char>, id: u64, destination: Seq<char> },
}

impl<'a> View for MutationPreview<'a> {
    type V = PreviewModel;

    open spec fn view(&self) -> PreviewModel {
        match *self {
            MutationPreview::MarkRead { account, mailbox, id } => PreviewModel::MarkRead {
                account: account@,
                mailbox: mailbox@,
                id,
            },
            MutationPreview::Move { account, mailbox, id, destination } => PreviewModel::Move {
                account: account@,
                mailbox: mailbox@,
                id,
                destination: destination@,
            },
        }
    }
}

/// The preview that a command shows: only mutations asked for without
/// `--execute` have one.
pub open spec fn preview_of(c: CommandModel) -> Option<PreviewModel> {
    match c {
        CommandModel::MarkRead(args) => if args.execute {
            None
        } else {
            Some(
                PreviewModel::MarkRead {
                    account: args.locator.account,
                    mailbox: args.locator.mailbox,
                    id: args.locator.id,
                },
            )
        },
        CommandModel::Move(args) => if args.execute {
            None
        } else {
            Some(
                PreviewModel::Move {
                    account: args.locator.account,
                    mailbox: args.locator.mailbox,
                    id: args.locator.id,
                    destination: args.destination,
                },
            )
        },
        _ => None,
    }
}

pub open spec fn optional_preview_view(p: Option<MutationPreview>) -> Option<PreviewModel> {
    match p {
        Some(p) => Some(p@),
        None => None,
    }
}

/// The JSON document of a preview, its members in the order of their keys.
pub open spec fn preview_tree(p: PreviewModel) -> JsonTree {
    JsonTree::Object(
        match p {
            PreviewModel::MarkRead { account, mailbox, id } => seq![
                text_member("account"@, account),
                text_member("action"@, "mark-read"@),
                number_member("id"@, id as nat),
                text_member("mailbox"@, mailbox),
            ],
            PreviewModel::Move { account, mailbox, id, destination } => seq![
                text_member("account"@, account),
                text_member("action"@, "move"@),
                text_member("destination"@, destination),
                number_member("id"@, id as nat),
                text_member("mailbox"@, mailbox),
            ],
        },
    )
}

impl<'a> MutationPreview<'a> {
    /// The preview of `command`: present for `mark-read` and `move` without
    /// `--execute`, absent otherwise.
    pub fn from_command(command: &'a Command) -> (r: Option<MutationPreview<'a>>)
        ensures
            optional_preview_view(r) == preview_of(command@),
    {
        match command {
            Command::MarkRead(args) => {
                if args.execute() {
                    None
                } else {
                    Some(
                        MutationPreview::MarkRead {
                            account: args.locator().account(),
                            mailbox: args.locator().mailbox(),
                            id: args.locator().id(),
                        },
                    )
                }
            },
            Command::Move(args) => {
                if args.execute() {
                    None
                } else {
                    Some(
                        MutationPreview::Move {
                            account: args.locator().account(),
                            mailbox: args.locator().mailbox(),
                            id: args.locator().id(),
                            destination: args.destination(),
                        },
                    )
                }
            },
            _ => None,
        }
    }

    /// The JSON document of this preview.
    pub fn to_json(&self) -> (r: JsonValue)
        ensures
            r@ == preview_tree(self@),
    {
        let mut entries: Vec<(String, JsonValue)> = Vec::new();
        let ghost start = entry_views(entries@);
        assert(start =~= seq![]);
        match *self {
            MutationPreview::MarkRead { account, mailbox, id } => {
                push_text(&mut entries, "account", account);
                push_text(&mut entries, "action", "mark-read");
                push_number(&mut entries, "id", id);
                push_text(&mut entries, "mailbox", mailbox);
            },
            MutationPreview::Move { account, mailbox, id, destination } => {
                push_text(&mut entries, "account", account);
                push_text(&mut entries, "action", "move");
                push_text(&mut entries, "destination", destination);
                push_number(&mut entries, "id", id);
                push_text(&mut entries, "mailbox", mailbox);
            },
        }
        let ghost views = entry_views(entries@);
        assert(views =~= preview_tree(self@)->Object_0);
        json_object(entries)
    }
}

} // verus!
