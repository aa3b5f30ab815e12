//! What the results of the library are, stated over all inputs in terms of
//! the inputs themselves: the members of a request, the exit code of an
//! error, the reading of a finished process, the parse of a command line
//! and the rendering of a document.
use vstd::prelude::*;
use vstd::utf8::{decode_utf8, valid_utf8};
use crate::application::{envelope_check, exit_code_of, message_fits, ApplicationError};
use crate::output::error_envelope_of;
use crate::bridge::{BridgeError, BridgeErrorModel};
use crate::cli::{effective_body_bound, CommandModel, DEFAULT_MAX_BODY_BYTES};
use crate::json::JsonTree;
use crate::osascript::{process_outcome, MAX_STDERR_BYTES, MAX_STDOUT_BYTES};
use crate::request::{number_member, optional_text_member, request_of, request_tree, text_member};
use crate::text::decimal_text;

verus! {

/// The string document of an optional text, if there is one.
pub open spec fn optional_str(o: Option<Seq<char>>) -> Option<JsonTree> {
    match o {
        Some(t) => Some(JsonTree::Str(t)),
        None => None,
    }
}

/// The number document of an unsigned integer, in base ten.
pub open spec fn number_doc(n: nat) -> Option<JsonTree> {
    Some(JsonTree::Number(decimal_text(n)))
}

/// The member `key` of the request that command `c` sends.
pub open spec fn request_member(c: CommandModel, key: Seq<char>) -> Option<JsonTree> {
    request_tree(request_of(c)).member(key)
}

/// The number of members of the request that command `c` sends.
pub open spec fn request_size(c: CommandModel) -> nat {
    request_tree(request_of(c))->Object_0.len()
}

/// The number of present values among two options.
pub open spec fn present(a: Option<Seq<char>>, b: Option<Seq<char>>) -> nat {
    (if a is Some { 1nat } else { 0nat }) + (if b is Some { 1nat } else { 0nat })
}

/// The member names of requests differ from one another.
proof fn lemma_request_keys_differ()
    ensures
        "action"@ != "account"@,
        "action"@ != "mailbox"@,
        "action"@ != "limit"@,
        "action"@ != "query"@,
        "action"@ != "id"@,
        "action"@ != "include_body"@,
        "action"@ != "max_body_bytes"@,
        "action"@ != "destination"@,
        "account"@ != "mailbox"@,
        "account"@ != "limit"@,
        "account"@ != "query"@,
        "account"@ != "id"@,
        "account"@ != "include_body"@,
        "account"@ != "max_body_bytes"@,
        "account"@ != "destination"@,
        "mailbox"@ != "limit"@,
        "mailbox"@ != "query"@,
        "mailbox"@ != "id"@,
        "mailbox"@ != "include_body"@,
        "mailbox"@ != "max_body_bytes"@,
        "mailbox"@ != "destination"@,
        "query"@ != "limit"@,
        "id"@ != "include_body"@,
        "id"@ != "max_body_bytes"@,
        "id"@ != "destination"@,
        "include_body"@ != "max_body_bytes"@,
{
    reveal_strlit("action");
    reveal_strlit("account");
    reveal_strlit("mailbox");
    reveal_strlit("limit");
    reveal_strlit("query");
    reveal_strlit("id");
    reveal_strlit("include_body");
    reveal_strlit("max_body_bytes");
    reveal_strlit("destination");
    assert("action"@.len() == 6);
    assert("account"@.len() == 7);
    assert("mailbox"@.len() == 7);
    assert("limit"@.len() == 5);
    assert("query"@.len() == 5);
    assert("id"@.len() == 2);
    assert("include_body"@.len() == 12);
    assert("max_body_bytes"@.len() == 14);
    assert("destination"@.len() == 11);
    assert("account"@[0] != "mailbox"@[0]);
    assert("query"@[0] != "limit"@[0]);
}

/// Law: a request carries every argument of its command. Its `action` names
/// the command; each argument the command holds is a member with that
/// argument's value (texts as strings, numbers in base ten); an absent
/// optional argument is no member; and there is no other member.
pub proof fn law_request_carries_the_arguments(c: CommandModel)
    ensures
        request_member(c, "action"@) == Some(JsonTree::Str(
            match c {
                CommandModel::Accounts => "accounts"@,
                CommandModel::Mailboxes(_) => "mailboxes"@,
                CommandModel::Unread(_) => "unread"@,
                CommandModel::Search(_) => "search"@,
                CommandModel::Get(_) => "get"@,
                CommandModel::MarkRead(_) => "mark-read"@,
                CommandModel::Move(_) => "move"@,
            },
        )),
        match c {
            CommandModel::Accounts => request_size(c) == 1,
            CommandModel::Mailboxes(a) => {
                &&& request_member(c, "account"@) == Some(JsonTree::Str(a.account))
                &&& request_size(c) == 2
            },
            CommandModel::Unread(a) => {
                &&& request_member(c, "account"@) == optional_str(a.account)
                &&& request_member(c, "limit"@) == number_doc(a.limit as nat)
                &&& request_size(c) == 2 + present(a.account, None)
            },
            CommandModel::Search(a) => {
                &&& request_member(c, "query"@) == Some(JsonTree::Str(a.query))
                &&& request_member(c, "account"@) == optional_str(a.account)
                &&& request_member(c, "mailbox"@) == optional_str(a.mailbox)
                &&& request_member(c, "limit"@) == number_doc(a.limit as nat)
                &&& request_size(c) == 3 + present(a.account, a.mailbox)
            },
            CommandModel::Get(a) => {
                &&& request_member(c, "account"@) == Some(JsonTree::Str(a.locator.account))
                &&& request_member(c, "mailbox"@) == Some(JsonTree::Str(a.locator.mailbox))
                &&& request_member(c, "id"@) == number_doc(a.locator.id as nat)
                &&& request_member(c, "include_body"@) == Some(JsonTree::Bool(a.include_body))
                &&& request_member(c, "max_body_bytes"@) == if a.include_body {
                    number_doc(
                        match a.max_body_bytes {
                            Some(b) => b as nat,
                            None => DEFAULT_MAX_BODY_BYTES as nat,
                        },
                    )
                } else {
                    None
                }
                &&& request_size(c) == if a.include_body { 6nat } else { 5nat }
            },
            CommandModel::MarkRead(a) => {
                &&& request_member(c, "account"@) == Some(JsonTree::Str(a.locator.account))
                &&& request_member(c, "mailbox"@) == Some(JsonTree::Str(a.locator.mailbox))
                &&& request_member(c, "id"@) == number_doc(a.locator.id as nat)
                &&& request_size(c) == 4
            },
            CommandModel::Move(a) => {
                &&& request_member(c, "account"@) == Some(JsonTree::Str(a.locator.account))
                &&& request_member(c, "mailbox"@) == Some(JsonTree::Str(a.locator.mailbox))
                &&& request_member(c, "id"@) == number_doc(a.locator.id as nat)
                &&& request_member(c, "destination"@) == Some(JsonTree::Str(a.destination))
                &&& request_size(c) == 5
            },
        },
{
    lemma_request_keys_differ();
    reveal_with_fuel(crate::json::lookup, 7);
    let e = request_tree(request_of(c))->Object_0;
    match c {
        CommandModel::Unread(a) => {
            let lim = number_member("limit"@, a.limit as nat);
            match a.account {
                Some(x) => {
                    assert(e =~= seq![text_member("action"@, "unread"@), text_member("account"@, x), lim]);
                },
                None => {
                    assert(e =~= seq![text_member("action"@, "unread"@), lim]);
                },
            }
        },
        CommandModel::Search(a) => {
            let head = seq![text_member("action"@, "search"@), text_member("query"@, a.query)];
            let lim = seq![number_member("limit"@, a.limit as nat)];
            assert(e =~= head + optional_text_member("account"@, a.account)
                + optional_text_member("mailbox"@, a.mailbox) + lim);
            match (a.account, a.mailbox) {
                (Some(x), Some(y)) => {
                    assert(e =~= seq![head[0], head[1], text_member("account"@, x), text_member("mailbox"@, y), lim[0]]);
                },
                (Some(x), None) => {
                    assert(e =~= seq![head[0], head[1], text_member("account"@, x), lim[0]]);
                },
                (None, Some(y)) => {
                    assert(e =~= seq![head[0], head[1], text_member("mailbox"@, y), lim[0]]);
                },
                (None, None) => {
                    assert(e =~= seq![head[0], head[1], lim[0]]);
                },
            }
        },
        CommandModel::Get(a) => {
            let head = seq![
                text_member("action"@, "get"@),
                text_member("account"@, a.locator.account),
                text_member("mailbox"@, a.locator.mailbox),
                number_member("id"@, a.locator.id as nat),
                ("include_body"@, JsonTree::Bool(a.include_body)),
            ];
            if a.include_body {
                let bound = effective_body_bound(a.include_body, a.max_body_bytes)->Some_0;
                assert(e =~= seq![head[0], head[1], head[2], head[3], head[4], number_member("max_body_bytes"@, bound as nat)]);
            } else {
                assert(e =~= head);
            }
        },
        _ => {},
    }
}

/// The `error.code` string of a failed Mail response.
pub open spec fn error_code(response: JsonTree) -> Option<Seq<char>> {
    match response {
        JsonTree::Object(_) => match response.member("error"@) {
            Some(JsonTree::Object(inner)) => match JsonTree::Object(inner).member("code"@) {
                Some(JsonTree::Str(code)) => Some(code),
                _ => None,
            },
            _ => None,
        },
        _ => None,
    }
}

/// Law: what each exit code means. 2 comes only from a Mail error whose
/// code is `invalid_request` or `unsupported_action`, 3 only from one whose
/// code is `permission_denied`, 4 only from a bridge timeout or a Mail error
/// whose code is `mail_timeout`; every other error exits with 5.
pub proof fn law_exit_codes(e: ApplicationError)
    ensures
        exit_code_of(e) == 2 <==> (e matches ApplicationError::Mail(v) && (error_code(v@)
            == Some("invalid_request"@) || error_code(v@) == Some("unsupported_action"@))),
        exit_code_of(e) == 3 <==> (e matches ApplicationError::Mail(v) && error_code(v@) == Some(
            "permission_denied"@,
        )),
        exit_code_of(e) == 4 <==> (e matches ApplicationError::Bridge(BridgeError::Timeout) || (
        e matches ApplicationError::Mail(v) && error_code(v@) == Some("mail_timeout"@))),
        !(e is Mail) && !(e matches ApplicationError::Bridge(BridgeError::Timeout)) ==> exit_code_of(e)
            == 5,
        2 <= exit_code_of(e) <= 5,
{
    reveal_strlit("invalid_request");
    reveal_strlit("unsupported_action");
    reveal_strlit("permission_denied");
    reveal_strlit("mail_timeout");
    if let ApplicationError::Mail(v) = e {
        let t = v@;
        assert(crate::application::mail_code(t) == error_code(t)) by {
            match t.member("error"@) {
                Some(inner) => {
                    if !(inner is Object) {
                        assert(inner.member("code"@) is None);
                    }
                },
                None => {},
            }
        }
        assert("invalid_request"@.len() == 15);
        assert("unsupported_action"@.len() == 18);
        assert("permission_denied"@.len() == 17);
        assert("mail_timeout"@.len() == 12);
    }
}

/// Law: how a finished process is read. A successful process whose output
/// is within bounds and whose standard output is UTF-8 yields the decoded
/// standard output, whatever its standard error holds; a failed process
/// within bounds yields a failure with its exit code; and a failure is
/// reported only for a process that did not succeed.
pub proof fn law_process_reading(
    success: bool,
    code: Option<i32>,
    stdout: Seq<u8>,
    stderr: Seq<u8>,
)
    ensures
        success && stdout.len() <= MAX_STDOUT_BYTES && stderr.len() <= MAX_STDERR_BYTES
            && valid_utf8(stdout) ==> process_outcome(success, code, stdout, stderr) == Ok::<
            Seq<char>,
            BridgeErrorModel,
        >(decode_utf8(stdout)),
        success && stdout.len() <= MAX_STDOUT_BYTES && stderr.len() <= MAX_STDERR_BYTES
            && !valid_utf8(stdout) ==> process_outcome(success, code, stdout, stderr)
            matches Err(BridgeErrorModel::InvalidOutput(_)),
        !success && stdout.len() <= MAX_STDOUT_BYTES && stderr.len() <= MAX_STDERR_BYTES
            ==> (process_outcome(success, code, stdout, stderr) matches Err(
            BridgeErrorModel::Failed { code: c, .. },
        ) && c == code),
        process_outcome(success, code, stdout, stderr) matches Err(BridgeErrorModel::Failed { .. })
            ==> !success,
        process_outcome(success, code, stdout, stderr) is Ok ==> success,
{
}

/// Law: what makes a response envelope. A document is accepted as an
/// envelope exactly when it is an object whose `ok` member is a boolean and
/// that has a `data` member when `ok` is true, an `error` member when it is
/// false; the verdict is the value of `ok`.
pub proof fn law_envelope_verdict(v: JsonTree, b: bool)
    ensures
        envelope_check(v) == Ok::<bool, Seq<char>>(b) <==> {
            &&& v is Object
            &&& v.member("ok"@) == Some(JsonTree::Bool(b))
            &&& v.member(if b { "data"@ } else { "error"@ }) is Some
        },
{
}

/// Law: the envelope written for an error that is not Mail's own is a
/// failed envelope: `ok` is false and its `error` has the code
/// `bridge_error` and a message that fits the error. A Mail error is
/// written as Mail's response itself.
pub proof fn law_error_envelope_shape(e: ApplicationError, r: JsonTree)
    requires
        error_envelope_of(e, r),
    ensures
        e matches ApplicationError::Mail(response) ==> r == response@,
        !(e is Mail) ==> {
            &&& r.member("ok"@) == Some(JsonTree::Bool(false))
            &&& r.member("error"@) matches Some(inner) && inner.member("code"@) == Some(
                JsonTree::Str("bridge_error"@),
            ) && (inner.member("message"@) matches Some(JsonTree::Str(m)) && message_fits(e, m))
        },
{
    if !(e is Mail) {
        let m = choose|m: Seq<char>| message_fits(e, m) && r == crate::output::failure_envelope(m);
        reveal_strlit("error");
        reveal_strlit("ok");
        reveal_strlit("code");
        reveal_strlit("message");
        assert("error"@.len() == 5);
        assert("ok"@.len() == 2);
        assert("code"@.len() == 4);
        assert("message"@.len() == 7);
        reveal_with_fuel(crate::json::lookup, 3);
    }
}

} // verus!
