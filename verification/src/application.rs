//! Running one command: previews of mutations, the request to Mail, and the
//! checks on Mail's response envelope.
use vstd::prelude::*;
use vstd::string::*;
use crate::bridge::{bridge_error_message, BridgeError, BridgeErrorModel, MailBridge};
use crate::cli::{Command, CommandModel};
use crate::json::{
    entry_views, json_object, json_string, json_text, lookup, parse_json, push_member,
    serde_error_text, serde_json_document, tree_text, JsonTree, JsonValue,
};
use crate::request::{
    preview_of, preview_tree, request_of, request_tree, text_member, MailRequest, MutationPreview,
    PreviewModel,
};

verus! {

/// Why a command did not produce a successful response.
#[derive(Debug)]
pub enum ApplicationError {
    Serialize(serde_json::Error),
    Bridge(BridgeError),
    InvalidResponse(serde_json::Error),
    InvalidEnvelope(&'static str),
    Mail(JsonValue),
}

/// The verdict on a response envelope: `Ok(true)` for a successful one,
/// `Ok(false)` for a failed one, else the reason why it is no envelope.
pub open spec fn envelope_check(response: JsonTree) -> Result<bool, Seq<char>> {
    match response {
        JsonTree::Object(entries) => match lookup(entries, "ok"@) {
            Some(JsonTree::Bool(ok)) => {
                let required = if ok {
                    "data"@
                } else {
                    "error"@
                };
                if lookup(entries, required) is Some {
                    Ok(ok)
                } else if ok {
                    Err("successful response envelope must contain data"@)
                } else {
                    Err("failed response envelope must contain error"@)
                }
            },
            _ => Err("response envelope must contain a boolean ok field"@),
        },
        _ => Err("response envelope must be an object"@),
    }
}

/// The `error.code` string of a response, if it has one.
pub open spec fn mail_code(response: JsonTree) -> Option<Seq<char>> {
    match response.member("error"@) {
        Some(error) => match error.member("code"@) {
            Some(JsonTree::Str(code)) => Some(code),
            _ => None,
        },
        None => None,
    }
}

/// The message of a failed Mail response: its `error.message` string, or a
/// generic one.
pub open spec fn mail_message(response: JsonTree) -> Seq<char> {
    match response.member("error"@) {
        Some(error) => match error.member("message"@) {
            Some(JsonTree::Str(message)) => message,
            _ => "Mail operation failed"@,
        },
        None => "Mail operation failed"@,
    }
}

/// The process exit code for an error.
pub open spec fn exit_code_of(e: ApplicationError) -> u8 {
    match e {
        ApplicationError::Bridge(BridgeError::Timeout) => 4,
        ApplicationError::Mail(response) => match mail_code(response@) {
            Some(code) => if code == "invalid_request"@ || code == "unsupported_action"@ {
                2
            } else if code == "permission_denied"@ {
                3
            } else if code == "mail_timeout"@ {
                4
            } else {
                5
            },
            None => 5,
        },
        _ => 5,
    }
}

/// True when `text` starts with `prefix`.
pub open spec fn starts_with(text: Seq<char>, prefix: Seq<char>) -> bool {
    text.len() >= prefix.len() && text.subrange(0, prefix.len() as int) == prefix
}

/// What the message of an error is: exact, but for the text that
/// `serde_json` gives its own errors, of which only the prefix is fixed.
pub open spec fn message_fits(e: ApplicationError, m: Seq<char>) -> bool {
    match e {
        ApplicationError::Serialize(_) => starts_with(m, "failed to serialize request: "@),
        ApplicationError::Bridge(b) => m == bridge_error_message(b),
        ApplicationError::InvalidResponse(_) => starts_with(m, "bridge returned invalid JSON: "@),
        ApplicationError::InvalidEnvelope(problem) => m == "invalid response envelope: "@
            + problem@,
        ApplicationError::Mail(response) => m == mail_message(response@),
    }
}

/// What the response text `text` of Mail yields.
pub open spec fn response_outcome(text: Seq<char>, r: Result<JsonValue, ApplicationError>) -> bool {
    match serde_json_document(text) {
        None => r matches Err(ApplicationError::InvalidResponse(_)),
        Some(doc) => match envelope_check(doc) {
            Ok(true) => r matches Ok(v) && v@ == doc,
            Ok(false) => r matches Err(ApplicationError::Mail(v)) && v@ == doc,
            Err(problem) => r matches Err(ApplicationError::InvalidEnvelope(p)) && p@ == problem,
        },
    }
}

/// What `run` returns for the bridge's reply: the bridge's own error, or what
/// the response text yields.
pub open spec fn reply_outcome(
    reply: Result<Seq<char>, BridgeErrorModel>,
    r: Result<JsonValue, ApplicationError>,
) -> bool {
    match reply {
        Ok(text) => response_outcome(text, r),
        Err(b) => r matches Err(ApplicationError::Bridge(e)) && e@ == b,
    }
}

/// The successful envelope that shows a mutation preview.
pub open spec fn preview_envelope(p: PreviewModel) -> JsonTree {
    JsonTree::Object(
        seq![
            (
                "data"@,
                JsonTree::Object(
                    seq![("mutation"@, preview_tree(p)), text_member("status"@, "preview"@)],
                ),
            ),
            ("ok"@, JsonTree::Bool(true)),
        ],
    )
}

proof fn lemma_prefix(prefix: Seq<char>, rest: Seq<char>)
    ensures
        starts_with(prefix + rest, prefix),
{
    assert((prefix + rest).subrange(0, prefix.len() as int) =~= prefix);
}

impl ApplicationError {
    /// The failed response of Mail, for a Mail error.
    pub fn response(&self) -> (r: Option<&JsonValue>)
        ensures
            match r {
                Some(v) => *self == ApplicationError::Mail(*v),
                None => !(*self is Mail),
            },
    {
        match self {
            ApplicationError::Mail(response) => Some(response),
            _ => None,
        }
    }

    /// The exit code: 4 for a timeout, 2, 3 or 4 for the Mail error codes
    /// that have one, 5 for the rest.
    pub fn exit_code(&self) -> (r: u8)
        ensures
            r == exit_code_of(*self),
            2 <= r <= 5,
    {
        match self {
            ApplicationError::Bridge(BridgeError::Timeout) => 4,
            ApplicationError::Mail(response) => match mail_error_code(response) {
                Some(code) => {
                    if crate::text::same_text(code, "invalid_request") || crate::text::same_text(
                        code,
                        "unsupported_action",
                    ) {
                        2
                    } else if crate::text::same_text(code, "permission_denied") {
                        3
                    } else if crate::text::same_text(code, "mail_timeout") {
                        4
                    } else {
                        5
                    }
                },
                None => 5,
            },
            _ => 5,
        }
    }

    /// The human-readable message of this error.
    pub fn message(&self) -> (r: String)
        ensures
            message_fits(*self, r@),
    {
        match self {
            ApplicationError::Serialize(error) => {
                let mut text = String::from_str("failed to serialize request: ");
                let detail = serde_error_text(error);
                proof { lemma_prefix("failed to serialize request: "@, detail@); }
                text.append(detail.as_str());
                text
            },
            ApplicationError::Bridge(error) => error.message(),
            ApplicationError::InvalidResponse(error) => {
                let mut text = String::from_str("bridge returned invalid JSON: ");
                let detail = serde_error_text(error);
                proof { lemma_prefix("bridge returned invalid JSON: "@, detail@); }
                text.append(detail.as_str());
                text
            },
            ApplicationError::InvalidEnvelope(problem) => {
                let mut text = String::from_str("invalid response envelope: ");
                text.append(problem);
                text
            },
            ApplicationError::Mail(response) => {
                let message = match response.member("error") {
                    Some(error) => match error.member("message") {
                        Some(m) => m.as_str(),
                        None => None,
                    },
                    None => None,
                };
                match message {
                    Some(m) => String::from_str(m),
                    None => String::from_str("Mail operation failed"),
                }
            },
        }
    }
}

/// The `error.code` string of a response, if it has one.
fn mail_error_code(response: &JsonValue) -> (r: Option<&str>)
    ensures
        match r {
            Some(code) => mail_code(response@) == Some(code@),
            None => mail_code(response@) is None,
        },
{
    match response.member("error") {
        Some(error) => match error.member("code") {
            Some(code) => code.as_str(),
            None => None,
        },
        None => None,
    }
}

/// Checks a response envelope: `Ok(true)` for success with data, `Ok(false)`
/// for failure with an error, else the problem.
pub fn validate_response(response: &JsonValue) -> (r: Result<bool, ApplicationError>)
    ensures
        match r {
            Ok(ok) => envelope_check(response@) == Ok::<bool, Seq<char>>(ok),
            Err(e) => e matches ApplicationError::InvalidEnvelope(problem) && envelope_check(
                response@,
            ) == Err::<bool, Seq<char>>(problem@),
        },
{
    let is_object = match response {
        JsonValue::Object(_) => true,
        _ => false,
    };
    if !is_object {
        return Err(ApplicationError::InvalidEnvelope("response envelope must be an object"));
    }
    let is_ok = match response.member("ok") {
        Some(ok) => match ok.as_bool() {
            Some(b) => b,
            None => {
                return Err(
                    ApplicationError::InvalidEnvelope(
                        "response envelope must contain a boolean ok field",
                    ),
                );
            },
        },
        None => {
            return Err(
                ApplicationError::InvalidEnvelope(
                    "response envelope must contain a boolean ok field",
                ),
            );
        },
    };
    let required_field = if is_ok {
        "data"
    } else {
        "error"
    };
    if response.member(required_field).is_some() {
        return Ok(is_ok);
    }
    Err(
        ApplicationError::InvalidEnvelope(
            if is_ok {
                "successful response envelope must contain data"
            } else {
                "failed response envelope must contain error"
            },
        ),
    )
}

/// Reads the response text of Mail: the document when it is a successful
/// envelope, a Mail error when it is a failed one, else why it is neither.
pub fn interpret_response(response_json: &str) -> (r: Result<JsonValue, ApplicationError>)
    ensures
        response_outcome(response_json@, r),
{
    let response = match parse_json(response_json) {
        Ok(response) => response,
        Err(error) => {
            return Err(ApplicationError::InvalidResponse(error));
        },
    };
    match validate_response(&response) {
        Ok(true) => Ok(response),
        Ok(false) => Err(ApplicationError::Mail(response)),
        Err(e) => Err(e),
    }
}

/// The text of the request that `command` sends to Mail.
pub fn request_json(command: &Command) -> (r: String)
    ensures
        r@ == tree_text(request_tree(request_of(command@))),
{
    let request = MailRequest::from(command);
    json_text(&request.to_json())
}

/// The successful envelope that shows a mutation preview.
pub fn preview_response(preview: &MutationPreview) -> (r: JsonValue)
    ensures
        r@ == preview_envelope(preview@),
{
    let mut data: Vec<(String, JsonValue)> = Vec::new();
    assert(entry_views(data@) =~= seq![]);
    push_member(&mut data, "mutation", preview.to_json());
    push_member(&mut data, "status", json_string("preview"));
    let ghost inner = entry_views(data@);
    assert(inner =~= seq![("mutation"@, preview_tree(preview@)), text_member("status"@, "preview"@)]);
    let mut envelope: Vec<(String, JsonValue)> = Vec::new();
    assert(entry_views(envelope@) =~= seq![]);
    push_member(&mut envelope, "data", json_object(data));
    push_member(&mut envelope, "ok", JsonValue::Bool(true));
    let ghost outer = entry_views(envelope@);
    assert(outer =~= preview_envelope(preview@)->Object_0);
    json_object(envelope)
}

/// Executes a command: a mutation without `--execute` is answered with its
/// preview and Mail is not called; any other command sends its request
/// through the bridge once and returns the successful response envelope.
///
/// # Errors
///
/// Returns an error when bridge execution or response validation fails, and
/// the failed envelope when Mail reports one. Rendering the request cannot
/// fail, so no serialization error comes out.
pub fn run<B: MailBridge>(command: &Command, bridge: &mut B) -> (r: Result<JsonValue, ApplicationError>)
    ensures
        preview_of(command@) matches Some(p) ==> r matches Ok(v) && v@ == preview_envelope(p)
            && *final(bridge) == *old(bridge),
        preview_of(command@) is None && B::keeps_log() ==> {
            let sent = final(bridge).exchanges();
            &&& sent == old(bridge).exchanges().push(
                (tree_text(request_tree(request_of(command@))), sent.last().1),
            )
            &&& reply_outcome(sent.last().1, r)
        },
        r matches Ok(v) ==> envelope_check(v@) == Ok::<bool, Seq<char>>(true),
        r matches Err(ApplicationError::Mail(v)) ==> envelope_check(v@) == Ok::<bool, Seq<char>>(
            false,
        ),
{
    if let Some(preview) = MutationPreview::from_command(command) {
        let response = preview_response(&preview);
        proof { lemma_preview_envelope_is_successful(preview@); }
        return Ok(response);
    }
    let request = request_json(command);
    let response_json = match bridge.execute(request.as_str()) {
        Ok(response_json) => response_json,
        Err(error) => {
            return Err(ApplicationError::Bridge(error));
        },
    };
    let r = interpret_response(response_json.as_str());
    assert(response_outcome(response_json@, r));
    r
}

/// A preview envelope is a successful response envelope.
pub proof fn lemma_preview_envelope_is_successful(p: PreviewModel)
    ensures
        envelope_check(preview_envelope(p)) == Ok::<bool, Seq<char>>(true),
{
    reveal_strlit("data");
    reveal_strlit("ok");
    let entries = preview_envelope(p)->Object_0;
    assert("data"@.len() == 4);
    assert("ok"@.len() == 2);
    assert(entries[0].0 != "ok"@);
    assert(lookup(entries.drop_first(), "ok"@) == Some(JsonTree::Bool(true)));
}

} // verus!
