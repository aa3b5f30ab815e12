//! The error envelope written for a failed command.
use vstd::prelude::*;
use crate::application::{envelope_check, message_fits, ApplicationError};
use crate::json::{entry_views, json_object, json_string, lookup, push_member, JsonTree, JsonValue};
use crate::request::text_member;

verus! {

/// The failed envelope that reports an error of the bridge or of the
/// application itself.
pub open spec fn failure_envelope(message: Seq<char>) -> JsonTree {
    JsonTree::Object(
        seq![
            (
                "error"@,
                JsonTree::Object(
                    seq![
                        text_member("code"@, "bridge_error"@),
                        text_member("message"@, message),
                    ],
                ),
            ),
            ("ok"@, JsonTree::Bool(false)),
        ],
    )
}

/// What the envelope of an error is: the failed response itself for a Mail
/// error, else a `bridge_error` envelope that carries the error's message.
pub open spec fn error_envelope_of(e: ApplicationError, r: JsonTree) -> bool {
    match e {
        ApplicationError::Mail(response) => r == response@,
        _ => exists|m: Seq<char>| message_fits(e, m) && r == failure_envelope(m),
    }
}

/// The envelope written to stderr for an error.
pub fn error_envelope(error: &ApplicationError) -> (r: JsonValue)
    ensures
        error_envelope_of(*error, r@),
{
    match error.response() {
        Some(response) => response.deep_clone(),
        None => {
            let message = error.message();
            let mut detail: Vec<(String, JsonValue)> = Vec::new();
            assert(entry_views(detail@) =~= seq![]);
            push_member(&mut detail, "code", json_string("bridge_error"));
            push_member(&mut detail, "message", json_string(message.as_str()));
            let ghost inner = entry_views(detail@);
            assert(inner =~= seq![
                text_member("code"@, "bridge_error"@),
                text_member("message"@, message@),
            ]);
            let mut envelope: Vec<(String, JsonValue)> = Vec::new();
            assert(entry_views(envelope@) =~= seq![]);
            push_member(&mut envelope, "error", json_object(detail));
            push_member(&mut envelope, "ok", JsonValue::Bool(false));
            let ghost outer = entry_views(envelope@);
            assert(outer =~= failure_envelope(message@)->Object_0);
            let r = json_object(envelope);
            assert(message_fits(*error, message@) && r@ == failure_envelope(message@));
            r
        },
    }
}

/// A `bridge_error` envelope is a failed response envelope.
pub proof fn lemma_failure_envelope_is_failed(message: Seq<char>)
    ensures
        envelope_check(failure_envelope(message)) == Ok::<bool, Seq<char>>(false),
{
    reveal_strlit("error");
    reveal_strlit("ok");
    assert("error"@.len() == 5);
    assert("ok"@.len() == 2);
    let entries = failure_envelope(message)->Object_0;
    assert(entries[0].0 != "ok"@);
    assert(lookup(entries.drop_first(), "ok"@) == Some(JsonTree::Bool(false)));
}

/// Every error envelope is a failed response envelope, provided that a Mail
/// error carries a failed response, as the ones of `run` do.
pub proof fn lemma_error_envelope_is_failed(e: ApplicationError, r: JsonTree)
    requires
        error_envelope_of(e, r),
        e matches ApplicationError::Mail(response) ==> envelope_check(response@) == Ok::<
            bool,
            Seq<char>,
        >(false),
    ensures
        envelope_check(r) == Ok::<bool, Seq<char>>(false),
{
    if !(e is Mail) {
        let m = choose|m: Seq<char>| message_fits(e, m) && r == failure_envelope(m);
        lemma_failure_envelope_is_failed(m);
    }
}

} // verus!
