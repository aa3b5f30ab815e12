//! The boundary to the process that talks to Mail.
use vstd::prelude::*;
use vstd::string::*;
use crate::text::{i32_text, signed_decimal_text};

verus! {

/// Something that executes one serialized request against Mail and returns
/// one serialized response envelope.
///
/// A bridge may keep, as a specification, the log of the exchanges it
/// performed. One that says so with `keeps_log` promises that each call of
/// `execute` appends the request it was given and the reply it returned.
/// Bridges written without a specification keep the defaults and promise
/// nothing.
pub trait MailBridge {
    /// True for a bridge whose `exchanges` log its calls.
    open spec fn keeps_log() -> bool {
        false
    }

    /// The exchanges performed so far, oldest first: each request with the
    /// response text or the model of the error that answered it.
    open spec fn exchanges(&self) -> Seq<(Seq<char>, Result<Seq<char>, BridgeErrorModel>)> {
        Seq::empty()
    }

    /// Executes one serialized request and returns one serialized response envelope.
    ///
    /// # Errors
    ///
    /// Returns an error when the bridge cannot start, times out, fails, or emits invalid bytes.
    fn execute(&mut self, request: &str) -> (r: Result<String, BridgeError>)
        ensures
            Self::keeps_log() ==> final(self).exchanges() == old(self).exchanges().push(
                (request@, reply_model(r)),
            ),
    ;
}

/// The model of a reply of the bridge.
pub open spec fn reply_model(r: Result<String, BridgeError>) -> Result<Seq<char>, BridgeErrorModel> {
    match r {
        Ok(text) => Ok(text@),
        Err(e) => Err(e@),
    }
}

/// Why the bridge could not produce a response.
#[derive(Debug)]
pub enum BridgeError {
    Unavailable(String),
    Timeout,
    Failed { code: Option<i32>, stderr: String },
    InvalidOutput(String),
}

/// How `{:?}` writes an optional exit code.
pub open spec fn debug_code_text(code: Option<i32>) -> Seq<char> {
    match code {
        Some(c) => "Some("@ + signed_decimal_text(c as int) + ")"@,
        None => "None"@,
    }
}

/// The message of a bridge error.
pub open spec fn bridge_error_message(e: BridgeError) -> Seq<char> {
    match e {
        BridgeError::Unavailable(message) => "bridge unavailable: "@ + message@,
        BridgeError::Timeout => "bridge timed out"@,
        BridgeError::Failed { code, stderr } => "bridge failed with exit code "@ + debug_code_text(
            code,
        ) + ": "@ + stderr@,
        BridgeError::InvalidOutput(message) => "bridge returned invalid output: "@ + message@,
    }
}

impl BridgeError {
    /// The human-readable message of this error.
    pub fn message(&self) -> (r: String)
        ensures
            r@ == bridge_error_message(*self),
    {
        match self {
            BridgeError::Unavailable(message) => {
                let mut text = String::from_str("bridge unavailable: ");
                text.append(message.as_str());
                text
            },
            BridgeError::Timeout => String::from_str("bridge timed out"),
            BridgeError::Failed { code, stderr } => {
                let mut text = String::from_str("bridge failed with exit code ");
                match code {
                    Some(c) => {
                        text.append("Some(");
                        let digits = i32_text(*c);
                        text.append(digits.as_str());
                        text.append(")");
                    },
                    None => {
                        text.append("None");
                    },
                }
                text.append(": ");
                text.append(stderr.as_str());
                text
            },
            BridgeError::InvalidOutput(message) => {
                let mut text = String::from_str("bridge returned invalid output: ");
                text.append(message.as_str());
                text
            },
        }
    }
}

/// The model of a bridge error.
pub enum BridgeErrorModel {
    Unavailable(Seq<char>),
    Timeout,
    Failed { code: Option<i32>, stderr: Seq<char> },
    InvalidOutput(Seq<char>),
}

impl View for BridgeError {
    type V = BridgeErrorModel;

    open spec fn view(&self) -> BridgeErrorModel {
        match self {
            BridgeError::Unavailable(m) => BridgeErrorModel::Unavailable(m@),
            BridgeError::Timeout => BridgeErrorModel::Timeout,
            BridgeError::Failed { code, stderr } => BridgeErrorModel::Failed {
                code: *code,
                stderr: stderr@,
            },
            BridgeError::InvalidOutput(m) => BridgeErrorModel::InvalidOutput(m@),
        }
    }
}

} // verus!
