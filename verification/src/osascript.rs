//! The decisions of the `osascript` bridge: its arguments, its timeout, the
//! bounds on its output, and how its output becomes a response or an error.
use vstd::prelude::*;
use vstd::string::*;
use vstd::utf8::{decode_utf8, valid_utf8};
use crate::bridge::{BridgeError, BridgeErrorModel};

verus! {

/// The interpreter that runs the embedded JXA program.
pub const OSASCRIPT_PATH: &'static str = "/usr/bin/osascript";

/// How long one Mail operation may take.
pub const DEFAULT_TIMEOUT_SECS: u64 = 30;

/// How often the running process is checked.
pub const POLL_INTERVAL_MILLIS: u64 = 10;

/// The most bytes of standard output that a response may take.
pub const MAX_STDOUT_BYTES: u64 = 4000000;

/// The most bytes of standard error that are read.
pub const MAX_STDERR_BYTES: u64 = 65536;

/// The most characters of standard error that an error reports.
pub const MAX_STDERR_CHARS: usize = 4096;

/// The text that `String::from_utf8_lossy` makes of some bytes: invalid
/// sequences become U+FFFD.
pub uninterp spec fn utf8_lossy(bytes: Seq<u8>) -> Seq<char>;

/// The message of the error that `String::from_utf8` reports for bytes that
/// are not UTF-8.
pub uninterp spec fn utf8_error_message(bytes: Seq<u8>) -> Seq<char>;

/// Decodes bytes with `String::from_utf8_lossy`. Valid UTF-8 is decoded as it
/// is; how invalid sequences are replaced is left to the name.
#[verifier::external_body]
fn lossy_text(bytes: &[u8]) -> (r: String)
    ensures
        r@ == utf8_lossy(bytes@),
        valid_utf8(bytes@) ==> r@ == decode_utf8(bytes@),
{
    String::from_utf8_lossy(bytes).into_owned()
}

/// Decodes bytes with `String::from_utf8`: the text when they are UTF-8,
/// else the message of the error (rendered with its `Display` impl).
#[verifier::external_body]
fn utf8_text(bytes: Vec<u8>) -> (r: Result<String, String>)
    ensures
        match r {
            Ok(text) => valid_utf8(bytes@) && text@ == decode_utf8(bytes@),
            Err(message) => !valid_utf8(bytes@) && message@ == utf8_error_message(bytes@),
        },
{
    match String::from_utf8(bytes) {
        Ok(text) => Ok(text),
        Err(error) => Err(error.to_string()),
    }
}

/// At most the first `MAX_STDERR_CHARS` characters of the lossy decoding.
pub open spec fn bounded_lossy(bytes: Seq<u8>) -> Seq<char> {
    let text = utf8_lossy(bytes);
    if text.len() <= MAX_STDERR_CHARS {
        text
    } else {
        text.take(MAX_STDERR_CHARS as int)
    }
}

/// Decodes standard error for a report: lossy, and cut after
/// `MAX_STDERR_CHARS` characters.
pub fn bounded_lossy_text(bytes: &[u8]) -> (r: String)
    ensures
        r@ == bounded_lossy(bytes@),
        r@.len() <= MAX_STDERR_CHARS,
{
    let text = lossy_text(bytes);
    let n = text.as_str().unicode_len();
    if n <= MAX_STDERR_CHARS {
        text
    } else {
        let prefix = text.as_str().substring_char(0, MAX_STDERR_CHARS);
        assert(prefix@ =~= text@.take(MAX_STDERR_CHARS as int));
        prefix.to_owned()
    }
}

/// What the output of a finished process yields: output above its bound is
/// refused, a failed process is reported with its exit code and standard
/// error, and standard output must be UTF-8.
pub open spec fn process_outcome(success: bool, code: Option<i32>, stdout: Seq<u8>, stderr: Seq<u8>) -> Result<Seq<char>, BridgeErrorModel> {
    if stdout.len() > MAX_STDOUT_BYTES {
        Err(BridgeErrorModel::InvalidOutput("stdout exceeded the supported limit"@))
    } else if stderr.len() > MAX_STDERR_BYTES {
        Err(BridgeErrorModel::InvalidOutput("stderr exceeded the supported limit"@))
    } else if !success {
        Err(BridgeErrorModel::Failed { code, stderr: bounded_lossy(stderr) })
    } else if valid_utf8(stdout) {
        Ok(decode_utf8(stdout))
    } else {
        Err(BridgeErrorModel::InvalidOutput(utf8_error_message(stdout)))
    }
}

/// Turns the output of a finished `osascript` process into the response
/// text or a bridge error.
pub fn interpret_process_output(
    success: bool,
    code: Option<i32>,
    stdout: Vec<u8>,
    stderr: &[u8],
) -> (r: Result<String, BridgeError>)
    ensures
        match r {
            Ok(text) => process_outcome(success, code, stdout@, stderr@) == Ok::<
                Seq<char>,
                BridgeErrorModel,
            >(text@),
            Err(e) => process_outcome(success, code, stdout@, stderr@) == Err::<
                Seq<char>,
                BridgeErrorModel,
            >(e@),
        },
        r matches Ok(text) ==> stdout@.len() <= MAX_STDOUT_BYTES,
        r matches Err(BridgeError::Failed { stderr: message, .. }) ==> message@.len()
            <= MAX_STDERR_CHARS,
{
    if stdout.len() as u64 > MAX_STDOUT_BYTES {
        return Err(BridgeError::InvalidOutput(String::from_str("stdout exceeded the supported limit")));
    }
    if stderr.len() as u64 > MAX_STDERR_BYTES {
        return Err(BridgeError::InvalidOutput(String::from_str("stderr exceeded the supported limit")));
    }
    if !success {
        return Err(BridgeError::Failed { code, stderr: bounded_lossy_text(stderr) });
    }
    match utf8_text(stdout) {
        Ok(text) => Ok(text),
        Err(message) => Err(BridgeError::InvalidOutput(message)),
    }
}

/// The command-line arguments of `osascript`: the JXA program goes in as
/// source and the request as the one argument after `--`, so no request ever
/// becomes program text.
pub fn arguments_for<'a>(script: &'a str, request: &'a str) -> (r: [&'a str; 6])
    ensures
        r@[0]@ == "-l"@,
        r@[1]@ == "JavaScript"@,
        r@[2]@ == "-e"@,
        r@[3]@ == script@,
        r@[4]@ == "--"@,
        r@[5]@ == request@,
{
    ["-l", "JavaScript", "-e", script, "--", request]
}

/// What the bridge has learnt of its process when it checks on it.
pub enum PollEvent {
    /// The process has exited.
    Exited,
    /// The process still runs, this long after it started.
    Running { elapsed_nanos: u128 },
    /// Waiting on the process failed, with this message.
    WaitFailed(String),
}

/// What the bridge does next.
#[derive(Debug)]
pub enum PollAction {
    /// Read the output of the exited process.
    Collect,
    /// Sleep for `POLL_INTERVAL_MILLIS`, then check again.
    Wait,
    /// Kill the process, reap it, drain its output and fail with this error.
    Abort(BridgeError),
}

/// The `osascript` bridge: it runs the JXA program once per request, within
/// a timeout.
pub struct OsascriptBridge {
    timeout_secs: u64,
}

impl View for OsascriptBridge {
    type V = u64;

    closed spec fn view(&self) -> u64 {
        self.timeout_secs
    }
}

impl OsascriptBridge {
    /// A bridge with the default timeout.
    pub fn new() -> (r: Self)
        ensures
            r@ == DEFAULT_TIMEOUT_SECS,
    {
        OsascriptBridge { timeout_secs: DEFAULT_TIMEOUT_SECS }
    }

    /// The timeout, in seconds.
    pub fn timeout_secs(&self) -> (r: u64)
        ensures
            r == self@,
    {
        self.timeout_secs
    }

    /// The next step after checking on the process: collect its output once
    /// it exited, abort with a timeout once it ran for the whole timeout,
    /// abort when waiting failed, and wait otherwise.
    pub fn decide(&self, event: PollEvent) -> (r: PollAction)
        ensures
            match event {
                PollEvent::Exited => r is Collect,
                PollEvent::Running { elapsed_nanos } => if elapsed_nanos >= self@ * 1000000000 {
                    r matches PollAction::Abort(e) && e is Timeout
                } else {
                    r is Wait
                },
                PollEvent::WaitFailed(message) => r matches PollAction::Abort(e) && e matches BridgeError::Unavailable(m) && m@ == message@,
            },
    {
        match event {
            PollEvent::Exited => PollAction::Collect,
            PollEvent::Running { elapsed_nanos } => {
                if elapsed_nanos >= (self.timeout_secs as u128) * 1000000000 {
                    PollAction::Abort(BridgeError::Timeout)
                } else {
                    PollAction::Wait
                }
            },
            PollEvent::WaitFailed(message) => PollAction::Abort(BridgeError::Unavailable(message)),
        }
    }
}

impl Default for OsascriptBridge {
    fn default() -> (r: Self)
        ensures
            r@ == DEFAULT_TIMEOUT_SECS,
    {
        Self::new()
    }
}

} // verus!
