//! A JSON command-line client for Apple Mail: command-line parsing, the
//! requests sent to Mail, the checks on its responses, and the decisions of the
//! `osascript` bridge, each with a verified contract.
use vstd::prelude::*;

pub mod json;
pub mod text;
pub mod cli;
pub mod bridge;
pub mod request;
pub mod application;
pub mod output;
pub mod osascript;
pub mod laws;
pub mod promises;
pub mod command_lines;
pub mod json_reading;

verus! {
} // verus!
