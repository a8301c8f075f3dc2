//! The report on the external tool's version, out of what running it gave.

use crate::text::{decode_lossy, lossy_text, trim, trimmed};
use vstd::prelude::*;

verus! {

/// How the attempt to run the tool with its version flag went.
#[derive(Debug, PartialEq)]
pub enum CommandOutcome {
    /// The tool ran: whether it exited with success, and what it wrote.
    Ran { success: bool, stdout: Vec<u8>, stderr: Vec<u8> },
    /// The tool could not be started; the system's message.
    NotStarted(String),
}

/// Whether the tool is installed and which version it reports.
#[derive(Debug, PartialEq)]
pub struct CodexVersion {
    pub installed: bool,
    pub version: Option<String>,
    pub error: Option<String>,
}

impl View for CodexVersion {
    type V = (bool, Option<Seq<char>>, Option<Seq<char>>);

    open spec fn view(&self) -> (bool, Option<Seq<char>>, Option<Seq<char>>) {
        (
            self.installed,
            match self.version {
                Some(v) => Some(v@),
                None => None,
            },
            match self.error {
                Some(e) => Some(e@),
                None => None,
            },
        )
    }
}

/// The report for an outcome: a tool that ran with success is installed and
/// its version is what it wrote, trimmed; otherwise the report carries what
/// it wrote as error, trimmed, or the message of the failed start.
pub open spec fn version_report(outcome: CommandOutcome) -> (
    bool,
    Option<Seq<char>>,
    Option<Seq<char>>,
) {
    match outcome {
        CommandOutcome::Ran { success, stdout, stderr } => if success {
            (true, Some(trimmed(lossy_text(stdout@))), None)
        } else {
            (false, None, Some(trimmed(lossy_text(stderr@))))
        },
        CommandOutcome::NotStarted(message) => (false, None, Some(message@)),
    }
}

/// Builds the version report from the outcome of running the tool.
pub fn get_codex_version(outcome: &CommandOutcome) -> (r: CodexVersion)
    ensures
        r@ == version_report(*outcome),
{
    match outcome {
        CommandOutcome::Ran { success, stdout, stderr } => {
            if *success {
                let text = decode_lossy(stdout.as_slice());
                CodexVersion {
                    installed: true,
                    version: Some(trim(text.as_str()).to_owned()),
                    error: None,
                }
            } else {
                let text = decode_lossy(stderr.as_slice());
                CodexVersion {
                    installed: false,
                    version: None,
                    error: Some(trim(text.as_str()).to_owned()),
                }
            }
        },
        CommandOutcome::NotStarted(message) => CodexVersion {
            installed: false,
            version: None,
            error: Some(message.clone()),
        },
    }
}

} // verus!
