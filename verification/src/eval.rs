//! The evaluator's client: what is asked of the evaluator, and what is made of
//! the bytes that it prints.

use vstd::prelude::*;
use vstd::string::*;
use vstd::utf8::*;

verus! {

/// Why a call of the evaluator gave no text.
#[derive(Debug, Clone, PartialEq, Eq)]
pub enum EvalError {
    /// The process could not be started, or what it printed is no text.
    ProcessFailed { detail: String },
}

impl EvalError {
    /// The message shown to the user.
    pub fn message(&self) -> (text: String)
        ensures
            text@ == self->detail@,
    {
        match self {
            EvalError::ProcessFailed { detail } => detail.clone(),
        }
    }
}

/// One call of the evaluator: the flake output to evaluate, and the function
/// to apply to its value before it is printed.
#[derive(Debug, Clone, PartialEq, Eq)]
pub struct EvalRequest {
    pub target: String,
    pub apply: Option<String>,
}

impl EvalRequest {
    /// The arguments of the evaluator's command line.
    pub open spec fn spec_args(self) -> Seq<Seq<char>> {
        match self.apply {
            Some(f) => seq!["eval"@, self.target@, "--apply"@, f@, "--json"@, "--quiet"@],
            None => seq!["eval"@, self.target@, "--json"@, "--quiet"@],
        }
    }

    /// The arguments of the evaluator's command line.
    pub fn args(&self) -> (out: Vec<String>)
        ensures
            out.deep_view() == self.spec_args(),
    {
        let mut out: Vec<String> = Vec::new();
        out.push(String::from_str("eval"));
        out.push(self.target.clone());
        match &self.apply {
            Some(f) => {
                out.push(String::from_str("--apply"));
                out.push(f.clone());
            },
            None => {},
        }
        out.push(String::from_str("--json"));
        out.push(String::from_str("--quiet"));
        assert(out.deep_view() =~= self.spec_args());
        out
    }
}

/// The flake reference of an attribute path: the path behind `.#`.
pub open spec fn flake_ref(attr: Seq<char>) -> Seq<char> {
    ".#"@ + attr
}

/// The request that evaluates `attr`, with `apply` applied to its value.
pub fn request_for(attr: &str, apply: Option<String>) -> (req: EvalRequest)
    ensures
        req.target@ == flake_ref(attr@),
        req.apply == apply,
{
    let mut target = String::from_str(".#");
    target.append(attr);
    EvalRequest { target, apply }
}

/// What became of the evaluator's process: the bytes of its standard output,
/// or the reason why it could not be started.
#[derive(Debug, Clone, PartialEq, Eq)]
pub enum ProcessOutcome {
    Exited { stdout: Vec<u8> },
    NotStarted { reason: String },
}

/// Calls `String::from_utf8`, which accepts the bytes where they are UTF-8
/// and gives the text that they encode; where it refuses them, the text of
/// its error is handed out, of which nothing is claimed.
#[verifier::external_body]
fn text_of_bytes(bytes: Vec<u8>) -> (r: Result<String, String>)
    ensures
        match r {
            Ok(text) => valid_utf8(bytes@) && text@ == decode_utf8(bytes@),
            Err(_) => !valid_utf8(bytes@),
        },
{
    match String::from_utf8(bytes) {
        Ok(text) => Ok(text),
        Err(e) => Err(e.to_string()),
    }
}

/// The message for a process that could not be started.
pub open spec fn not_started_message(reason: Seq<char>) -> Seq<char> {
    "Nix failed ("@ + reason + ")"@
}

/// The message for an output that is no text.
pub open spec fn not_text_message(reason: Seq<char>) -> Seq<char> {
    "Unable to decode Nix output ("@ + reason + ")"@
}

/// The text that the evaluator printed. A process that did not start and an
/// output that is not UTF-8 are both `ProcessFailed`; every other outcome
/// gives the decoded output.
pub fn evaluator_output(outcome: ProcessOutcome) -> (r: Result<String, EvalError>)
    ensures
        match outcome {
            ProcessOutcome::Exited { stdout } => if valid_utf8(stdout@) {
                r matches Ok(text) && text@ == decode_utf8(stdout@)
            } else {
                r matches Err(EvalError::ProcessFailed { detail }) && exists|why: Seq<char>|
                    detail@ == not_text_message(why)
            },
            ProcessOutcome::NotStarted { reason } => r matches Err(
                EvalError::ProcessFailed { detail },
            ) && detail@ == not_started_message(reason@),
        },
{
    match outcome {
        ProcessOutcome::Exited { stdout } => match text_of_bytes(stdout) {
            Ok(text) => Ok(text),
            Err(why) => {
                let mut detail = String::from_str("Unable to decode Nix output (");
                detail.append(why.as_str());
                detail.append(")");
                assert(detail@ == not_text_message(why@));
                Err(EvalError::ProcessFailed { detail })
            },
        },
        ProcessOutcome::NotStarted { reason } => {
            let mut detail = String::from_str("Nix failed (");
            detail.append(reason.as_str());
            detail.append(")");
            Err(EvalError::ProcessFailed { detail })
        },
    }
}

} // verus!
