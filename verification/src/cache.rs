//! The cache verifier: the probe that asks the binary cache for one hash
//! token, and the verdict read from the cache's answer.

use vstd::prelude::*;
use vstd::string::*;
use crate::text::{decimal, decimal_text};

verus! {

/// The name of the header that carries the credential.
pub const AUTHORIZATION_HEADER: &'static str = "authorization";

/// Whether the cache holds an artifact.
#[derive(Debug, Clone, Copy, PartialEq, Eq, Structural)]
pub enum CacheVerdict {
    /// The cache answered with a status of success.
    Present,
    /// The cache answered that it has no such resource.
    Absent,
}

/// One probe of the cache: the resource to get, and the value of the
/// authorization header where a credential is at hand.
#[derive(Debug, Clone, PartialEq, Eq)]
pub struct CacheProbe {
    pub url: String,
    pub authorization: Option<String>,
}

/// How a probe ended: with a status from the cache, or without an answer.
#[derive(Debug, Clone, PartialEq, Eq)]
pub enum ProbeOutcome {
    Status { code: u16 },
    Failed { reason: String },
}

/// Why a probe gave no verdict.
#[derive(Debug, Clone, PartialEq, Eq)]
pub enum VerifyError {
    /// The cache answered with a status that is neither success nor 404.
    UnexpectedStatus { code: u16 },
    /// The cache did not answer.
    Transport { reason: String },
}

/// The address of the metadata resource of `hash` in the cache at `endpoint`.
pub open spec fn narinfo_url(endpoint: Seq<char>, hash: Seq<char>) -> Seq<char> {
    endpoint + "/"@ + hash + ".narinfo"@
}

/// The authorization header's value for a bearer credential.
pub open spec fn bearer(token: Seq<char>) -> Seq<char> {
    "bearer "@ + token
}

/// The probe for `hash` in the cache at `endpoint`, with the credential
/// attached where there is one.
pub fn probe_for(hash: &str, endpoint: &str, credential: Option<&str>) -> (probe: CacheProbe)
    ensures
        probe.url@ == narinfo_url(endpoint@, hash@),
        match credential {
            Some(token) => probe.authorization matches Some(value) && value@ == bearer(token@),
            None => probe.authorization is None,
        },
{
    let mut url = String::from_str(endpoint);
    url.append("/");
    url.append(hash);
    url.append(".narinfo");
    let authorization = match credential {
        Some(token) => {
            let mut value = String::from_str("bearer ");
            value.append(token);
            Some(value)
        },
        None => None,
    };
    CacheProbe { url, authorization }
}

/// The verdict that a status stands for: success is presence, 404 is
/// absence, and no other status is a verdict.
pub open spec fn verdict_of_status(code: u16) -> Option<CacheVerdict> {
    if 200 <= code <= 299 {
        Some(CacheVerdict::Present)
    } else if code == 404 {
        Some(CacheVerdict::Absent)
    } else {
        None
    }
}

/// What a probe's outcome means: a verdict where the status stands for one,
/// else the error that names the status or the failure.
pub open spec fn verdict_of(outcome: ProbeOutcome) -> Result<CacheVerdict, VerifyError> {
    match outcome {
        ProbeOutcome::Status { code } => match verdict_of_status(code) {
            Some(verdict) => Ok(verdict),
            None => Err(VerifyError::UnexpectedStatus { code }),
        },
        ProbeOutcome::Failed { reason } => Err(VerifyError::Transport { reason }),
    }
}

/// Reads the verdict from a probe's outcome.
pub fn classify(outcome: ProbeOutcome) -> (r: Result<CacheVerdict, VerifyError>)
    ensures
        r == verdict_of(outcome),
{
    match outcome {
        ProbeOutcome::Status { code } => {
            if 200 <= code && code <= 299 {
                Ok(CacheVerdict::Present)
            } else if code == 404 {
                Ok(CacheVerdict::Absent)
            } else {
                Err(VerifyError::UnexpectedStatus { code })
            }
        },
        ProbeOutcome::Failed { reason } => Err(VerifyError::Transport { reason }),
    }
}

/// A verdict is either presence or absence, never both and never neither.
pub proof fn lemma_verdict_exclusive(verdict: CacheVerdict)
    ensures
        (verdict is Present) != (verdict is Absent),
{
}

/// A probe yields a verdict exactly where the cache answered with a status of
/// success or with 404: presence for the first, absence for the second. Every
/// other outcome is an error, which is no verdict.
pub proof fn lemma_verdict_only_from_status(outcome: ProbeOutcome)
    ensures
        verdict_of(outcome) == Ok::<CacheVerdict, VerifyError>(CacheVerdict::Present) <==> (
        outcome matches ProbeOutcome::Status { code } && 200 <= code <= 299),
        verdict_of(outcome) == Ok::<CacheVerdict, VerifyError>(CacheVerdict::Absent) <==> (
        outcome matches ProbeOutcome::Status { code } && code == 404),
        verdict_of(outcome) is Err <==> !(outcome matches ProbeOutcome::Status { code } && (200
            <= code <= 299 || code == 404)),
{
}

impl VerifyError {
    /// The message shown to the user.
    pub open spec fn spec_message(self) -> Seq<char> {
        match self {
            VerifyError::UnexpectedStatus { code } => "Unable to query binary cache (http status: "@
                + decimal_text(code as nat) + ")"@,
            VerifyError::Transport { reason } => "Unable to query binary cache ("@ + reason@
                + ")"@,
        }
    }

    /// The message shown to the user.
    pub fn message(&self) -> (text: String)
        ensures
            text@ == self.spec_message(),
    {
        match self {
            VerifyError::UnexpectedStatus { code } => {
                let mut text = String::from_str("Unable to query binary cache (http status: ");
                text.append(decimal(*code as u64).as_str());
                text.append(")");
                text
            },
            VerifyError::Transport { reason } => {
                let mut text = String::from_str("Unable to query binary cache (");
                text.append(reason.as_str());
                text.append(")");
                text
            },
        }
    }
}

} // verus!
