//! Identifier resolution: from a candidate to its realization path, and from
//! the path to the hash token under which the cache knows it.

use vstd::prelude::*;
use vstd::string::*;
use crate::eval::{request_for, EvalError, EvalRequest};
use crate::json::{json_string_of, read_string, unreadable, unreadable_message};
use crate::text::{find_char, first_index_from, matches_at, occurs_at, lemma_first_index_from};

verus! {

/// Every realization path begins with the store's directory.
pub const STORE_PREFIX: &'static str = "/nix/store/";

/// The character that ends the hash token in a realization path.
pub const TOKEN_SEPARATOR: char = '-';

/// Why a candidate has no hash token.
#[derive(Debug, Clone, PartialEq, Eq)]
pub enum ResolveError {
    /// The evaluator gave no answer.
    Eval(EvalError),
    /// The evaluator's answer is not one JSON string.
    NotAPath { detail: String },
    /// The path lacks the store prefix, or the separator behind the token.
    MalformedPath,
}

/// The hash token of a realization path: what stands between the store
/// prefix, with which the path must begin, and the first separator behind it.
/// A path without that prefix or that separator has none.
pub open spec fn token_of(path: Seq<char>) -> Option<Seq<char>> {
    let start = STORE_PREFIX@.len() as int;
    if occurs_at(path, 0, STORE_PREFIX@) {
        match first_index_from(path, start, TOKEN_SEPARATOR) {
            Some(end) => Some(path.subrange(start, end)),
            None => None,
        }
    } else {
        None
    }
}

/// `r` is the outcome of deriving the hash token from `path`: the token where
/// the path has one, and `MalformedPath` where it has none.
pub open spec fn is_token_outcome(path: Seq<char>, r: Result<String, ResolveError>) -> bool {
    match token_of(path) {
        Some(token) => r matches Ok(t) && t@ == token,
        None => r == Err::<String, ResolveError>(ResolveError::MalformedPath),
    }
}

/// Derives the hash token from a realization path.
pub fn hash_token(path: &str) -> (r: Result<String, ResolveError>)
    ensures
        is_token_outcome(path@, r),
{
    if !matches_at(path, 0, STORE_PREFIX) {
        return Err(ResolveError::MalformedPath);
    }
    let start = STORE_PREFIX.unicode_len();
    match find_char(path, start, TOKEN_SEPARATOR) {
        Some(end) => {
            proof {
                lemma_first_index_from(path@, start as int, TOKEN_SEPARATOR);
            }
            Ok(String::from_str(path.substring_char(start, end)))
        },
        None => Err(ResolveError::MalformedPath),
    }
}

/// The request that asks the evaluator for the realization path of
/// `candidate`.
pub fn path_request(candidate: &str) -> (req: EvalRequest)
    ensures
        req.target@ == crate::eval::flake_ref(candidate@),
        req.apply is None,
{
    request_for(candidate, None)
}

/// The realization path in the evaluator's answer to `path_request`. A failed
/// call is handed on; an answer that is not one JSON string is `NotAPath`.
pub fn calc_path(answer: Result<String, EvalError>) -> (r: Result<String, ResolveError>)
    ensures
        match answer {
            Err(e) => r == Err::<String, ResolveError>(ResolveError::Eval(e)),
            Ok(raw) => match json_string_of(raw@) {
                Some(path) => r matches Ok(p) && p@ == path,
                None => r matches Err(ResolveError::NotAPath { detail }) && exists|why: Seq<char>|
                    detail@ == unreadable_message(why),
            },
        },
{
    match answer {
        Err(e) => Err(ResolveError::Eval(e)),
        Ok(raw) => match read_string(raw.as_str()) {
            Ok(path) => Ok(path),
            Err(e) => Err(ResolveError::NotAPath { detail: unreadable(&e) }),
        },
    }
}

/// The hash token of the candidate whose path the evaluator was asked for:
/// the token of the path in its answer.
pub fn calc_hash(answer: Result<String, EvalError>) -> (r: Result<String, ResolveError>)
    ensures
        match answer {
            Err(e) => r == Err::<String, ResolveError>(ResolveError::Eval(e)),
            Ok(raw) => match json_string_of(raw@) {
                Some(path) => match token_of(path) {
                    Some(token) => r matches Ok(t) && t@ == token,
                    None => r == Err::<String, ResolveError>(ResolveError::MalformedPath),
                },
                None => r matches Err(ResolveError::NotAPath { detail }) && exists|why: Seq<char>|
                    detail@ == unreadable_message(why),
            },
        },
{
    match calc_path(answer) {
        Ok(path) => hash_token(path.as_str()),
        Err(e) => Err(e),
    }
}

/// The derivation is deterministic: two outcomes for one path are the same
/// token, or both `MalformedPath`.
pub proof fn lemma_token_deterministic(
    path: Seq<char>,
    first: Result<String, ResolveError>,
    second: Result<String, ResolveError>,
)
    requires
        is_token_outcome(path, first),
        is_token_outcome(path, second),
    ensures
        match (first, second) {
            (Ok(a), Ok(b)) => a@ == b@,
            (Err(a), Err(b)) => a == ResolveError::MalformedPath && b
                == ResolveError::MalformedPath,
            _ => false,
        },
{
}

/// A path made of the store prefix, a token without separator, the separator
/// and anything behind it has that token.
pub proof fn lemma_token_of_well_formed(token: Seq<char>, rest: Seq<char>)
    requires
        !token.contains(TOKEN_SEPARATOR),
    ensures
        token_of(STORE_PREFIX@ + token + seq![TOKEN_SEPARATOR] + rest) == Some(token),
{
    let path = STORE_PREFIX@ + token + seq![TOKEN_SEPARATOR] + rest;
    let start = STORE_PREFIX@.len() as int;
    let end = start + token.len();
    assert(path.subrange(0, start) =~= STORE_PREFIX@);
    assert(path[end] == TOKEN_SEPARATOR);
    assert forall|j: int| start <= j < end implies path[j] != TOKEN_SEPARATOR by {
        assert(path[j] == token[j - start]);
        assert(token.contains(token[j - start]));
    }
    lemma_first_index_from(path, start, TOKEN_SEPARATOR);
    assert(path.subrange(start, end) =~= token);
}

/// A path has a token only where it is made of the store prefix, that token,
/// the separator and a rest, and the token holds no separator: the token is
/// never cut short and never taken from elsewhere in the path.
pub proof fn lemma_token_of_some(path: Seq<char>)
    requires
        token_of(path) is Some,
    ensures
        !token_of(path)->0.contains(TOKEN_SEPARATOR),
        exists|rest: Seq<char>|
            path == STORE_PREFIX@ + token_of(path)->0 + seq![TOKEN_SEPARATOR] + rest,
{
    let start = STORE_PREFIX@.len() as int;
    lemma_first_index_from(path, start, TOKEN_SEPARATOR);
    let end = first_index_from(path, start, TOKEN_SEPARATOR)->0;
    let token = token_of(path)->0;
    let rest = path.skip(end + 1);
    assert(path =~= STORE_PREFIX@ + token + seq![TOKEN_SEPARATOR] + rest) by {
        assert(path.subrange(0, start) == STORE_PREFIX@);
    }
    if token.contains(TOKEN_SEPARATOR) {
        let k = choose|k: int| 0 <= k < token.len() && token[k] == TOKEN_SEPARATOR;
        assert(path[start + k] == TOKEN_SEPARATOR);
    }
}

/// A path that does not begin with the store prefix, or holds no separator
/// behind it, has no token.
pub proof fn lemma_token_of_malformed(path: Seq<char>)
    requires
        !STORE_PREFIX@.is_prefix_of(path) || !path.skip(STORE_PREFIX@.len() as int).contains(
            TOKEN_SEPARATOR,
        ),
    ensures
        token_of(path) is None,
{
    let start = STORE_PREFIX@.len() as int;
    if token_of(path) is Some {
        lemma_first_index_from(path, start, TOKEN_SEPARATOR);
        let end = first_index_from(path, start, TOKEN_SEPARATOR)->0;
        assert(path.skip(start)[end - start] == TOKEN_SEPARATOR);
        assert(path.skip(start).contains(TOKEN_SEPARATOR));
    }
}

impl ResolveError {
    /// The message shown to the user.
    pub open spec fn spec_message(self) -> Seq<char> {
        match self {
            ResolveError::Eval(e) => e->detail@,
            ResolveError::NotAPath { detail } => detail@,
            ResolveError::MalformedPath => "Cannot derive path from malformed store path"@,
        }
    }

    /// The message shown to the user.
    pub fn message(&self) -> (text: String)
        ensures
            text@ == self.spec_message(),
    {
        match self {
            ResolveError::Eval(e) => e.message(),
            ResolveError::NotAPath { detail } => detail.clone(),
            ResolveError::MalformedPath => String::from_str(
                "Cannot derive path from malformed store path",
            ),
        }
    }
}

} // verus!
