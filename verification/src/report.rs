//! Reporting: what is told of each output on the way, and which outputs are
//! handed on for a build.

use vstd::prelude::*;
use vstd::string::*;
use crate::cache::CacheVerdict;
use crate::json::{json_of_names, json_of_pairs, unwritable, unwritable_message, write_names, write_pairs};
use crate::pipeline::{Checked, Failure, PipelineResult};

verus! {

/// What is told of an output.
#[derive(Debug, Clone, Copy, PartialEq, Eq, Structural)]
pub enum NoticeKind {
    /// The evaluator reported it with the skip token.
    Skipped,
    /// The cache holds it: nothing to build.
    Cached,
    /// The cache does not hold it: it needs a build.
    Build,
    /// It was found, and the cache was not asked.
    Found,
}

/// One line of the diagnostic stream.
#[derive(Debug, Clone, PartialEq, Eq)]
pub struct Notice {
    pub kind: NoticeKind,
    pub name: String,
}

/// The tag that a line begins with.
pub open spec fn tag_of(kind: NoticeKind) -> Seq<char> {
    match kind {
        NoticeKind::Skipped => "[SKIPPED]\t"@,
        NoticeKind::Cached => "[CACHED] \t"@,
        NoticeKind::Build => "[BUILD]  \t"@,
        NoticeKind::Found => "[FOUND]  \t"@,
    }
}

impl Notice {
    /// The line: the tag, then the output's name.
    pub open spec fn spec_line(self) -> Seq<char> {
        tag_of(self.kind) + self.name@
    }

    /// The line: the tag, then the output's name.
    pub fn line(&self) -> (text: String)
        ensures
            text@ == self.spec_line(),
    {
        let mut text = match self.kind {
            NoticeKind::Skipped => String::from_str("[SKIPPED]\t"),
            NoticeKind::Cached => String::from_str("[CACHED] \t"),
            NoticeKind::Build => String::from_str("[BUILD]  \t"),
            NoticeKind::Found => String::from_str("[FOUND]  \t"),
        };
        text.append(self.name.as_str());
        text
    }
}

/// Every notice in `notices` is of `kind`, and their names are `names`, in
/// that order.
pub open spec fn all_of_kind(notices: Seq<Notice>, kind: NoticeKind, names: Seq<String>) -> bool {
    &&& notices.len() == names.len()
    &&& forall|i: int|
        0 <= i < names.len() ==> (#[trigger] notices[i]).kind == kind && notices[i].name@
            == names[i]@
}

/// One notice of `kind` for each name, in the order of the names.
pub fn announce(kind: NoticeKind, names: &Vec<String>) -> (notices: Vec<Notice>)
    ensures
        all_of_kind(notices@, kind, names@),
{
    let mut notices: Vec<Notice> = Vec::new();
    let n = names.len();
    let mut i: usize = 0;
    while i < n
        invariant
            n == names@.len(),
            i <= n,
            all_of_kind(notices@, kind, names@.take(i as int)),
        decreases n - i,
    {
        notices.push(Notice { kind, name: names[i].clone() });
        i = i + 1;
    }
    assert(names@.take(n as int) =~= names@);
    notices
}

/// What the results of a run come to, where none of them is a failure.
#[derive(Debug, Clone, PartialEq, Eq)]
pub struct Report {
    /// One notice for each result, in the order of arrival.
    pub notices: Vec<Notice>,
    /// The outputs that need a build, each with its hash token, in the order
    /// of arrival.
    pub to_build: Vec<(String, String)>,
}

/// The end of a run in which a candidate failed.
#[derive(Debug, Clone, PartialEq, Eq)]
pub struct Fatal {
    /// One notice for each result that arrived before the failure.
    pub notices: Vec<Notice>,
    /// The message of the failure.
    pub message: String,
}

/// The kind of notice that a verdict calls for.
pub open spec fn kind_of(verdict: CacheVerdict) -> NoticeKind {
    match verdict {
        CacheVerdict::Present => NoticeKind::Cached,
        CacheVerdict::Absent => NoticeKind::Build,
    }
}

/// Result `i` is the first failure.
pub open spec fn is_first_failed(results: Seq<PipelineResult>, i: int) -> bool {
    &&& 0 <= i < results.len()
    &&& results[i] is Err
    &&& forall|j: int| 0 <= j < i ==> results[j] is Ok
}

/// `notice` tells of `result`, which is no failure: its kind is that of the
/// verdict, its name that of the candidate.
pub open spec fn is_notice_of(notice: Notice, result: PipelineResult) -> bool {
    &&& result matches Ok(c)
    &&& notice.kind == kind_of(c.verdict)
    &&& notice.name@ == c.candidate@
}

/// `notices` are those of the first `n` results, none of which is a failure.
pub open spec fn notices_match(notices: Seq<Notice>, results: Seq<PipelineResult>, n: int) -> bool {
    &&& notices.len() == n
    &&& forall|i: int|
        0 <= i < n ==> is_notice_of(notices[i], #[trigger] results[i])
}

/// The outputs among `results` that need a build, each with its hash token,
/// in the order of arrival: those whose verdict is absence.
pub open spec fn to_build_of(results: Seq<PipelineResult>) -> Seq<(Seq<char>, Seq<char>)>
    decreases results.len(),
{
    if results.len() == 0 {
        seq![]
    } else {
        let before = to_build_of(results.drop_last());
        match results.last() {
            Ok(c) => if c.verdict == CacheVerdict::Absent {
                before.push((c.candidate@, c.hash@))
            } else {
                before
            },
            Err(_) => before,
        }
    }
}

/// Goes through the results of a run in the order of their arrival. A
/// failure ends it: one candidate without a verdict makes the whole run void.
/// Else each result gets its notice, and the outputs that the cache does not
/// hold are handed on.
pub fn report(results: &Vec<PipelineResult>) -> (r: Result<Report, Fatal>)
    ensures
        match r {
            Ok(rep) => {
                &&& notices_match(rep.notices@, results@, results@.len() as int)
                &&& rep.to_build.deep_view() == to_build_of(results@)
            },
            Err(fatal) => exists|i: int|
                {
                    &&& is_first_failed(results@, i)
                    &&& fatal.message@ == results@[i]->Err_0.spec_message()
                    &&& notices_match(fatal.notices@, results@, i)
                },
        },
{
    let mut notices: Vec<Notice> = Vec::new();
    let mut to_build: Vec<(String, String)> = Vec::new();
    let n = results.len();
    let mut i: usize = 0;
    while i < n
        invariant
            n == results@.len(),
            i <= n,
            notices_match(notices@, results@, i as int),
            to_build.deep_view() == to_build_of(results@.take(i as int)),
        decreases n - i,
    {
        proof {
            assert(results@.take(i + 1).drop_last() =~= results@.take(i as int));
            assert(results@.take(i + 1).last() == results@[i as int]);
        }
        match &results[i] {
            Ok(c) => {
                let ghost before = to_build.deep_view();
                match c.verdict {
                    CacheVerdict::Present => {
                        notices.push(Notice { kind: NoticeKind::Cached, name: c.candidate.clone() });
                    },
                    CacheVerdict::Absent => {
                        notices.push(Notice { kind: NoticeKind::Build, name: c.candidate.clone() });
                        to_build.push((c.candidate.clone(), c.hash.clone()));
                        assert(to_build.deep_view() =~= before.push((c.candidate@, c.hash@)));
                    },
                }
            },
            Err(failure) => {
                assert(is_first_failed(results@, i as int));
                return Err(Fatal { notices, message: failure.message() });
            },
        }
        i = i + 1;
    }
    assert(results@.take(n as int) =~= results@);
    Ok(Report { notices, to_build })
}

/// The names in a list of pairs of name and hash token.
pub fn names_of(pairs: &Vec<(String, String)>) -> (names: Vec<String>)
    ensures
        names.deep_view() == pairs.deep_view().map_values(|p: (Seq<char>, Seq<char>)| p.0),
{
    let mut names: Vec<String> = Vec::new();
    let n = pairs.len();
    let mut i: usize = 0;
    while i < n
        invariant
            n == pairs@.len(),
            i <= n,
            names@.len() == i,
            forall|j: int| 0 <= j < i ==> names@[j]@ == pairs@[j].0@,
        decreases n - i,
    {
        names.push(pairs[i].0.clone());
        i = i + 1;
    }
    assert(names.deep_view() =~= pairs.deep_view().map_values(|p: (Seq<char>, Seq<char>)| p.0));
    names
}

/// Why the outputs could not be written.
#[derive(Debug, Clone, PartialEq, Eq)]
pub struct EncodeError {
    pub detail: String,
}

/// The JSON text of a list of names.
pub fn encode_names(names: &Vec<String>) -> (r: Result<String, EncodeError>)
    ensures
        match json_of_names(names.deep_view()) {
            Some(text) => r matches Ok(out) && out@ == text,
            None => r matches Err(e) && exists|why: Seq<char>| e.detail@ == unwritable_message(why),
        },
{
    match write_names(names) {
        Ok(out) => Ok(out),
        Err(e) => Err(EncodeError { detail: unwritable(&e) }),
    }
}

/// The JSON text of a list of pairs of name and hash token.
pub fn encode_pairs(pairs: &Vec<(String, String)>) -> (r: Result<String, EncodeError>)
    ensures
        match json_of_pairs(pairs.deep_view()) {
            Some(text) => r matches Ok(out) && out@ == text,
            None => r matches Err(e) && exists|why: Seq<char>| e.detail@ == unwritable_message(why),
        },
{
    match write_pairs(pairs) {
        Ok(out) => Ok(out),
        Err(e) => Err(EncodeError { detail: unwritable(&e) }),
    }
}

/// The line that tells the user why the program gave up.
pub fn error_line(message: &str) -> (text: String)
    ensures
        text@ == "Error: "@ + message@,
{
    let mut text = String::from_str("Error: ");
    text.append(message);
    text
}

/// The line that tells which output is looked up, under which hash token and
/// in which cache.
pub fn checking_line(cache: &str, output: &str, hash: &str) -> (text: String)
    ensures
        text@ == "   (Checking "@ + cache@ + " for "@ + output@ + " at "@ + hash@ + ")"@,
{
    let mut text = String::from_str("   (Checking ");
    text.append(cache);
    text.append(" for ");
    text.append(output);
    text.append(" at ");
    text.append(hash);
    text.append(")");
    text
}

} // verus!
