//! The verification pipeline: every candidate is resolved to its hash token
//! and then looked up in the cache, with no more than a fixed number of
//! resolutions and of lookups under way at any time.
//!
//! The pipeline does none of the work itself. It hands out jobs, takes their
//! outcomes in whatever order they arrive, and keeps the one promise that
//! matters: each candidate gets exactly one result, whether or not its jobs
//! succeed.

use vstd::prelude::*;
use crate::cache::{CacheVerdict, VerifyError};
use crate::resolve::ResolveError;

verus! {

/// The number of resolving workers where nothing else is asked for: each
/// resolution runs the evaluator, which is costly.
pub const RESOLVE_WORKERS: usize = 4;

/// The number of verifying workers where nothing else is asked for: each
/// verification is one request to the cache, which is cheap.
pub const VERIFY_WORKERS: usize = 16;

/// Where a candidate stands on its way through the pipeline.
#[derive(Debug, Clone, Copy, PartialEq, Eq, Structural)]
pub enum Phase {
    /// Submitted, and not yet taken by a resolving worker.
    Waiting,
    /// A resolving worker holds it.
    Resolving,
    /// Resolved and relayed, and not yet taken by a verifying worker.
    Relayed,
    /// A verifying worker holds it.
    Verifying,
    /// Its result was emitted.
    Done,
}

/// A candidate that went through both stages.
#[derive(Debug, Clone, PartialEq, Eq)]
pub struct Checked {
    pub candidate: String,
    pub hash: String,
    pub verdict: CacheVerdict,
}

/// Why a candidate did not get through.
#[derive(Debug, Clone, PartialEq, Eq)]
pub enum Failure {
    Resolve(ResolveError),
    Verify(VerifyError),
}

impl Failure {
    /// The message shown to the user.
    pub open spec fn spec_message(self) -> Seq<char> {
        match self {
            Failure::Resolve(e) => e.spec_message(),
            Failure::Verify(e) => e.spec_message(),
        }
    }

    /// The message shown to the user.
    pub fn message(&self) -> (text: String)
        ensures
            text@ == self.spec_message(),
    {
        match self {
            Failure::Resolve(e) => e.message(),
            Failure::Verify(e) => e.message(),
        }
    }
}

/// What the pipeline emits for one candidate.
pub type PipelineResult = Result<Checked, Failure>;

/// Why the pipeline refused a call.
#[derive(Debug, Clone, Copy, PartialEq, Eq, Structural)]
pub enum PipelineError {
    /// A stage with no worker could never run a job.
    NoWorkers,
    /// The outcome is of a job that is not under way.
    NotUnderWay,
}

/// What to do next.
#[derive(Debug, Clone, PartialEq, Eq)]
pub enum Job {
    /// Resolve the hash token of a candidate.
    Resolve { index: usize, candidate: String },
    /// Look a resolved candidate up in the cache.
    Verify { index: usize, candidate: String, hash: String },
    /// Nothing can start before a job under way ends.
    Wait,
    /// Every candidate has its result.
    Finished,
}

/// The number of candidates in `phase`.
pub open spec fn count_in(phases: Seq<Phase>, phase: Phase) -> nat
    decreases phases.len(),
{
    if phases.len() == 0 {
        0
    } else {
        count_in(phases.drop_last(), phase) + if phases.last() == phase {
            1nat
        } else {
            0nat
        }
    }
}

/// Moving one candidate to another phase takes one from the count of the
/// phase it leaves and adds one to the count of the phase it enters.
pub proof fn lemma_count_update(phases: Seq<Phase>, i: int, to: Phase, phase: Phase)
    requires
        0 <= i < phases.len(),
    ensures
        count_in(phases.update(i, to), phase) == count_in(phases, phase) - (if phases[i]
            == phase {
            1int
        } else {
            0int
        }) + (if to == phase {
            1int
        } else {
            0int
        }),
    decreases phases.len(),
{
    let moved = phases.update(i, to);
    if i == phases.len() - 1 {
        assert(moved.drop_last() =~= phases.drop_last());
    } else {
        assert(moved.drop_last() =~= phases.drop_last().update(i, to));
        lemma_count_update(phases.drop_last(), i, to, phase);
    }
}

/// The count of a phase is within the number of candidates; it is zero
/// exactly where no candidate is in the phase, and it is the number of
/// candidates exactly where all of them are.
pub proof fn lemma_count_bounds(phases: Seq<Phase>, phase: Phase)
    ensures
        count_in(phases, phase) <= phases.len(),
        count_in(phases, phase) == 0 <==> forall|i: int|
            0 <= i < phases.len() ==> phases[i] != phase,
        count_in(phases, phase) == phases.len() <==> forall|i: int|
            0 <= i < phases.len() ==> phases[i] == phase,
    decreases phases.len(),
{
    if phases.len() > 0 {
        let front = phases.drop_last();
        lemma_count_bounds(front, phase);
        assert forall|i: int| 0 <= i < front.len() implies front[i] == phases[i] by {}
        if count_in(phases, phase) == 0 {
            assert forall|i: int| 0 <= i < phases.len() implies phases[i] != phase by {
                if i < front.len() {
                    assert(front[i] != phase);
                }
            }
        }
        if count_in(phases, phase) == phases.len() {
            assert forall|i: int| 0 <= i < phases.len() implies phases[i] == phase by {
                if i < front.len() {
                    assert(front[i] == phase);
                }
            }
        }
    }
}

/// Every candidate is in one of the five phases.
pub proof fn lemma_count_total(phases: Seq<Phase>)
    ensures
        count_in(phases, Phase::Waiting) + count_in(phases, Phase::Resolving) + count_in(
            phases,
            Phase::Relayed,
        ) + count_in(phases, Phase::Verifying) + count_in(phases, Phase::Done) == phases.len(),
    decreases phases.len(),
{
    if phases.len() > 0 {
        lemma_count_total(phases.drop_last());
    }
}

/// Candidate `i` is the first in `phase`.
pub open spec fn is_first_in(phases: Seq<Phase>, i: int, phase: Phase) -> bool {
    &&& 0 <= i < phases.len()
    &&& phases[i] == phase
    &&& forall|j: int| 0 <= j < i ==> phases[j] != phase
}

/// No candidate is in `phase`.
pub open spec fn none_in(phases: Seq<Phase>, phase: Phase) -> bool {
    forall|i: int| 0 <= i < phases.len() ==> phases[i] != phase
}

/// The state of one run of the pipeline over a fixed list of candidates.
pub struct Pipeline {
    candidates: Vec<String>,
    phases: Vec<Phase>,
    hashes: Vec<String>,
    resolve_limit: usize,
    verify_limit: usize,
    resolving: usize,
    verifying: usize,
    relayed: usize,
    results: Vec<PipelineResult>,
    order: Vec<usize>,
}

impl Pipeline {
    /// The candidates, in the order of their submission.
    pub closed spec fn candidates(&self) -> Seq<Seq<char>> {
        self.candidates.deep_view()
    }

    /// The phase of each candidate.
    pub closed spec fn phases(&self) -> Seq<Phase> {
        self.phases@
    }

    /// The hash token of candidate `i`, once it is resolved.
    pub closed spec fn hash_of(&self, i: int) -> Seq<char> {
        self.hashes@[i]@
    }

    /// The most resolutions that may be under way.
    pub closed spec fn resolve_limit(&self) -> nat {
        self.resolve_limit as nat
    }

    /// The most verifications that may be under way.
    pub closed spec fn verify_limit(&self) -> nat {
        self.verify_limit as nat
    }

    /// The relay's counter: how many candidates have left the first stage.
    pub closed spec fn relayed(&self) -> nat {
        self.relayed as nat
    }

    /// The results emitted so far, in the order of their arrival.
    pub closed spec fn results(&self) -> Seq<PipelineResult> {
        self.results@
    }

    /// For each result emitted so far, the index of its candidate.
    pub closed spec fn order(&self) -> Seq<usize> {
        self.order@
    }

    /// Every candidate has its result.
    pub open spec fn finished(&self) -> bool {
        self.results().len() == self.candidates().len()
    }

    /// The state is one that a run of the pipeline can reach.
    pub closed spec fn wf(&self) -> bool {
        let n = self.candidates@.len();
        &&& self.phases@.len() == n
        &&& self.hashes@.len() == n
        &&& self.resolve_limit >= 1
        &&& self.verify_limit >= 1
        &&& self.resolving == count_in(self.phases@, Phase::Resolving)
        &&& self.resolving <= self.resolve_limit
        &&& self.verifying == count_in(self.phases@, Phase::Verifying)
        &&& self.verifying <= self.verify_limit
        &&& self.relayed == count_in(self.phases@, Phase::Relayed) + count_in(
            self.phases@,
            Phase::Verifying,
        ) + count_in(self.phases@, Phase::Done)
        &&& self.order@.len() == count_in(self.phases@, Phase::Done)
        &&& self.results@.len() == self.order@.len()
        &&& self.order@.no_duplicates()
        &&& forall|k: int|
            0 <= k < self.order@.len() ==> (#[trigger] self.order@[k]) < n
                && self.phases@[self.order@[k] as int] == Phase::Done
        &&& forall|i: int|
            0 <= i < n && #[trigger] self.phases@[i] == Phase::Done ==> self.order@.contains(
                i as usize,
            )
        &&& forall|k: int|
            0 <= k < self.results@.len() ==> (#[trigger] self.results@[k] matches Ok(c)
                ==> c.candidate@ == self.candidates@[self.order@[k] as int]@ && c.hash@
                == self.hashes@[self.order@[k] as int]@)
    }

    /// A pipeline over `candidates` in which at most `resolve_parallelism`
    /// resolutions and `verify_parallelism` verifications run at a time. A
    /// stage without a worker is refused.
    pub fn new(candidates: Vec<String>, resolve_parallelism: usize, verify_parallelism: usize) -> (r:
        Result<Pipeline, PipelineError>)
        ensures
            match r {
                Ok(p) => {
                    &&& resolve_parallelism >= 1
                    &&& verify_parallelism >= 1
                    &&& p.wf()
                    &&& p.candidates() == candidates.deep_view()
                    &&& p.phases() == Seq::new(candidates.len() as nat, |i: int| Phase::Waiting)
                    &&& p.resolve_limit() == resolve_parallelism
                    &&& p.verify_limit() == verify_parallelism
                    &&& p.relayed() == 0
                    &&& p.results().len() == 0
                    &&& p.order().len() == 0
                },
                Err(e) => e == PipelineError::NoWorkers && (resolve_parallelism == 0
                    || verify_parallelism == 0),
            },
    {
        if resolve_parallelism == 0 || verify_parallelism == 0 {
            return Err(PipelineError::NoWorkers);
        }
        let n = candidates.len();
        let mut phases: Vec<Phase> = Vec::new();
        let mut hashes: Vec<String> = Vec::new();
        let mut i: usize = 0;
        while i < n
            invariant
                i <= n,
                phases@.len() == i,
                hashes@.len() == i,
                forall|j: int| 0 <= j < i ==> phases@[j] == Phase::Waiting,
            decreases n - i,
        {
            phases.push(Phase::Waiting);
            hashes.push(String::new());
            i = i + 1;
        }
        proof {
            lemma_count_bounds(phases@, Phase::Resolving);
            lemma_count_bounds(phases@, Phase::Relayed);
            lemma_count_bounds(phases@, Phase::Verifying);
            lemma_count_bounds(phases@, Phase::Done);
            assert(phases@ =~= Seq::new(n as nat, |i: int| Phase::Waiting));
        }
        Ok(
            Pipeline {
                candidates,
                phases,
                hashes,
                resolve_limit: resolve_parallelism,
                verify_limit: verify_parallelism,
                resolving: 0,
                verifying: 0,
                relayed: 0,
                results: Vec::new(),
                order: Vec::new(),
            },
        )
    }

    /// A verification may start: a verifying worker is free and a relayed
    /// candidate waits for one.
    pub open spec fn can_verify(&self) -> bool {
        count_in(self.phases(), Phase::Verifying) < self.verify_limit() && !none_in(
            self.phases(),
            Phase::Relayed,
        )
    }

    /// A resolution may start: a resolving worker is free and a candidate
    /// waits for one.
    pub open spec fn can_resolve(&self) -> bool {
        count_in(self.phases(), Phase::Resolving) < self.resolve_limit() && !none_in(
            self.phases(),
            Phase::Waiting,
        )
    }

    /// The number of jobs under way.
    pub open spec fn under_way(&self) -> nat {
        count_in(self.phases(), Phase::Resolving) + count_in(self.phases(), Phase::Verifying)
    }

    /// The steps that the run has yet to take: one to start a resolution, one
    /// to end it, one to start a verification and one to end it, for each
    /// candidate that still has them before it.
    pub open spec fn steps_left(&self) -> nat {
        4 * count_in(self.phases(), Phase::Waiting) + 3 * count_in(
            self.phases(),
            Phase::Resolving,
        ) + 2 * count_in(self.phases(), Phase::Relayed) + count_in(
            self.phases(),
            Phase::Verifying,
        )
    }

    /// `after` differs from `self` in the phases at most.
    pub open spec fn same_but_phases(&self, after: &Pipeline) -> bool {
        &&& after.candidates() == self.candidates()
        &&& after.resolve_limit() == self.resolve_limit()
        &&& after.verify_limit() == self.verify_limit()
        &&& after.relayed() == self.relayed()
        &&& after.results() == self.results()
        &&& after.order() == self.order()
        &&& forall|i: int| after.hash_of(i) == self.hash_of(i)
    }

    fn first_index(&self, phase: Phase) -> (found: Option<usize>)
        requires
            self.wf(),
        ensures
            match found {
                Some(i) => is_first_in(self.phases(), i as int, phase),
                None => none_in(self.phases(), phase),
            },
    {
        let n = self.phases.len();
        let mut i: usize = 0;
        while i < n
            invariant
                n == self.phases@.len(),
                i <= n,
                forall|j: int| 0 <= j < i ==> self.phases@[j] != phase,
            decreases n - i,
        {
            if self.phases[i] == phase {
                return Some(i);
            }
            i = i + 1;
        }
        None
    }

    proof fn lemma_move(&self, after: &Pipeline, i: int, to: Phase)
        requires
            self.wf(),
            0 <= i < self.phases@.len(),
            after.phases@ == self.phases@.update(i, to),
        ensures
            forall|phase: Phase| #[trigger]
                count_in(after.phases@, phase) == count_in(self.phases@, phase) - (if self.phases@[i]
                    == phase {
                    1int
                } else {
                    0int
                }) + (if to == phase {
                    1int
                } else {
                    0int
                }),
    {
        assert forall|phase: Phase| #[trigger]
            count_in(after.phases@, phase) == count_in(self.phases@, phase) - (if self.phases@[i]
                == phase {
                1int
            } else {
                0int
            }) + (if to == phase {
                1int
            } else {
                0int
            }) by {
            lemma_count_update(self.phases@, i, to, phase);
        }
    }

    /// Decides what to do next, and books the job that it hands out as under
    /// way. A relayed candidate goes to a free verifying worker before a
    /// waiting one goes to a free resolving worker; within a phase the
    /// candidate submitted first goes first. `Wait` is the answer only while a
    /// job is under way, so a run never comes to a halt before it is finished.
    pub fn next_job(&mut self) -> (job: Job)
        requires
            old(self).wf(),
        ensures
            final(self).wf(),
            old(self).same_but_phases(final(self)),
            job is Resolve || job is Verify ==> final(self).steps_left() + 1
                == old(self).steps_left(),
            match job {
                Job::Verify { index, candidate, hash } => {
                    &&& old(self).can_verify()
                    &&& is_first_in(old(self).phases(), index as int, Phase::Relayed)
                    &&& final(self).phases() == old(self).phases().update(
                        index as int,
                        Phase::Verifying,
                    )
                    &&& candidate@ == old(self).candidates()[index as int]
                    &&& hash@ == old(self).hash_of(index as int)
                },
                Job::Resolve { index, candidate } => {
                    &&& !old(self).can_verify()
                    &&& old(self).can_resolve()
                    &&& is_first_in(old(self).phases(), index as int, Phase::Waiting)
                    &&& final(self).phases() == old(self).phases().update(
                        index as int,
                        Phase::Resolving,
                    )
                    &&& candidate@ == old(self).candidates()[index as int]
                },
                Job::Wait => {
                    &&& !old(self).can_verify()
                    &&& !old(self).can_resolve()
                    &&& !old(self).finished()
                    &&& old(self).under_way() > 0
                    &&& final(self).phases() == old(self).phases()
                },
                Job::Finished => {
                    &&& !old(self).can_verify()
                    &&& !old(self).can_resolve()
                    &&& old(self).finished()
                    &&& final(self).phases() == old(self).phases()
                },
            },
    {
        let ghost before = *self;
        if self.verifying < self.verify_limit {
            match self.first_index(Phase::Relayed) {
                Some(index) => {
                    let candidate = self.candidates[index].clone();
                    let hash = self.hashes[index].clone();
                    self.phases.set(index, Phase::Verifying);
                    self.verifying = self.verifying + 1;
                    proof {
                        before.lemma_move(self, index as int, Phase::Verifying);
                        assert(self.wf());
                    }
                    return Job::Verify { index, candidate, hash };
                },
                None => {},
            }
        }
        if self.resolving < self.resolve_limit {
            match self.first_index(Phase::Waiting) {
                Some(index) => {
                    let candidate = self.candidates[index].clone();
                    self.phases.set(index, Phase::Resolving);
                    self.resolving = self.resolving + 1;
                    proof {
                        before.lemma_move(self, index as int, Phase::Resolving);
                        assert(self.wf());
                    }
                    return Job::Resolve { index, candidate };
                },
                None => {},
            }
        }
        proof {
            lemma_count_total(self.phases@);
            lemma_count_bounds(self.phases@, Phase::Relayed);
            lemma_count_bounds(self.phases@, Phase::Waiting);
        }
        if self.results.len() == self.candidates.len() {
            Job::Finished
        } else {
            Job::Wait
        }
    }

    /// `after` runs over the same candidates within the same limits.
    pub open spec fn same_run(&self, after: &Pipeline) -> bool {
        &&& after.candidates() == self.candidates()
        &&& after.resolve_limit() == self.resolve_limit()
        &&& after.verify_limit() == self.verify_limit()
    }

    /// Candidate `index` is in `phase`.
    pub open spec fn is_in(&self, index: usize, phase: Phase) -> bool {
        index < self.phases().len() && self.phases()[index as int] == phase
    }

    proof fn lemma_emit(&self, after: &Pipeline, index: usize)
        requires
            self.wf(),
            index < self.phases@.len(),
            self.phases@[index as int] != Phase::Done,
            after.phases@ == self.phases@.update(index as int, Phase::Done),
            after.order@ == self.order@.push(index),
        ensures
            after.order@.no_duplicates(),
            forall|k: int|
                0 <= k < after.order@.len() ==> (#[trigger] after.order@[k]) < after.phases@.len()
                    && after.phases@[after.order@[k] as int] == Phase::Done,
            forall|i: int|
                0 <= i < after.phases@.len() && #[trigger] after.phases@[i] == Phase::Done
                    ==> after.order@.contains(i as usize),
            forall|k: int| 0 <= k < self.order@.len() ==> self.order@[k] != index,
    {
        let last = self.order@.len() as int;
        assert forall|k: int| 0 <= k < self.order@.len() implies self.order@[k] != index by {
            assert(self.phases@[self.order@[k] as int] == Phase::Done);
        }
        assert forall|i: int|
            0 <= i < after.phases@.len() && #[trigger] after.phases@[i]
                == Phase::Done implies after.order@.contains(i as usize) by {
            if i == index {
                assert(after.order@[last] == index);
            } else {
                assert(self.phases@[i] == Phase::Done);
                let k = choose|k: int| 0 <= k < self.order@.len() && self.order@[k] == i as usize;
                assert(after.order@[k] == i as usize);
            }
        }
    }

    /// Takes the outcome of the resolution of candidate `index`. The relay
    /// counts the candidate either way. A hash token moves the candidate on
    /// to the second stage; a failure is its result, emitted at once, and
    /// touches no other candidate. An outcome for a candidate that is not
    /// being resolved is refused, and changes nothing.
    pub fn resolved(&mut self, index: usize, outcome: Result<String, ResolveError>) -> (r: Result<
        (),
        PipelineError,
    >)
        requires
            old(self).wf(),
        ensures
            final(self).wf(),
            old(self).same_run(final(self)),
            if old(self).is_in(index, Phase::Resolving) {
                &&& r is Ok
                &&& final(self).relayed() == old(self).relayed() + 1
                &&& match outcome {
                    Ok(hash) => {
                        &&& final(self).steps_left() + 1 == old(self).steps_left()
                        &&& final(self).phases() == old(self).phases().update(
                            index as int,
                            Phase::Relayed,
                        )
                        &&& final(self).hash_of(index as int) == hash@
                        &&& forall|i: int|
                            0 <= i < old(self).phases().len() && i != index
                                ==> final(self).hash_of(i) == old(self).hash_of(i)
                        &&& final(self).results() == old(self).results()
                        &&& final(self).order() == old(self).order()
                    },
                    Err(e) => {
                        &&& final(self).steps_left() + 3 == old(self).steps_left()
                        &&& final(self).phases() == old(self).phases().update(
                            index as int,
                            Phase::Done,
                        )
                        &&& forall|i: int| final(self).hash_of(i) == old(self).hash_of(i)
                        &&& final(self).results() == old(self).results().push(
                            Err(Failure::Resolve(e)),
                        )
                        &&& final(self).order() == old(self).order().push(index)
                    },
                }
            } else {
                r == Err::<(), PipelineError>(PipelineError::NotUnderWay) && *final(self)
                    == *old(self)
            },
    {
        if index >= self.phases.len() || self.phases[index] != Phase::Resolving {
            return Err(PipelineError::NotUnderWay);
        }
        let ghost before = *self;
        proof {
            lemma_count_total(self.phases@);
            lemma_count_bounds(self.phases@, Phase::Resolving);
        }
        self.resolving = self.resolving - 1;
        self.relayed = self.relayed + 1;
        match outcome {
            Ok(hash) => {
                self.hashes.set(index, hash);
                self.phases.set(index, Phase::Relayed);
                proof {
                    before.lemma_move(self, index as int, Phase::Relayed);
                    assert(self.wf());
                }
            },
            Err(e) => {
                self.phases.set(index, Phase::Done);
                self.results.push(Err(Failure::Resolve(e)));
                self.order.push(index);
                proof {
                    before.lemma_move(self, index as int, Phase::Done);
                    before.lemma_emit(self, index);
                    assert(self.wf());
                }
            },
        }
        Ok(())
    }

    /// Takes the outcome of the verification of candidate `index`, which is
    /// the candidate's result either way: the candidate with its hash token
    /// and the verdict, or the failure. It is emitted at once and touches no
    /// other candidate. An outcome for a candidate that is not being verified
    /// is refused, and changes nothing.
    pub fn verified(&mut self, index: usize, outcome: Result<CacheVerdict, VerifyError>) -> (r:
        Result<(), PipelineError>)
        requires
            old(self).wf(),
        ensures
            final(self).wf(),
            old(self).same_run(final(self)),
            if old(self).is_in(index, Phase::Verifying) {
                &&& r is Ok
                &&& final(self).relayed() == old(self).relayed()
                &&& final(self).steps_left() + 1 == old(self).steps_left()
                &&& final(self).phases() == old(self).phases().update(index as int, Phase::Done)
                &&& forall|i: int| final(self).hash_of(i) == old(self).hash_of(i)
                &&& final(self).order() == old(self).order().push(index)
                &&& final(self).results().len() == old(self).results().len() + 1
                &&& final(self).results().drop_last() == old(self).results()
                &&& match outcome {
                    Ok(verdict) => final(self).results().last() matches Ok(c) && c.candidate@
                        == old(self).candidates()[index as int] && c.hash@ == old(self).hash_of(
                        index as int,
                    ) && c.verdict == verdict,
                    Err(e) => final(self).results().last() == Err::<Checked, Failure>(
                        Failure::Verify(e),
                    ),
                }
            } else {
                r == Err::<(), PipelineError>(PipelineError::NotUnderWay) && *final(self)
                    == *old(self)
            },
    {
        if index >= self.phases.len() || self.phases[index] != Phase::Verifying {
            return Err(PipelineError::NotUnderWay);
        }
        let ghost before = *self;
        proof {
            lemma_count_bounds(self.phases@, Phase::Verifying);
        }
        let result = match outcome {
            Ok(verdict) => Ok(
                Checked {
                    candidate: self.candidates[index].clone(),
                    hash: self.hashes[index].clone(),
                    verdict,
                },
            ),
            Err(e) => Err(Failure::Verify(e)),
        };
        self.verifying = self.verifying - 1;
        self.phases.set(index, Phase::Done);
        self.results.push(result);
        self.order.push(index);
        proof {
            before.lemma_move(self, index as int, Phase::Done);
            before.lemma_emit(self, index);
            assert(self.results@.drop_last() =~= before.results@);
            assert(self.wf());
        }
        Ok(())
    }

    /// The number of candidates.
    pub fn len(&self) -> (n: usize)
        requires
            self.wf(),
        ensures
            n == self.candidates().len(),
    {
        self.candidates.len()
    }

    /// The phase of candidate `index`, where there is such a candidate.
    pub fn phase(&self, index: usize) -> (phase: Option<Phase>)
        requires
            self.wf(),
        ensures
            phase == if index < self.phases().len() {
                Some(self.phases()[index as int])
            } else {
                None
            },
    {
        if index < self.phases.len() {
            Some(self.phases[index])
        } else {
            None
        }
    }

    /// The relay's counter.
    pub fn relay_count(&self) -> (n: usize)
        ensures
            n == self.relayed(),
    {
        self.relayed
    }

    /// Whether the relay has passed every candidate on, and so has ended.
    pub fn relay_done(&self) -> (done: bool)
        requires
            self.wf(),
        ensures
            done == (self.relayed() == self.candidates().len()),
    {
        self.relayed == self.candidates.len()
    }

    /// Whether every candidate has its result.
    pub fn is_finished(&self) -> (done: bool)
        requires
            self.wf(),
        ensures
            done == self.finished(),
    {
        self.results.len() == self.candidates.len()
    }

    /// The number of results emitted so far.
    pub fn emitted(&self) -> (n: usize)
        ensures
            n == self.results().len(),
    {
        self.results.len()
    }

    /// For each result emitted so far, the index of its candidate.
    pub fn arrival_order(&self) -> (order: &Vec<usize>)
        ensures
            order@ == self.order(),
    {
        &self.order
    }

    /// Ends the run and hands out the results emitted, in the order of their
    /// arrival.
    pub fn into_results(self) -> (results: Vec<PipelineResult>)
        ensures
            results@ == self.results(),
    {
        self.results
    }
}

/// In every state that a run can reach, whatever the order in which the
/// outcomes arrived: the results emitted are those of the candidates that are
/// done, one each and none twice, and a successful result carries its own
/// candidate and hash token. Once the run is finished that is every
/// candidate.
pub proof fn lemma_one_result_each(p: Pipeline)
    requires
        p.wf(),
    ensures
        p.phases().len() == p.candidates().len(),
        p.results().len() == p.order().len(),
        p.results().len() == count_in(p.phases(), Phase::Done),
        p.results().len() <= p.candidates().len(),
        p.order().no_duplicates(),
        forall|k: int|
            0 <= k < p.order().len() ==> (#[trigger] p.order()[k]) < p.candidates().len()
                && p.phases()[p.order()[k] as int] == Phase::Done,
        forall|i: int|
            0 <= i < p.candidates().len() ==> (#[trigger] p.phases()[i] == Phase::Done
                <==> p.order().contains(i as usize)),
        forall|k: int|
            0 <= k < p.results().len() ==> (#[trigger] p.results()[k] matches Ok(c)
                ==> c.candidate@ == p.candidates()[p.order()[k] as int] && c.hash@ == p.hash_of(
                p.order()[k] as int,
            )),
        p.finished() ==> forall|i: int|
            0 <= i < p.candidates().len() ==> p.phases()[i] == Phase::Done && p.order().contains(
                i as usize,
            ),
{
    lemma_count_bounds(p.phases(), Phase::Done);
    assert(p.phases@.len() == p.phases.len());
    assert forall|i: int| 0 <= i < p.candidates().len() implies (#[trigger] p.phases()[i]
        == Phase::Done <==> p.order().contains(i as usize)) by {
        if p.order().contains(i as usize) {
            let k = choose|k: int| 0 <= k < p.order().len() && p.order()[k] == i as usize;
            assert(p.phases()[p.order()[k] as int] == Phase::Done);
        }
    }
}

/// In every state that a run can reach, no stage has more jobs under way
/// than it has workers, and the relay has counted exactly the candidates
/// that have left the first stage.
pub proof fn lemma_within_limits(p: Pipeline)
    requires
        p.wf(),
    ensures
        p.resolve_limit() >= 1,
        p.verify_limit() >= 1,
        count_in(p.phases(), Phase::Resolving) <= p.resolve_limit(),
        count_in(p.phases(), Phase::Verifying) <= p.verify_limit(),
        p.relayed() == count_in(p.phases(), Phase::Relayed) + count_in(
            p.phases(),
            Phase::Verifying,
        ) + count_in(p.phases(), Phase::Done),
        p.relayed() <= p.candidates().len(),
{
    lemma_count_total(p.phases());
}

/// A run is finished exactly where it has no step left to take. As every job
/// handed out and every outcome taken in is at least one step, a run over `n`
/// candidates ends after `4 * n` of them at most.
pub proof fn lemma_steps_left(p: Pipeline)
    requires
        p.wf(),
    ensures
        p.steps_left() <= 4 * p.candidates().len(),
        p.steps_left() == 0 <==> p.finished(),
{
    lemma_count_total(p.phases());
}

/// A run that is not finished can always go on: a job can start, or one is
/// under way whose outcome will arrive. No failure of one candidate can hold
/// up the others.
pub proof fn lemma_never_stuck(p: Pipeline)
    requires
        p.wf(),
        !p.finished(),
    ensures
        p.can_verify() || p.can_resolve() || p.under_way() > 0,
{
    lemma_count_total(p.phases());
    lemma_count_bounds(p.phases(), Phase::Relayed);
    lemma_count_bounds(p.phases(), Phase::Waiting);
}

} // verus!
