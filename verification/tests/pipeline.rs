use flake_discover::cache::{CacheVerdict, VerifyError};
use flake_discover::pipeline::{Checked, Failure, Job, Phase, Pipeline, PipelineError};
use flake_discover::resolve::ResolveError;

fn names(n: usize) -> Vec<String> {
    (0..n).map(|i| format!("c{}", i)).collect()
}

fn checked(candidate: &str, hash: &str, verdict: CacheVerdict) -> Checked {
    Checked { candidate: candidate.to_string(), hash: hash.to_string(), verdict }
}

/// Runs the pipeline to its end. `pick` chooses which of the jobs under way
/// ends next; a candidate whose index is in `bad_resolve` fails to resolve,
/// one in `bad_verify` fails to verify, and every other one is absent from
/// the cache.
fn run(
    n: usize,
    resolve_limit: usize,
    verify_limit: usize,
    bad_resolve: &[usize],
    bad_verify: &[usize],
    pick: fn(usize, usize) -> usize,
) -> Pipeline {
    let mut p = Pipeline::new(names(n), resolve_limit, verify_limit).unwrap();
    let mut under_way: Vec<(bool, usize)> = Vec::new();
    let mut step = 0usize;
    loop {
        match p.next_job() {
            Job::Resolve { index, candidate } => {
                assert_eq!(candidate, format!("c{}", index));
                under_way.push((true, index));
            }
            Job::Verify { index, candidate, hash } => {
                assert_eq!(candidate, format!("c{}", index));
                assert_eq!(hash, format!("h{}", index));
                under_way.push((false, index));
            }
            Job::Wait => {
                assert!(!under_way.is_empty());
                let (resolving, index) = under_way.remove(pick(step, under_way.len()));
                step += 1;
                if resolving {
                    let outcome = if bad_resolve.contains(&index) {
                        Err(ResolveError::MalformedPath)
                    } else {
                        Ok(format!("h{}", index))
                    };
                    assert_eq!(p.resolved(index, outcome), Ok(()));
                } else {
                    let outcome = if bad_verify.contains(&index) {
                        Err(VerifyError::UnexpectedStatus { code: 500 })
                    } else {
                        Ok(CacheVerdict::Absent)
                    };
                    assert_eq!(p.verified(index, outcome), Ok(()));
                }
            }
            Job::Finished => {
                assert!(under_way.is_empty());
                return p;
            }
        }
        let resolving = under_way.iter().filter(|j| j.0).count();
        let verifying = under_way.len() - resolving;
        assert!(resolving <= resolve_limit);
        assert!(verifying <= verify_limit);
    }
}

fn oldest(_step: usize, _len: usize) -> usize {
    0
}

fn newest(_step: usize, len: usize) -> usize {
    len - 1
}

fn scattered(step: usize, len: usize) -> usize {
    (step * 7 + 3) % len
}

fn assert_one_result_each(p: &Pipeline, n: usize) {
    assert!(p.is_finished());
    assert!(p.relay_done());
    assert_eq!(p.emitted(), n);
    let mut order = p.arrival_order().clone();
    order.sort();
    assert_eq!(order, (0..n).collect::<Vec<usize>>());
    for i in 0..n {
        assert_eq!(p.phase(i), Some(Phase::Done));
    }
}

#[test]
fn a_pipeline_needs_a_worker_in_each_stage() {
    assert_eq!(Pipeline::new(names(2), 0, 1).err(), Some(PipelineError::NoWorkers));
    assert_eq!(Pipeline::new(names(2), 1, 0).err(), Some(PipelineError::NoWorkers));
    assert_eq!(Pipeline::new(names(0), 0, 0).err(), Some(PipelineError::NoWorkers));
    assert!(Pipeline::new(names(2), 1, 1).is_ok());
}

#[test]
fn a_new_pipeline_has_every_candidate_waiting() {
    let p = Pipeline::new(names(3), 4, 16).unwrap();
    assert_eq!(p.len(), 3);
    assert_eq!(p.emitted(), 0);
    assert_eq!(p.relay_count(), 0);
    assert!(!p.is_finished());
    for i in 0..3 {
        assert_eq!(p.phase(i), Some(Phase::Waiting));
    }
    assert_eq!(p.phase(3), None);
}

#[test]
fn a_pipeline_without_candidates_is_finished_at_once() {
    let mut p = Pipeline::new(Vec::new(), 4, 16).unwrap();
    assert!(p.is_finished());
    assert!(p.relay_done());
    assert_eq!(p.next_job(), Job::Finished);
    assert!(p.into_results().is_empty());
}

#[test]
fn exactly_one_result_for_each_candidate_in_every_order_of_arrival() {
    for n in [1usize, 2, 5, 17] {
        for (rl, vl) in [(1usize, 1usize), (2, 3), (4, 16), (50, 50)] {
            for pick in [oldest as fn(usize, usize) -> usize, newest, scattered] {
                let p = run(n, rl, vl, &[], &[], pick);
                assert_one_result_each(&p, n);
                let results = p.into_results();
                assert_eq!(results.len(), n);
                assert!(results.iter().all(|r| r.is_ok()));
            }
        }
    }
}

#[test]
fn results_come_in_the_order_of_arrival() {
    let mut p = Pipeline::new(names(2), 2, 2).unwrap();
    assert_eq!(p.next_job(), Job::Resolve { index: 0, candidate: "c0".to_string() });
    assert_eq!(p.next_job(), Job::Resolve { index: 1, candidate: "c1".to_string() });
    assert_eq!(p.next_job(), Job::Wait);
    assert_eq!(p.resolved(1, Ok("h1".to_string())), Ok(()));
    assert_eq!(p.resolved(0, Ok("h0".to_string())), Ok(()));
    assert_eq!(
        p.next_job(),
        Job::Verify { index: 0, candidate: "c0".to_string(), hash: "h0".to_string() }
    );
    assert_eq!(
        p.next_job(),
        Job::Verify { index: 1, candidate: "c1".to_string(), hash: "h1".to_string() }
    );
    assert_eq!(p.verified(1, Ok(CacheVerdict::Present)), Ok(()));
    assert_eq!(p.verified(0, Ok(CacheVerdict::Absent)), Ok(()));
    assert_eq!(p.next_job(), Job::Finished);
    assert_eq!(p.arrival_order(), &vec![1usize, 0]);
    assert_eq!(
        p.into_results(),
        vec![
            Ok(checked("c1", "h1", CacheVerdict::Present)),
            Ok(checked("c0", "h0", CacheVerdict::Absent)),
        ]
    );
}

#[test]
fn a_failed_resolution_still_gives_its_candidate_a_result() {
    let mut p = Pipeline::new(names(3), 4, 16).unwrap();
    assert!(matches!(p.next_job(), Job::Resolve { index: 0, .. }));
    assert!(matches!(p.next_job(), Job::Resolve { index: 1, .. }));
    assert!(matches!(p.next_job(), Job::Resolve { index: 2, .. }));
    assert_eq!(p.resolved(1, Err(ResolveError::MalformedPath)), Ok(()));
    assert_eq!(p.emitted(), 1);
    assert_eq!(p.relay_count(), 1);
    assert_eq!(p.phase(1), Some(Phase::Done));
    assert_eq!(p.phase(0), Some(Phase::Resolving));
    assert_eq!(p.phase(2), Some(Phase::Resolving));
    assert_eq!(p.arrival_order(), &vec![1usize]);
    assert_eq!(p.resolved(0, Ok("h0".to_string())), Ok(()));
    assert_eq!(p.resolved(2, Ok("h2".to_string())), Ok(()));
    assert!(p.relay_done());
    assert!(matches!(p.next_job(), Job::Verify { index: 0, .. }));
    assert!(matches!(p.next_job(), Job::Verify { index: 2, .. }));
    assert_eq!(p.verified(0, Ok(CacheVerdict::Present)), Ok(()));
    assert_eq!(p.verified(2, Ok(CacheVerdict::Absent)), Ok(()));
    assert_eq!(p.next_job(), Job::Finished);
    assert_eq!(
        p.into_results(),
        vec![
            Err(Failure::Resolve(ResolveError::MalformedPath)),
            Ok(checked("c0", "h0", CacheVerdict::Present)),
            Ok(checked("c2", "h2", CacheVerdict::Absent)),
        ]
    );
}

#[test]
fn failures_in_either_stage_do_not_hold_up_the_others() {
    for pick in [oldest as fn(usize, usize) -> usize, newest, scattered] {
        let p = run(9, 2, 3, &[0, 4, 8], &[1, 5], pick);
        assert_one_result_each(&p, 9);
        let order = p.arrival_order().clone();
        let results = p.into_results();
        for (k, r) in results.iter().enumerate() {
            let i = order[k];
            if [0usize, 4, 8].contains(&i) {
                assert_eq!(r, &Err(Failure::Resolve(ResolveError::MalformedPath)));
            } else if [1usize, 5].contains(&i) {
                assert_eq!(
                    r,
                    &Err(Failure::Verify(VerifyError::UnexpectedStatus { code: 500 }))
                );
            } else {
                assert_eq!(
                    r,
                    &Ok(checked(&format!("c{}", i), &format!("h{}", i), CacheVerdict::Absent))
                );
            }
        }
    }
}

#[test]
fn every_resolution_failing_still_finishes_the_run() {
    let all: Vec<usize> = (0..6).collect();
    let p = run(6, 2, 2, &all, &[], scattered);
    assert_one_result_each(&p, 6);
    assert!(p.into_results().iter().all(|r| r.is_err()));
}

#[test]
fn no_more_resolutions_start_than_the_stage_has_workers() {
    let mut p = Pipeline::new(names(5), 2, 16).unwrap();
    assert!(matches!(p.next_job(), Job::Resolve { index: 0, .. }));
    assert!(matches!(p.next_job(), Job::Resolve { index: 1, .. }));
    assert_eq!(p.next_job(), Job::Wait);
    assert_eq!(p.phase(2), Some(Phase::Waiting));
    assert_eq!(p.resolved(0, Ok("h0".to_string())), Ok(()));
    assert!(matches!(p.next_job(), Job::Verify { index: 0, .. }));
    assert!(matches!(p.next_job(), Job::Resolve { index: 2, .. }));
    assert_eq!(p.next_job(), Job::Wait);
}

#[test]
fn no_more_verifications_start_than_the_stage_has_workers() {
    let mut p = Pipeline::new(names(3), 3, 1).unwrap();
    for _ in 0..3 {
        assert!(matches!(p.next_job(), Job::Resolve { .. }));
    }
    for i in 0..3 {
        assert_eq!(p.resolved(i, Ok(format!("h{}", i))), Ok(()));
    }
    assert!(matches!(p.next_job(), Job::Verify { index: 0, .. }));
    assert_eq!(p.next_job(), Job::Wait);
    assert_eq!(p.phase(1), Some(Phase::Relayed));
    assert_eq!(p.verified(0, Ok(CacheVerdict::Present)), Ok(()));
    assert!(matches!(p.next_job(), Job::Verify { index: 1, .. }));
    assert_eq!(p.next_job(), Job::Wait);
}

#[test]
fn verification_is_not_started_before_resolution_has_ended() {
    let mut p = Pipeline::new(names(1), 1, 1).unwrap();
    assert_eq!(
        p.verified(0, Ok(CacheVerdict::Present)),
        Err(PipelineError::NotUnderWay)
    );
    assert!(matches!(p.next_job(), Job::Resolve { index: 0, .. }));
    assert_eq!(
        p.verified(0, Ok(CacheVerdict::Present)),
        Err(PipelineError::NotUnderWay)
    );
    assert_eq!(p.next_job(), Job::Wait);
    assert_eq!(p.resolved(0, Ok("h".to_string())), Ok(()));
    assert_eq!(
        p.verified(0, Ok(CacheVerdict::Present)),
        Err(PipelineError::NotUnderWay)
    );
    assert!(matches!(p.next_job(), Job::Verify { index: 0, .. }));
    assert_eq!(p.verified(0, Ok(CacheVerdict::Present)), Ok(()));
    assert_eq!(p.emitted(), 1);
}

#[test]
fn an_outcome_of_a_job_not_under_way_changes_nothing() {
    let mut p = Pipeline::new(names(2), 1, 1).unwrap();
    assert_eq!(p.resolved(0, Ok("h".to_string())), Err(PipelineError::NotUnderWay));
    assert_eq!(p.resolved(7, Ok("h".to_string())), Err(PipelineError::NotUnderWay));
    assert_eq!(p.verified(7, Ok(CacheVerdict::Absent)), Err(PipelineError::NotUnderWay));
    assert_eq!(p.relay_count(), 0);
    assert_eq!(p.emitted(), 0);
    assert_eq!(p.phase(0), Some(Phase::Waiting));
    assert!(matches!(p.next_job(), Job::Resolve { index: 0, .. }));
    assert_eq!(p.resolved(0, Err(ResolveError::MalformedPath)), Ok(()));
    // A second outcome for the same candidate gives no second result.
    assert_eq!(
        p.resolved(0, Err(ResolveError::MalformedPath)),
        Err(PipelineError::NotUnderWay)
    );
    assert_eq!(p.emitted(), 1);
    assert_eq!(p.relay_count(), 1);
}

#[test]
fn the_same_name_submitted_twice_gets_two_results() {
    let mut p = Pipeline::new(vec!["x".to_string(), "x".to_string()], 2, 2).unwrap();
    assert!(matches!(p.next_job(), Job::Resolve { index: 0, .. }));
    assert!(matches!(p.next_job(), Job::Resolve { index: 1, .. }));
    assert_eq!(p.resolved(0, Ok("h".to_string())), Ok(()));
    assert_eq!(p.resolved(1, Ok("h".to_string())), Ok(()));
    assert!(matches!(p.next_job(), Job::Verify { index: 0, .. }));
    assert!(matches!(p.next_job(), Job::Verify { index: 1, .. }));
    assert_eq!(p.verified(0, Ok(CacheVerdict::Absent)), Ok(()));
    assert_eq!(p.verified(1, Ok(CacheVerdict::Absent)), Ok(()));
    assert_eq!(p.into_results().len(), 2);
}

#[test]
fn failure_messages() {
    assert_eq!(
        Failure::Resolve(ResolveError::MalformedPath).message(),
        "Cannot derive path from malformed store path"
    );
    assert_eq!(
        Failure::Verify(VerifyError::UnexpectedStatus { code: 503 }).message(),
        "Unable to query binary cache (http status: 503)"
    );
}
