//! Whole-run scenarios, driving the verified run state machine with a real
//! asynchronous runtime, real sleeps and real deadlines.

use std::time::Duration;
use std::time::Instant;

use loadgen::endpoint::Endpoint;
use loadgen::endpoint::WorkDescriptor;
use loadgen::outcome::Outcome;
use loadgen::outcome::UnitEvent;
use loadgen::run::Run;

fn targets(n: u16) -> Vec<WorkDescriptor> {
    (0..n)
        .map(|i| WorkDescriptor {
            local: Endpoint { ip: 0, port: 1 + i },
            remote: Endpoint { ip: 0x7f00_0001, port: 2222 },
        })
        .collect()
}

/// Drive a run to completion: each unit sleeps for its configured duration
/// (a duration of `None` never returns), under `deadline` measured from the
/// unit's start. Returns the outcomes in completion order.
fn drive(
    concurrency: usize,
    unit_millis: Vec<Option<u64>>,
    deadline: Duration,
) -> (Run, Vec<(usize, Outcome)>) {
    let rt = tokio::runtime::Builder::new_multi_thread()
        .worker_threads(2)
        .enable_time()
        .build()
        .expect("runtime");
    rt.block_on(async move {
        let n = unit_millis.len() as u16;
        let mut run = Run::new(targets(n), concurrency, 10000);
        let mut tasks: tokio::task::JoinSet<(usize, UnitEvent)> = tokio::task::JoinSet::new();
        let mut outcomes: Vec<(usize, Outcome)> = Vec::new();
        loop {
            while let Some((id, _d)) = run.start_next() {
                let millis = unit_millis[id];
                tasks.spawn(async move {
                    let work = async move {
                        match millis {
                            Some(ms) => tokio::time::sleep(Duration::from_millis(ms)).await,
                            None => std::future::pending::<()>().await,
                        }
                    };
                    let ev = match tokio::time::timeout(deadline, work).await {
                        Ok(()) => UnitEvent::Finished {
                            exit_code: Some(0),
                            stdout: Vec::new(),
                            stderr: Vec::new(),
                        },
                        Err(_) => UnitEvent::DeadlineElapsed,
                    };
                    (id, ev)
                });
            }
            match tasks.join_next().await {
                None => break,
                Some(joined) => {
                    let (id, ev) = match joined {
                        Ok(pair) => pair,
                        Err(e) => panic!("join error in scenario: {e}"),
                    };
                    let (o, _detailed) = run.on_unit_event(id, ev);
                    outcomes.push((id, o));
                }
            }
        }
        assert!(run.is_done());
        (run, outcomes)
    })
}

#[test]
fn slot_reuse_beats_batch_wait() {
    // Two slots, five units: the first two take 100ms, the rest 10ms. With
    // a sliding window the wall time is about 100 + 10 + 10 + 10 ms; a
    // batch-wait design would need at least two full 100ms rounds.
    let start = Instant::now();
    let (run, outcomes) = drive(
        2,
        vec![Some(100), Some(100), Some(10), Some(10), Some(10)],
        Duration::from_secs(5),
    );
    let elapsed = start.elapsed();
    assert_eq!(outcomes.len(), 5);
    for (_id, o) in &outcomes {
        assert!(matches!(o, Outcome::Success { .. }));
    }
    assert_eq!(run.agg.successes, 5);
    assert!(elapsed >= Duration::from_millis(100));
    assert!(elapsed < Duration::from_millis(1000), "batch-wait behaviour: {elapsed:?}");
    assert_eq!(run.sched.counters.active, 0);
}

#[test]
fn hung_unit_times_out_and_frees_its_slot() {
    // One unit that never returns, deadline 50ms: exactly one Timeout
    // outcome at about 50ms, and the active count is back to zero after
    // the outcome is delivered.
    let start = Instant::now();
    let (run, outcomes) = drive(1, vec![None], Duration::from_millis(50));
    let elapsed = start.elapsed();
    assert_eq!(outcomes.len(), 1);
    assert!(matches!(outcomes[0], (0, Outcome::Timeout)));
    assert!(elapsed >= Duration::from_millis(50));
    assert!(elapsed < Duration::from_millis(2000));
    assert_eq!(run.sched.counters.active, 0);
    assert_eq!(run.agg.timeouts, 1);
}

#[test]
fn deadline_runs_from_unit_start_not_enqueue() {
    // One slot, two units of 80ms each, deadline 120ms. The second unit is
    // enqueued at time zero but starts only at about 80ms; measured from
    // its own start it finishes well inside the deadline. A deadline
    // measured from enqueue time would expire it.
    let (run, outcomes) = drive(1, vec![Some(80), Some(80)], Duration::from_millis(120));
    assert_eq!(outcomes.len(), 2);
    for (_id, o) in &outcomes {
        assert!(matches!(o, Outcome::Success { .. }));
    }
    assert_eq!(run.agg.timeouts, 0);
    assert_eq!(run.agg.successes, 2);
}

#[test]
fn failures_and_timeouts_never_abort_the_run() {
    // A mix of hung and quick units: the hung ones time out, the quick
    // ones succeed, and every descriptor still gets exactly one outcome.
    let (run, outcomes) = drive(
        2,
        vec![None, Some(5), None, Some(5), Some(5)],
        Duration::from_millis(60),
    );
    assert_eq!(outcomes.len(), 5);
    let mut ids: Vec<usize> = outcomes.iter().map(|(id, _)| *id).collect();
    ids.sort();
    assert_eq!(ids, vec![0, 1, 2, 3, 4]);
    assert_eq!(run.agg.timeouts, 2);
    assert_eq!(run.agg.successes, 3);
    assert_eq!(run.agg.done, 5);
}

#[test]
fn empty_space_emits_no_outcomes() {
    // No descriptors (as after a resolution that yielded nothing usable):
    // the run is over before any unit is submitted.
    let (run, outcomes) = drive(4, Vec::new(), Duration::from_millis(50));
    assert!(outcomes.is_empty());
    assert_eq!(run.sched.counters.submitted, 0);
    assert_eq!(run.agg.done, 0);
}
