use loadgen::endpoint::Endpoint;
use loadgen::endpoint::WorkDescriptor;
use loadgen::scheduler::Scheduler;

fn targets(n: u16) -> Vec<WorkDescriptor> {
    (0..n)
        .map(|i| WorkDescriptor {
            local: Endpoint { ip: 0, port: 1 + i },
            remote: Endpoint { ip: 0x7f00_0001, port: 2222 },
        })
        .collect()
}

#[test]
fn window_never_exceeds_concurrency() {
    let mut s = Scheduler::new(targets(5), 2);
    let a = s.start_next().expect("slot free, work remains");
    let b = s.start_next().expect("slot free, work remains");
    assert_eq!(a.0, 0);
    assert_eq!(b.0, 1);
    // Window full: nothing more is handed out.
    assert!(s.start_next().is_none());
    assert_eq!(s.in_flight_count(), 2);
    assert_eq!(s.counters().active, 2);
    assert_eq!(s.counters().submitted, 2);
}

#[test]
fn completion_frees_exactly_one_slot() {
    let mut s = Scheduler::new(targets(5), 2);
    let _ = s.start_next().unwrap();
    let b = s.start_next().unwrap();
    assert!(s.start_next().is_none());
    // Completing any one unit — here the second — frees one slot at once,
    // regardless of the other still running.
    s.complete(b.0);
    assert_eq!(s.in_flight_count(), 1);
    let c = s.start_next().expect("freed slot refills");
    assert_eq!(c.0, 2);
    assert!(s.start_next().is_none());
}

#[test]
fn every_descriptor_exactly_one_outcome() {
    let mut s = Scheduler::new(targets(5), 2);
    let mut seen: Vec<usize> = Vec::new();
    loop {
        while let Some((id, _d)) = s.start_next() {
            seen.push(id);
        }
        if s.in_flight_count() == 0 {
            break;
        }
        // Complete the oldest in-flight unit.
        let id = s.in_flight[0];
        s.complete(id);
    }
    assert!(s.is_done());
    assert_eq!(seen, vec![0, 1, 2, 3, 4]);
    let mut done = s.completed.clone();
    done.sort();
    assert_eq!(done, vec![0, 1, 2, 3, 4]);
    assert_eq!(s.counters().active, 0);
    assert_eq!(s.counters().submitted, 5);
}

#[test]
fn completion_order_may_differ_from_submission() {
    let mut s = Scheduler::new(targets(3), 3);
    let a = s.start_next().unwrap();
    let b = s.start_next().unwrap();
    let c = s.start_next().unwrap();
    // Deliver outcomes newest first.
    s.complete(c.0);
    s.complete(b.0);
    s.complete(a.0);
    assert!(s.is_done());
    assert_eq!(s.completed, vec![2, 1, 0]);
}

#[test]
fn empty_target_space_is_done_at_once() {
    let mut s = Scheduler::new(Vec::new(), 4);
    assert!(s.is_done());
    assert!(s.start_next().is_none());
    assert_eq!(s.completed_count(), 0);
    assert_eq!(s.counters().submitted, 0);
}

#[test]
fn concurrency_one_is_sequential() {
    let mut s = Scheduler::new(targets(3), 1);
    for expected in 0..3usize {
        let (id, _d) = s.start_next().expect("one at a time");
        assert_eq!(id, expected);
        assert!(s.start_next().is_none());
        s.complete(id);
    }
    assert!(s.is_done());
}

#[test]
fn descriptors_are_handed_out_in_enumeration_order() {
    let t = targets(4);
    let mut s = Scheduler::new(t.clone(), 2);
    let (id0, d0) = s.start_next().unwrap();
    let (id1, d1) = s.start_next().unwrap();
    assert_eq!((id0, d0), (0, t[0]));
    assert_eq!((id1, d1), (1, t[1]));
    s.complete(0);
    let (id2, d2) = s.start_next().unwrap();
    assert_eq!((id2, d2), (2, t[2]));
}
