use q_tasks::ops::{MutationQueue, Op};
use q_tasks::poll::PollStatus;
use q_tasks::state::{TaskError, World};

fn delivered_count(w: &World, e: u64) -> usize {
    w.delivered.iter().filter(|&&d| d == e).count()
}

fn flag_set(w: &World, x: u64) -> bool {
    w.flags.contains(&x)
}

fn finished_queue(id: u64, body: &[Op], notify: Option<u64>) -> PollStatus {
    let mut q = MutationQueue::new();
    for op in body {
        q.push(*op);
    }
    q.seal(id, notify);
    PollStatus::Finished(q)
}

#[test]
fn immediate_completion_sets_flag_and_cleans_up() {
    // Scenario A: a body that returns at once with one domain mutation.
    let mut w = World::new();
    let pre = w.records.len();
    let id = w.launch(true).unwrap();
    let r = w.tick(vec![(id, finished_queue(id, &[Op::SetFlag(7)], None))]);
    assert!(r.is_ok());
    assert!(flag_set(&w, 7));
    assert_eq!(w.records.len(), pre);
}

#[test]
fn long_running_body_stays_live_and_silent() {
    // Scenario B: a body that never returns; poll it many times.
    let mut w = World::new();
    let pre = w.records.len();
    let id = w.launch(true).unwrap();
    for _ in 0..5 {
        let r = w.tick(vec![(id, PollStatus::Pending)]);
        assert!(r.is_ok());
        assert_eq!(w.records.len(), pre + 1);
        assert!(!flag_set(&w, 7));
    }
}

#[test]
fn two_notifications_delivered_once_each_no_cross() {
    // Scenario C: two tasks with distinct notifications, no cross-delivery.
    let mut w = World::new();
    let a = w.launch(true).unwrap();
    let b = w.launch(true).unwrap();
    let r = w.tick(vec![
        (a, finished_queue(a, &[], Some(1))),
        (b, finished_queue(b, &[], Some(2))),
    ]);
    assert!(r.is_ok());
    assert_eq!(delivered_count(&w, 1), 1);
    assert_eq!(delivered_count(&w, 2), 1);
    assert_eq!(w.delivered.len(), 2);
    assert_eq!(w.records.len(), 0);
}

#[test]
fn aborted_body_fails_the_poll_and_leaks_nothing_silently() {
    // Scenario D: the fixed policy propagates the abnormal termination to the
    // owning thread on every tick that polls the record, and the record stays.
    let mut w = World::new();
    let id = w.launch(true).unwrap();
    let r = w.tick(vec![(id, PollStatus::Aborted)]);
    assert_eq!(r, Err(TaskError::TaskFailure(id)));
    assert_eq!(w.records.len(), 1);
    // re-polling surfaces the same failure again
    let r2 = w.tick(vec![(id, PollStatus::Aborted)]);
    assert_eq!(r2, Err(TaskError::TaskFailure(id)));
    assert_eq!(w.records.len(), 1);
    assert!(w.delivered.is_empty());
}

#[test]
fn rejected_spawn_leaves_no_record() {
    let mut w = World::new();
    let before_records = w.records.clone();
    let before_next = w.next_id;
    let r = w.launch(false);
    assert_eq!(r, Err(TaskError::SpawnFailure));
    assert_eq!(w.records, before_records);
    assert_eq!(w.next_id, before_next);
}

#[test]
fn pending_poll_has_no_observable_effect() {
    let mut w = World::new();
    let id = w.launch(true).unwrap();
    let records = w.records.clone();
    let next_id = w.next_id;
    let r = w.poll_all(vec![(id, PollStatus::Pending)]);
    assert!(r.is_ok());
    assert_eq!(w.records, records);
    assert_eq!(w.next_id, next_id);
    assert!(w.pending.is_empty());
    assert!(w.flags.is_empty());
    assert!(w.delivered.is_empty());
}

#[test]
fn polling_twice_in_one_tick_merges_once() {
    // Idempotence: a completed result is taken at most once, however often
    // poll-all runs before the tick applies the buffer.
    let mut w = World::new();
    let id = w.launch(true).unwrap();
    let r1 = w.poll_all(vec![(id, finished_queue(id, &[Op::SetFlag(3)], Some(9)))]);
    assert!(r1.is_ok());
    let merged = w.pending.clone();
    let r2 = w.poll_all(vec![(id, finished_queue(id, &[Op::SetFlag(3)], Some(9)))]);
    assert!(r2.is_ok());
    assert_eq!(w.pending, merged);
    w.apply_pending();
    assert_eq!(w.flags, vec![3]);
    assert_eq!(delivered_count(&w, 9), 1);
    assert_eq!(w.records.len(), 0);
}

#[test]
fn operations_apply_in_append_order() {
    let mut w = World::new();
    let id = w.launch(true).unwrap();
    let body = [Op::SetValue(1), Op::SetValue(2)];
    let r = w.tick(vec![(id, finished_queue(id, &body, None))]);
    assert!(r.is_ok());
    assert_eq!(w.value, 2);

    let mut w2 = World::new();
    let id2 = w2.launch(true).unwrap();
    let body2 = [Op::SetValue(2), Op::SetValue(1)];
    let r2 = w2.tick(vec![(id2, finished_queue(id2, &body2, None))]);
    assert!(r2.is_ok());
    assert_eq!(w2.value, 1);
}

#[test]
fn first_finished_first_applied() {
    // Results merge in sweep order, so the later entry's register write wins.
    let mut w = World::new();
    let a = w.launch(true).unwrap();
    let b = w.launch(true).unwrap();
    let r = w.tick(vec![
        (a, finished_queue(a, &[Op::SetValue(10)], None)),
        (b, finished_queue(b, &[Op::SetValue(20)], None)),
    ]);
    assert!(r.is_ok());
    assert_eq!(w.value, 20);
    assert_eq!(w.records.len(), 0);
}

#[test]
fn notification_only_after_record_is_gone() {
    // Whenever a notification has been delivered, the record that requested
    // it has already been destroyed; before completion nothing is delivered.
    let mut w = World::new();
    let id = w.launch(true).unwrap();
    let r = w.tick(vec![(id, PollStatus::Pending)]);
    assert!(r.is_ok());
    assert_eq!(delivered_count(&w, 5), 0);
    let r2 = w.tick(vec![(id, finished_queue(id, &[], Some(5)))]);
    assert!(r2.is_ok());
    assert_eq!(delivered_count(&w, 5), 1);
    assert!(!w.records.iter().any(|rec| rec.id == id));
}

#[test]
fn unknown_record_poll_is_ignored() {
    let mut w = World::new();
    let r = w.tick(vec![(42, finished_queue(42, &[Op::SetFlag(1)], Some(1)))]);
    assert!(r.is_ok());
    assert!(w.flags.is_empty());
    assert!(w.delivered.is_empty());
}

#[test]
fn empty_sweep_changes_nothing() {
    let mut w = World::new();
    let id = w.launch(true).unwrap();
    let r = w.tick(Vec::new());
    assert!(r.is_ok());
    assert_eq!(w.records.len(), 1);
    assert_eq!(w.records[0].id, id);
}

#[test]
fn abort_stops_the_sweep_but_later_ticks_recover() {
    let mut w = World::new();
    let a = w.launch(true).unwrap();
    let b = w.launch(true).unwrap();
    let r = w.poll_all(vec![
        (a, PollStatus::Aborted),
        (b, finished_queue(b, &[Op::SetFlag(8)], None)),
    ]);
    assert_eq!(r, Err(TaskError::TaskFailure(a)));
    // the sweep stopped before b; a later tick still observes b's completion
    assert!(w.pending.is_empty());
    let r2 = w.tick(vec![(b, finished_queue(b, &[Op::SetFlag(8)], None))]);
    assert!(r2.is_ok());
    assert!(flag_set(&w, 8));
    assert_eq!(w.records.len(), 1);
    assert_eq!(w.records[0].id, a);
}

#[test]
fn three_bodies_across_two_ticks() {
    // Two bodies finish on the first tick, a slow one only on the second.
    let mut w = World::new();
    let a = w.launch(true).unwrap();
    let b = w.launch(true).unwrap();
    let c = w.launch(true).unwrap();
    let r1 = w.tick(vec![
        (a, finished_queue(a, &[Op::SetFlag(1)], Some(1))),
        (b, finished_queue(b, &[Op::SetFlag(2)], Some(2))),
        (c, PollStatus::Pending),
    ]);
    assert!(r1.is_ok());
    assert!(flag_set(&w, 1) && flag_set(&w, 2) && !flag_set(&w, 3));
    assert_eq!(delivered_count(&w, 1), 1);
    assert_eq!(delivered_count(&w, 2), 1);
    assert_eq!(delivered_count(&w, 3), 0);
    assert_eq!(w.records.len(), 1);
    let r2 = w.tick(vec![(c, finished_queue(c, &[Op::SetFlag(3)], Some(3)))]);
    assert!(r2.is_ok());
    assert!(flag_set(&w, 3));
    assert_eq!(delivered_count(&w, 3), 1);
    assert_eq!(w.records.len(), 0);
}

#[test]
fn identities_are_fresh_across_launches() {
    let mut w = World::new();
    let a = w.launch(true).unwrap();
    let b = w.launch(true).unwrap();
    assert_ne!(a, b);
    let r = w.tick(vec![(a, finished_queue(a, &[], None)), (b, PollStatus::Pending)]);
    assert!(r.is_ok());
    let c = w.launch(true).unwrap();
    assert_ne!(c, a);
    assert_ne!(c, b);
}
