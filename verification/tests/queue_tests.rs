use sps::job::pusher::{assign_round_robin, backoff_delay, effective_workers, gen_jitter};
use sps::queue::DelayQueue;

#[test]
fn add_then_pop_due_window() {
    let mut q = DelayQueue::new();
    q.add(1, 100);
    q.add(2, 50);
    q.add(3, 150);
    assert_eq!(q.len(), 3);
    let due = q.pop_due(100);
    // exactly the ids with score <= 100, each once
    assert_eq!(due.len(), 2);
    assert!(due.contains(&1) && due.contains(&2));
    assert_eq!(q.len(), 1);
    // the rest stays until its time comes
    assert_eq!(q.pop_due(149).len(), 0);
    assert_eq!(q.pop_due(150), vec![3]);
    assert_eq!(q.len(), 0);
}

#[test]
fn re_adding_replaces_the_score() {
    let mut q = DelayQueue::new();
    q.add(7, 100);
    q.add(7, 500);
    assert_eq!(q.len(), 1);
    assert_eq!(q.pop_due(100).len(), 0);
    assert_eq!(q.pop_due(500), vec![7]);
}

#[test]
fn add_many_schedules_every_id() {
    let mut q = DelayQueue::new();
    q.add(9, 10);
    q.add_many(&vec![(1, 30), (2, 30), (3, 30)]);
    let due = q.pop_due(30);
    assert_eq!(due.len(), 4);
    for id in [9, 1, 2, 3] {
        assert!(due.contains(&id));
    }
}

#[test]
fn pop_due_survives_restart_of_the_process_state() {
    // durability: what matters is the stored (id, fire_at) pairs; a queue
    // rebuilt from them delivers at the same time
    let mut q = DelayQueue::new();
    let now = 1_700_000_000;
    q.add(11, now + 60);
    let kept: Vec<(i64, i64)> = q.entries.iter().map(|e| (e.id, e.fire_at)).collect();
    drop(q);
    let mut rebuilt = DelayQueue::new();
    rebuilt.add_many(&kept);
    assert_eq!(rebuilt.pop_due(now + 59).len(), 0);
    assert_eq!(rebuilt.pop_due(now + 60), vec![11]);
}

#[test]
fn backoff_exact_values() {
    // rc^4 + 15 + r*(rc+1)
    assert_eq!(backoff_delay(0, 0), 15);
    assert_eq!(backoff_delay(0, 29), 44);
    assert_eq!(backoff_delay(1, 0), 16);
    assert_eq!(backoff_delay(1, 29), 74);
    assert_eq!(backoff_delay(2, 7), 16 + 15 + 21);
    assert_eq!(backoff_delay(215, 29), 215i64.pow(4) + 15 + 29 * 216);
}

#[test]
fn backoff_stays_in_the_documented_window() {
    for rc in [0i32, 1, 2, 3, 10, 215] {
        for _ in 0..50 {
            let r = gen_jitter();
            assert!((0..30).contains(&r));
            let d = backoff_delay(rc, r);
            let rc4 = (rc as i64).pow(4);
            assert!(d >= rc4 + 15);
            assert!(d < rc4 + 15 + 30 * (rc as i64 + 1));
        }
    }
}

#[test]
fn round_robin_balances_nine_over_three() {
    let ids: Vec<i64> = (101..110).collect();
    let (assign, next) = assign_round_robin(&ids, 3, 0);
    assert_eq!(assign.len(), 9);
    let mut counts = [0usize; 3];
    for (w, _) in &assign {
        counts[*w] += 1;
    }
    assert_eq!(counts, [3, 3, 3]);
    assert_eq!(next, 0);
    // strictly in turn, keeping id order
    for (k, (w, id)) in assign.iter().enumerate() {
        assert_eq!(*w, k % 3);
        assert_eq!(*id, ids[k]);
    }
}

#[test]
fn round_robin_carries_the_cursor() {
    let ids: Vec<i64> = vec![1, 2, 3, 4];
    let (assign, next) = assign_round_robin(&ids, 3, 2);
    let workers: Vec<usize> = assign.iter().map(|(w, _)| *w).collect();
    assert_eq!(workers, vec![2, 0, 1, 2]);
    assert_eq!(next, 0);
}

#[test]
fn zero_workers_become_one() {
    assert_eq!(effective_workers(0), 1);
    assert_eq!(effective_workers(12), 12);
}
