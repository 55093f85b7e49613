use tn::model::Event;
use tn::scheduler::{Action, ConfigError, EventError, Scheduler};

fn queue(ids: &[&str]) -> Vec<String> {
    ids.iter().map(|s| s.to_string()).collect()
}

struct Outcome {
    spawned: Vec<String>,
    advances: usize,
    peak_active: usize,
}

/// Drives a scheduler to the end; `fail` says whether the n-th spawn attempt fails.
fn drive(s: &mut Scheduler, fail: &dyn Fn(usize) -> bool) -> Outcome {
    let mut out = Outcome { spawned: Vec::new(), advances: 0, peak_active: 0 };
    let mut attempt = 0usize;
    loop {
        match s.step() {
            Action::Spawn(task) => {
                if fail(attempt) {
                    s.apply(Event::SpawnFailed).unwrap();
                } else {
                    s.apply(Event::Spawned).unwrap();
                    out.spawned.push(task);
                }
                attempt += 1;
            }
            Action::Wait => {
                s.apply(Event::Exited).unwrap();
                out.advances += 1;
            }
            Action::Done => break,
        }
        out.peak_active = out.peak_active.max(s.active());
        assert!(attempt < 1000);
    }
    out
}

#[test]
fn two_workers_five_tasks() {
    let mut s = Scheduler::new(queue(&["a", "b", "c", "d", "e"]), 2, 1).unwrap();
    let out = drive(&mut s, &|_| false);
    assert_eq!(out.peak_active, 2);
    assert_eq!(out.advances, 5);
    assert_eq!(out.spawned, queue(&["a", "b", "c", "d", "e"]));
    assert_eq!(s.completed(), 5);
    assert_eq!(s.total(), 5);
    assert_eq!(s.remaining(), 0);
    assert_eq!(s.active(), 0);
    assert!(matches!(s.step(), Action::Done));
}

#[test]
fn empty_queue_finishes_at_once() {
    let mut s = Scheduler::new(Vec::new(), 1, 1).unwrap();
    assert!(matches!(s.step(), Action::Done));
    let out = drive(&mut s, &|_| false);
    assert!(out.spawned.is_empty());
    assert_eq!(out.advances, 0);
    assert_eq!(s.completed(), 0);
    assert_eq!(s.total(), 0);
}

#[test]
fn zero_concurrency_is_rejected() {
    assert!(matches!(Scheduler::new(queue(&["a"]), 0, 1), Err(ConfigError::ZeroConcurrency)));
    assert!(matches!(Scheduler::new(queue(&["a"]), 0, 0), Err(ConfigError::ZeroConcurrency)));
}

#[test]
fn zero_attempts_is_rejected() {
    assert!(matches!(Scheduler::new(queue(&["a"]), 1, 0), Err(ConfigError::ZeroAttempts)));
}

#[test]
fn concurrency_never_exceeds_bound() {
    for n in 1..5usize {
        let mut s = Scheduler::new(queue(&["a", "b", "c", "d", "e", "f", "g"]), n, 2).unwrap();
        let out = drive(&mut s, &|_| false);
        assert_eq!(out.peak_active, n);
        assert_eq!(out.advances, 7);
    }
}

#[test]
fn progress_counts_every_task_for_any_bound() {
    for n in 1..9usize {
        let mut s = Scheduler::new(queue(&["x", "y", "z"]), n, 1).unwrap();
        let out = drive(&mut s, &|_| false);
        assert_eq!(out.advances, 3);
        assert_eq!(s.completed(), 3);
    }
}

#[test]
fn single_worker_dispatch_order_is_repeatable() {
    let ids = queue(&["p", "q", "r", "p"]);
    let mut s1 = Scheduler::new(ids.clone(), 1, 1).unwrap();
    let mut s2 = Scheduler::new(ids.clone(), 1, 1).unwrap();
    let o1 = drive(&mut s1, &|_| false);
    let o2 = drive(&mut s2, &|_| false);
    assert_eq!(o1.spawned, ids);
    assert_eq!(o1.spawned, o2.spawned);
    assert_eq!(s1.dispatched(), &vec![0, 1, 2, 3]);
    assert_eq!(s1.dispatched(), s2.dispatched());
}

#[test]
fn duplicate_ids_run_independently() {
    let mut s = Scheduler::new(queue(&["a", "a", "a"]), 2, 1).unwrap();
    let out = drive(&mut s, &|_| false);
    assert_eq!(out.spawned, queue(&["a", "a", "a"]));
    assert_eq!(out.advances, 3);
}

#[test]
fn failed_spawn_is_retried_at_the_head() {
    let mut s = Scheduler::new(queue(&["a", "b"]), 1, 3).unwrap();
    assert!(matches!(s.step(), Action::Spawn(ref t) if t == "a"));
    s.apply(Event::SpawnFailed).unwrap();
    assert_eq!(s.attempts(), 1);
    assert_eq!(s.remaining(), 2);
    assert!(matches!(s.step(), Action::Spawn(ref t) if t == "a"));
    s.apply(Event::Spawned).unwrap();
    assert_eq!(s.attempts(), 0);
    assert_eq!(s.remaining(), 1);
    assert_eq!(s.dispatched(), &vec![0]);
    assert!(s.abandoned().is_empty());
}

#[test]
fn repeatedly_failing_task_is_listed() {
    // attempts 0 and 1 fail: with a limit of two, task "a" is given up
    let mut s = Scheduler::new(queue(&["a", "b", "c"]), 2, 2).unwrap();
    let out = drive(&mut s, &|k| k < 2);
    assert_eq!(out.spawned, queue(&["b", "c"]));
    assert_eq!(s.abandoned(), &vec![0]);
    assert_eq!(s.task(0), "a");
    assert_eq!(s.dispatched(), &vec![1, 2]);
    assert_eq!(out.advances, 2);
    assert_eq!(s.completed() + s.abandoned().len(), s.total());
    assert_eq!(s.remaining(), 0);
}

#[test]
fn spawn_outcome_without_pending_task_is_refused() {
    let mut s = Scheduler::new(queue(&["a"]), 1, 1).unwrap();
    s.apply(Event::Spawned).unwrap();
    assert_eq!(s.apply(Event::Spawned), Err(EventError::NoSpawnPending));
    assert_eq!(s.apply(Event::SpawnFailed), Err(EventError::NoSpawnPending));
    assert_eq!(s.active(), 1);
    assert_eq!(s.remaining(), 0);
}

#[test]
fn exit_without_running_worker_is_refused() {
    let mut s = Scheduler::new(queue(&["a"]), 1, 1).unwrap();
    assert_eq!(s.apply(Event::Exited), Err(EventError::NothingRunning));
    assert_eq!(s.completed(), 0);
    s.apply(Event::Spawned).unwrap();
    s.apply(Event::Exited).unwrap();
    assert_eq!(s.apply(Event::Exited), Err(EventError::NothingRunning));
    assert_eq!(s.completed(), 1);
}

#[test]
fn wait_when_all_slots_are_busy() {
    let mut s = Scheduler::new(queue(&["a", "b", "c"]), 2, 1).unwrap();
    s.apply(Event::Spawned).unwrap();
    s.apply(Event::Spawned).unwrap();
    assert!(matches!(s.step(), Action::Wait));
    s.apply(Event::Exited).unwrap();
    assert!(matches!(s.step(), Action::Spawn(ref t) if t == "c"));
}
