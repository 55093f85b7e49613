use vstd::prelude::*;
use crate::model::{count_exits, strictly_increasing, Event, SchedView};

verus! {

/// Every enabled event keeps the scheduler state well formed and brings the
/// run strictly closer to its end.
pub proof fn lemma_step_wf(s: SchedView, e: Event)
    requires
        s.wf(),
        s.enabled(e),
    ensures
        s.after(e).wf(),
        s.after(e).measure() < s.measure(),
{
    let t = s.after(e);
    match e {
        Event::Spawned => {
            assert forall|i: nat| i < t.next implies #[trigger] t.dispatched.contains(i)
                != t.abandoned.contains(i) by {
                if i < s.next {
                    assert(s.dispatched.contains(i) != s.abandoned.contains(i));
                    if s.dispatched.contains(i) {
                        let k = choose|k: int| 0 <= k < s.dispatched.len() && s.dispatched[k] == i;
                        assert(t.dispatched[k] == i);
                    } else {
                        assert(!t.dispatched.contains(i)) by {
                            if t.dispatched.contains(i) {
                                let k = choose|k: int|
                                    0 <= k < t.dispatched.len() && t.dispatched[k] == i;
                                if k < s.dispatched.len() {
                                    assert(s.dispatched[k] == i);
                                }
                            }
                        }
                    }
                } else {
                    assert(t.dispatched[t.dispatched.len() - 1] == i);
                    assert(!s.abandoned.contains(i)) by {
                        if s.abandoned.contains(i) {
                            let k = choose|k: int| 0 <= k < s.abandoned.len() && s.abandoned[k] == i;
                        }
                    }
                }
            }
            if s.abandoned.len() == 0 {
                assert(t.dispatched =~= Seq::new(t.next, |i: int| i as nat));
            }
            assert(s.remaining() == t.remaining() + 1);
            assert(s.remaining() * (s.max_attempts + 1) == t.remaining() * (s.max_attempts + 1)
                + s.max_attempts + 1) by (nonlinear_arith)
                requires
                    s.remaining() == t.remaining() + 1,
            ;
        },
        Event::SpawnFailed => {
            if s.attempts + 1 < s.max_attempts {
                assert(t.accounted());
            } else {
                assert forall|i: nat| i < t.next implies #[trigger] t.dispatched.contains(i)
                    != t.abandoned.contains(i) by {
                    if i < s.next {
                        assert(s.dispatched.contains(i) != s.abandoned.contains(i));
                        if s.abandoned.contains(i) {
                            let k = choose|k: int|
                                0 <= k < s.abandoned.len() && s.abandoned[k] == i;
                            assert(t.abandoned[k] == i);
                        } else {
                            assert(!t.abandoned.contains(i)) by {
                                if t.abandoned.contains(i) {
                                    let k = choose|k: int|
                                        0 <= k < t.abandoned.len() && t.abandoned[k] == i;
                                    if k < s.abandoned.len() {
                                        assert(s.abandoned[k] == i);
                                    }
                                }
                            }
                        }
                    } else {
                        assert(t.abandoned[t.abandoned.len() - 1] == i);
                        assert(!s.dispatched.contains(i)) by {
                            if s.dispatched.contains(i) {
                                let k = choose|k: int|
                                    0 <= k < s.dispatched.len() && s.dispatched[k] == i;
                            }
                        }
                    }
                }
                assert(s.remaining() == t.remaining() + 1);
                assert(s.remaining() * (s.max_attempts + 1) == t.remaining() * (s.max_attempts
                    + 1) + s.max_attempts + 1) by (nonlinear_arith)
                    requires
                        s.remaining() == t.remaining() + 1,
                ;
            }
        },
        Event::Exited => {
            assert(t.accounted());
        },
    }
}

/// A run from a well-formed state keeps it well formed, counts one completion
/// per exit, and takes no more events than the measure allows.
pub proof fn lemma_run_wf(s: SchedView, events: Seq<Event>)
    requires
        s.wf(),
        s.run(events) is Some,
    ensures
        s.run(events).unwrap().wf(),
        s.run(events).unwrap().completed == s.completed + count_exits(events),
        s.run(events).unwrap().measure() + events.len() <= s.measure(),
        s.run(events).unwrap().tasks == s.tasks,
        s.run(events).unwrap().max_concurrency == s.max_concurrency,
        s.run(events).unwrap().max_attempts == s.max_attempts,
    decreases events.len(),
{
    if events.len() > 0 {
        lemma_step_wf(s, events[0]);
        lemma_run_wf(s.after(events[0]), events.drop_first());
    }
}

/// A fresh scheduler with a positive bound and attempt limit is well formed.
pub proof fn lemma_initial_wf(tasks: Seq<Seq<char>>, n: nat, k: nat)
    requires
        n >= 1,
        k >= 1,
    ensures
        SchedView::initial(tasks, n, k).wf(),
        SchedView::initial(tasks, n, k).measure() == tasks.len() * (k + 1) + k,
{
    assert(SchedView::initial(tasks, n, k).dispatched =~= Seq::new(0, |i: int| i as nat));
}

/// Concurrency bound: in every state that some sequence of events reaches
/// from the start, at most `n` workers are in flight.
pub proof fn law_concurrency_bound(tasks: Seq<Seq<char>>, n: nat, k: nat, events: Seq<Event>)
    requires
        n >= 1,
        k >= 1,
        SchedView::initial(tasks, n, k).run(events) is Some,
    ensures
        SchedView::initial(tasks, n, k).run(events).unwrap().active <= n,
{
    lemma_initial_wf(tasks, n, k);
    lemma_run_wf(SchedView::initial(tasks, n, k), events);
}

/// Completeness: when a run is done the queue is empty, nothing is in
/// flight, and every queued task was dispatched exactly once or was given up
/// after repeated spawn failures; without such failures every task was
/// dispatched, in queue order.
pub proof fn law_completeness(tasks: Seq<Seq<char>>, n: nat, k: nat, events: Seq<Event>)
    requires
        n >= 1,
        k >= 1,
        SchedView::initial(tasks, n, k).run(events) is Some,
        SchedView::initial(tasks, n, k).run(events).unwrap().is_done(),
    ensures
        ({
            let t = SchedView::initial(tasks, n, k).run(events).unwrap();
            &&& t.remaining() == 0
            &&& t.active == 0
            &&& forall|i: nat| i < tasks.len() ==> #[trigger] t.dispatched.contains(i)
                != t.abandoned.contains(i)
            &&& forall|a: int, b: int|
                0 <= a < b < t.dispatched.len() ==> t.dispatched[a] != t.dispatched[b]
            &&& t.abandoned.len() == 0 ==> t.dispatched == Seq::new(
                tasks.len(),
                |i: int| i as nat,
            )
        }),
{
    lemma_initial_wf(tasks, n, k);
    lemma_run_wf(SchedView::initial(tasks, n, k), events);
}

/// Termination: no run is longer than `M * (k + 1) + k` events for `M` tasks,
/// and a state that is not done always accepts some event.
pub proof fn law_termination(tasks: Seq<Seq<char>>, n: nat, k: nat, events: Seq<Event>)
    requires
        n >= 1,
        k >= 1,
        SchedView::initial(tasks, n, k).run(events) is Some,
    ensures
        events.len() <= tasks.len() * (k + 1) + k,
        !SchedView::initial(tasks, n, k).run(events).unwrap().is_done() ==> (
        SchedView::initial(tasks, n, k).run(events).unwrap().can_spawn()
            || SchedView::initial(tasks, n, k).run(events).unwrap().active > 0),
{
    lemma_initial_wf(tasks, n, k);
    lemma_run_wf(SchedView::initial(tasks, n, k), events);
}

/// Progress accounting: over a run that is done, one progress unit is
/// recorded per exit, and exits and given-up tasks together number the tasks;
/// without given-up tasks there are exactly as many exits as tasks, whatever
/// the concurrency bound.
pub proof fn law_progress_accounting(tasks: Seq<Seq<char>>, n: nat, k: nat, events: Seq<Event>)
    requires
        n >= 1,
        k >= 1,
        SchedView::initial(tasks, n, k).run(events) is Some,
        SchedView::initial(tasks, n, k).run(events).unwrap().is_done(),
    ensures
        SchedView::initial(tasks, n, k).run(events).unwrap().completed == count_exits(events),
        count_exits(events) + SchedView::initial(tasks, n, k).run(events).unwrap().abandoned.len()
            == tasks.len(),
        SchedView::initial(tasks, n, k).run(events).unwrap().abandoned.len() == 0
            ==> count_exits(events) == tasks.len(),
{
    lemma_initial_wf(tasks, n, k);
    lemma_run_wf(SchedView::initial(tasks, n, k), events);
}

/// Dispatch order: in every run tasks are dispatched in queue order, and two
/// finished runs over the same queue without given-up tasks dispatched the
/// same tasks in the same order, however their exits interleaved.
pub proof fn law_fifo_dispatch_order(
    tasks: Seq<Seq<char>>,
    n: nat,
    k: nat,
    first: Seq<Event>,
    second: Seq<Event>,
)
    requires
        n >= 1,
        k >= 1,
        SchedView::initial(tasks, n, k).run(first) is Some,
        SchedView::initial(tasks, n, k).run(second) is Some,
    ensures
        strictly_increasing(SchedView::initial(tasks, n, k).run(first).unwrap().dispatched),
        ({
            let t1 = SchedView::initial(tasks, n, k).run(first).unwrap();
            let t2 = SchedView::initial(tasks, n, k).run(second).unwrap();
            t1.is_done() && t2.is_done() && t1.abandoned.len() == 0 && t2.abandoned.len() == 0
                ==> t1.dispatched == t2.dispatched
        }),
{
    lemma_initial_wf(tasks, n, k);
    lemma_run_wf(SchedView::initial(tasks, n, k), first);
    lemma_run_wf(SchedView::initial(tasks, n, k), second);
}

/// Spawn failures are never lost: a failed spawn either keeps the task at
/// the head of the queue for another attempt, or records it as given up;
/// either way every task stays counted as queued, dispatched or given up.
pub proof fn law_spawn_failure_accounted(s: SchedView)
    requires
        s.wf(),
        s.can_spawn(),
    ensures
        ({
            let t = s.after(Event::SpawnFailed);
            &&& t.wf()
            &&& t.dispatched == s.dispatched
            &&& t.active == s.active
            &&& (t.next == s.next && t.abandoned == s.abandoned && t.attempts == s.attempts + 1)
                || (t.next == s.next + 1 && t.abandoned == s.abandoned.push(s.next))
            &&& t.remaining() + t.dispatched.len() + t.abandoned.len() == t.tasks.len()
        }),
{
    lemma_step_wf(s, Event::SpawnFailed);
}

} // verus!
