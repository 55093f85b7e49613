use vstd::prelude::*;

verus! {

/// What the controlling loop tells the scheduler.
#[derive(Clone, Copy, Debug, PartialEq, Eq, Structural)]
pub enum Event {
    /// A worker process was created for the task at the head of the queue.
    Spawned,
    /// The operating system declined to create a worker for the head task.
    SpawnFailed,
    /// Some in-flight worker process terminated (whichever one it was).
    Exited,
}

/// Abstract state of the bounded-concurrency scheduler.
///
/// Tasks are consumed from the front of `tasks`: every position below `next`
/// has been either dispatched (listed in `dispatched`) or given up after too
/// many failed spawn attempts (listed in `abandoned`).
pub ghost struct SchedView {
    pub tasks: Seq<Seq<char>>,
    pub max_concurrency: nat,
    pub max_attempts: nat,
    pub next: nat,
    pub active: nat,
    pub attempts: nat,
    pub completed: nat,
    pub dispatched: Seq<nat>,
    pub abandoned: Seq<nat>,
}

pub open spec fn strictly_increasing(s: Seq<nat>) -> bool {
    forall|a: int, b: int| 0 <= a < b < s.len() ==> s[a] < s[b]
}

pub open spec fn all_below(s: Seq<nat>, bound: nat) -> bool {
    forall|a: int| 0 <= a < s.len() ==> s[a] < bound
}

pub open spec fn count_exits(events: Seq<Event>) -> nat
    decreases events.len(),
{
    if events.len() == 0 {
        0
    } else {
        (if events[0] == Event::Exited { 1nat } else { 0nat }) + count_exits(events.drop_first())
    }
}

impl SchedView {
    pub open spec fn initial(tasks: Seq<Seq<char>>, max_concurrency: nat, max_attempts: nat) -> SchedView {
        SchedView {
            tasks,
            max_concurrency,
            max_attempts,
            next: 0,
            active: 0,
            attempts: 0,
            completed: 0,
            dispatched: Seq::empty(),
            abandoned: Seq::empty(),
        }
    }

    /// Number of tasks still waiting in the queue.
    pub open spec fn remaining(self) -> nat {
        (self.tasks.len() - self.next) as nat
    }

    /// There is a queued task and a free slot for it.
    pub open spec fn can_spawn(self) -> bool {
        self.next < self.tasks.len() && self.active < self.max_concurrency
    }

    /// The queue is drained and no worker is in flight.
    pub open spec fn is_done(self) -> bool {
        self.next == self.tasks.len() && self.active == 0
    }

    pub open spec fn enabled(self, e: Event) -> bool {
        match e {
            Event::Spawned | Event::SpawnFailed => self.can_spawn(),
            Event::Exited => self.active > 0,
        }
    }

    /// The state after an enabled event.
    pub open spec fn after(self, e: Event) -> SchedView {
        match e {
            Event::Spawned => SchedView {
                next: self.next + 1,
                active: self.active + 1,
                attempts: 0,
                dispatched: self.dispatched.push(self.next),
                ..self
            },
            Event::SpawnFailed => if self.attempts + 1 < self.max_attempts {
                SchedView { attempts: self.attempts + 1, ..self }
            } else {
                SchedView {
                    next: self.next + 1,
                    attempts: 0,
                    abandoned: self.abandoned.push(self.next),
                    ..self
                }
            },
            Event::Exited => SchedView {
                active: (self.active - 1) as nat,
                completed: self.completed + 1,
                ..self
            },
        }
    }

    /// The state reached from `self` by a sequence of events, if each one is
    /// enabled when it comes.
    pub open spec fn run(self, events: Seq<Event>) -> Option<SchedView>
        decreases events.len(),
    {
        if events.len() == 0 {
            Some(self)
        } else if self.enabled(events[0]) {
            self.after(events[0]).run(events.drop_first())
        } else {
            None
        }
    }

    /// Every queued position is dispatched or abandoned, never both and never twice.
    pub open spec fn accounted(self) -> bool {
        &&& strictly_increasing(self.dispatched)
        &&& strictly_increasing(self.abandoned)
        &&& all_below(self.dispatched, self.next)
        &&& all_below(self.abandoned, self.next)
        &&& forall|i: nat| i < self.next ==> #[trigger] self.dispatched.contains(i)
            != self.abandoned.contains(i)
    }

    pub open spec fn wf(self) -> bool {
        &&& self.max_concurrency >= 1
        &&& self.max_attempts >= 1
        &&& self.next <= self.tasks.len()
        &&& self.active <= self.max_concurrency
        &&& self.attempts < self.max_attempts
        &&& (self.next == self.tasks.len() ==> self.attempts == 0)
        &&& self.dispatched.len() == self.active + self.completed
        &&& self.dispatched.len() + self.abandoned.len() == self.next
        &&& self.accounted()
        &&& (self.abandoned.len() == 0 ==> self.dispatched == Seq::new(
            self.next,
            |i: int| i as nat,
        ))
    }

    /// An upper bound on the number of events still to come.
    pub open spec fn measure(self) -> nat {
        self.remaining() * (self.max_attempts + 1) + self.active + (self.max_attempts - self.attempts) as nat
    }
}

} // verus!
