use vstd::prelude::*;
use crate::laws::lemma_step_wf;
use crate::model::{Event, SchedView};

verus! {

/// What the controlling loop should do next.
#[derive(Debug)]
pub enum Action {
    /// Start a worker process that runs the carried task identifier; the
    /// outcome comes back as `Event::Spawned` or `Event::SpawnFailed`.
    Spawn(String),
    /// Block until any worker exits, then give back `Event::Exited`.
    Wait,
    /// Every task has been dispatched or given up and no worker is in flight.
    Done,
}

/// Why a scheduler could not be built.
#[derive(Clone, Copy, Debug, PartialEq, Eq, Structural)]
pub enum ConfigError {
    /// A concurrency bound of zero would never let a task start.
    ZeroConcurrency,
    /// Each task needs at least one spawn attempt.
    ZeroAttempts,
}

/// An event that the current state cannot accept.
#[derive(Clone, Copy, Debug, PartialEq, Eq, Structural)]
pub enum EventError {
    /// A spawn outcome came while no task was due to be spawned.
    NoSpawnPending,
    /// An exit came while no worker was in flight.
    NothingRunning,
}

/// Bounded-concurrency scheduler over an ordered queue of task identifiers.
///
/// It holds only counts and positions: the caller starts the processes,
/// waits for them and hands each outcome back as an `Event`.
pub struct Scheduler {
    tasks: Vec<String>,
    max_concurrency: usize,
    max_attempts: usize,
    next: usize,
    active: usize,
    attempts: usize,
    completed: usize,
    dispatched: Vec<usize>,
    abandoned: Vec<usize>,
}

pub open spec fn task_views(tasks: Seq<String>) -> Seq<Seq<char>> {
    tasks.map_values(|t: String| t@)
}

pub open spec fn positions(v: Seq<usize>) -> Seq<nat> {
    v.map_values(|i: usize| i as nat)
}

impl View for Scheduler {
    type V = SchedView;

    closed spec fn view(&self) -> SchedView {
        SchedView {
            tasks: task_views(self.tasks@),
            max_concurrency: self.max_concurrency as nat,
            max_attempts: self.max_attempts as nat,
            next: self.next as nat,
            active: self.active as nat,
            attempts: self.attempts as nat,
            completed: self.completed as nat,
            dispatched: positions(self.dispatched@),
            abandoned: positions(self.abandoned@),
        }
    }
}

impl Scheduler {
    /// A scheduler over `tasks`, running at most `max_concurrency` of them at
    /// once and giving up a task after `max_attempts` spawn failures in a row.
    pub fn new(tasks: Vec<String>, max_concurrency: usize, max_attempts: usize) -> (r: Result<
        Scheduler,
        ConfigError,
    >)
        ensures
            max_concurrency == 0 ==> r == Err::<Scheduler, ConfigError>(
                ConfigError::ZeroConcurrency,
            ),
            max_concurrency > 0 && max_attempts == 0 ==> r == Err::<Scheduler, ConfigError>(
                ConfigError::ZeroAttempts,
            ),
            max_concurrency > 0 && max_attempts > 0 ==> r is Ok,
            r matches Ok(s) ==> s@.wf() && s@ == SchedView::initial(
                task_views(tasks@),
                max_concurrency as nat,
                max_attempts as nat,
            ),
    {
        if max_concurrency == 0 {
            return Err(ConfigError::ZeroConcurrency);
        }
        if max_attempts == 0 {
            return Err(ConfigError::ZeroAttempts);
        }
        let s = Scheduler {
            tasks,
            max_concurrency,
            max_attempts,
            next: 0,
            active: 0,
            attempts: 0,
            completed: 0,
            dispatched: Vec::new(),
            abandoned: Vec::new(),
        };
        proof {
            assert(s@.dispatched =~= Seq::<nat>::empty());
            assert(s@.abandoned =~= Seq::<nat>::empty());
            assert(s@.dispatched =~= Seq::new(0, |i: int| i as nat));
        }
        Ok(s)
    }

    /// The next thing to do: spawn the task at the head of the queue when a
    /// slot is free, otherwise wait for an exit, or stop when all is done.
    pub fn step(&self) -> (a: Action)
        requires
            self@.wf(),
        ensures
            a matches Action::Spawn(t) ==> self@.can_spawn() && t@ == self@.tasks[self@.next as int],
            a is Wait ==> !self@.can_spawn() && self@.active > 0,
            a is Done ==> self@.is_done(),
            self@.can_spawn() ==> a is Spawn,
            self@.is_done() ==> a is Done,
    {
        if self.next < self.tasks.len() && self.active < self.max_concurrency {
            Action::Spawn(self.tasks[self.next].clone())
        } else if self.active > 0 {
            Action::Wait
        } else {
            Action::Done
        }
    }

    /// Record what happened; an event that the current state cannot accept
    /// is refused and leaves the scheduler unchanged.
    pub fn apply(&mut self, e: Event) -> (r: Result<(), EventError>)
        requires
            old(self)@.wf(),
        ensures
            final(self)@.wf(),
            r is Ok <==> old(self)@.enabled(e),
            r is Ok ==> final(self)@ == old(self)@.after(e),
            r is Err ==> final(self)@ == old(self)@,
            r == Err::<(), EventError>(EventError::NoSpawnPending) <==> (e != Event::Exited
                && !old(self)@.can_spawn()),
            r == Err::<(), EventError>(EventError::NothingRunning) <==> (e == Event::Exited
                && old(self)@.active == 0),
    {
        let ghost s = self@;
        match e {
            Event::Spawned => {
                if !(self.next < self.tasks.len() && self.active < self.max_concurrency) {
                    return Err(EventError::NoSpawnPending);
                }
                proof {
                    lemma_step_wf(s, e);
                }
                self.dispatched.push(self.next);
                self.next = self.next + 1;
                self.active = self.active + 1;
                self.attempts = 0;
                proof {
                    assert(self@.dispatched =~= s.after(e).dispatched);
                    assert(self@ == s.after(e));
                }
            },
            Event::SpawnFailed => {
                if !(self.next < self.tasks.len() && self.active < self.max_concurrency) {
                    return Err(EventError::NoSpawnPending);
                }
                proof {
                    lemma_step_wf(s, e);
                }
                if self.attempts + 1 < self.max_attempts {
                    self.attempts = self.attempts + 1;
                } else {
                    self.abandoned.push(self.next);
                    self.next = self.next + 1;
                    self.attempts = 0;
                    proof {
                        assert(self@.abandoned =~= s.after(e).abandoned);
                    }
                }
                proof {
                    assert(self@ == s.after(e));
                }
            },
            Event::Exited => {
                if self.active == 0 {
                    return Err(EventError::NothingRunning);
                }
                proof {
                    lemma_step_wf(s, e);
                }
                self.active = self.active - 1;
                self.completed = self.completed + 1;
                proof {
                    assert(self@ == s.after(e));
                }
            },
        }
        Ok(())
    }

    /// How many tasks the queue held at the start.
    pub fn total(&self) -> (n: usize)
        ensures
            n == self@.tasks.len(),
    {
        self.tasks.len()
    }

    /// How many worker exits have been recorded: one progress unit each.
    pub fn completed(&self) -> (n: usize)
        ensures
            n == self@.completed,
    {
        self.completed
    }

    /// How many workers are in flight.
    pub fn active(&self) -> (n: usize)
        ensures
            n == self@.active,
    {
        self.active
    }

    /// How many tasks are still queued.
    pub fn remaining(&self) -> (n: usize)
        requires
            self@.wf(),
        ensures
            n == self@.remaining(),
    {
        self.tasks.len() - self.next
    }

    /// Failed spawn attempts in a row for the task at the head of the queue.
    pub fn attempts(&self) -> (n: usize)
        ensures
            n == self@.attempts,
    {
        self.attempts
    }

    /// Queue positions of the dispatched tasks, in dispatch order.
    pub fn dispatched(&self) -> (v: &Vec<usize>)
        ensures
            positions(v@) == self@.dispatched,
    {
        &self.dispatched
    }

    /// Queue positions of the tasks given up after repeated spawn failures.
    pub fn abandoned(&self) -> (v: &Vec<usize>)
        ensures
            positions(v@) == self@.abandoned,
    {
        &self.abandoned
    }

    /// The task identifier at a queue position.
    pub fn task(&self, i: usize) -> (t: &String)
        requires
            i < self@.tasks.len(),
        ensures
            t@ == self@.tasks[i as int],
    {
        &self.tasks[i]
    }
}

} // verus!
