//! The worker pool's admission rule.
//!
//! A pool has a fixed number of workers. A submitted unit of work runs at once where a
//! worker is free and waits otherwise; a worker that ends a unit, whether the unit completed
//! or failed, takes the next waiting one or becomes free. The pool that runs the threads
//! asks this ledger what to do at each submission and at each end.

use vstd::prelude::*;

verus! {

/// What the pool does with a submitted unit of work.
#[derive(Debug, Clone, Copy, PartialEq, Eq, Structural)]
pub enum Admission {
    /// A worker is free: run the unit now.
    Run,
    /// Every worker is busy: the unit waits.
    Wait,
}

/// How a unit of work ended.
#[derive(Debug, Clone, Copy, PartialEq, Eq, Structural)]
pub enum Ending {
    /// The unit ran to its end.
    Completed,
    /// The unit failed part-way.
    Failed,
}

/// What a worker does after ending a unit of work.
#[derive(Debug, Clone, Copy, PartialEq, Eq, Structural)]
pub enum Next {
    /// Run the unit that has waited longest.
    RunWaiting,
    /// Nothing waits: the worker is free.
    Idle,
}

/// What happens to a pool.
pub enum Event {
    /// A unit of work was submitted.
    Submit,
    /// A running unit of work ended.
    End(Ending),
}

/// The state of a pool: its number of workers, and how many units run and wait.
pub struct Load {
    pub capacity: nat,
    pub running: nat,
    pub waiting: nat,
}

impl Load {
    /// A pool of `capacity` workers with no work.
    pub open spec fn idle(capacity: nat) -> Load {
        Load { capacity, running: 0, waiting: 0 }
    }

    /// No more units run than there are workers, and units wait only while every worker
    /// is busy.
    pub open spec fn balanced(self) -> bool {
        &&& self.capacity > 0
        &&& self.running <= self.capacity
        &&& self.waiting > 0 ==> self.running == self.capacity
    }

    /// Whether `event` can happen in this state: a unit can only end while one runs.
    pub open spec fn admits(self, event: Event) -> bool {
        match event {
            Event::Submit => true,
            Event::End(_) => self.running > 0,
        }
    }

    /// What the pool does with a unit submitted in this state.
    pub open spec fn admission(self) -> Admission {
        if self.running < self.capacity {
            Admission::Run
        } else {
            Admission::Wait
        }
    }

    /// What a worker does after ending a unit in this state.
    pub open spec fn next(self) -> Next {
        if self.waiting > 0 {
            Next::RunWaiting
        } else {
            Next::Idle
        }
    }

    /// The state after `event`.
    pub open spec fn after(self, event: Event) -> Load {
        match event {
            Event::Submit => match self.admission() {
                Admission::Run => Load { running: self.running + 1, ..self },
                Admission::Wait => Load { waiting: self.waiting + 1, ..self },
            },
            Event::End(_) => match self.next() {
                Next::RunWaiting => Load { waiting: (self.waiting - 1) as nat, ..self },
                Next::Idle => Load { running: (self.running - 1) as nat, ..self },
            },
        }
    }

    /// Whether the events can happen one after the other, starting in this state.
    pub open spec fn admits_all(self, events: Seq<Event>) -> bool
        decreases events.len(),
    {
        events.len() == 0 || (self.admits(events[0]) && self.after(events[0]).admits_all(
            events.drop_first(),
        ))
    }

    /// The state after the events, one after the other.
    pub open spec fn after_all(self, events: Seq<Event>) -> Load
        decreases events.len(),
    {
        if events.len() == 0 {
            self
        } else {
            self.after(events[0]).after_all(events.drop_first())
        }
    }
}

/// The ledger of a worker pool.
#[derive(Debug)]
pub struct WorkerPool {
    capacity: usize,
    running: usize,
    waiting: usize,
}

impl View for WorkerPool {
    type V = Load;

    closed spec fn view(&self) -> Load {
        Load {
            capacity: self.capacity as nat,
            running: self.running as nat,
            waiting: self.waiting as nat,
        }
    }
}

impl WorkerPool {
    /// What holds of every ledger: see [`Load::balanced`].
    #[verifier::type_invariant]
    pub open spec fn well_formed(&self) -> bool {
        self@.balanced()
    }

    /// The ledger of a pool of `capacity` workers, all of them free.
    pub fn new(capacity: usize) -> (pool: WorkerPool)
        requires
            capacity > 0,
        ensures
            pool@ == Load::idle(capacity as nat),
    {
        WorkerPool { capacity, running: 0, waiting: 0 }
    }

    /// Number of workers.
    pub fn capacity(&self) -> (n: usize)
        ensures
            n == self@.capacity,
            n > 0,
    {
        proof {
            use_type_invariant(self);
        }
        self.capacity
    }

    /// Number of units of work that run: never more than there are workers.
    pub fn running(&self) -> (n: usize)
        ensures
            n == self@.running,
            n <= self@.capacity,
    {
        proof {
            use_type_invariant(self);
        }
        self.running
    }

    /// Number of units of work that wait for a worker.
    pub fn waiting(&self) -> (n: usize)
        ensures
            n == self@.waiting,
    {
        self.waiting
    }

    /// Enters a submitted unit of work: it runs at once where a worker is free, and waits
    /// otherwise.
    pub fn submit(&mut self) -> (admission: Admission)
        requires
            old(self)@.waiting < usize::MAX,
        ensures
            admission == old(self)@.admission(),
            final(self)@ == old(self)@.after(Event::Submit),
    {
        proof {
            use_type_invariant(&*self);
        }
        if self.running < self.capacity {
            self.running = self.running + 1;
            Admission::Run
        } else {
            self.waiting = self.waiting + 1;
            Admission::Wait
        }
    }

    /// Enters the end of a running unit of work. However the unit ended, its worker goes
    /// on: it takes the unit that has waited longest, or becomes free.
    pub fn finish(&mut self, ending: Ending) -> (next: Next)
        requires
            old(self)@.running > 0,
        ensures
            next == old(self)@.next(),
            final(self)@ == old(self)@.after(Event::End(ending)),
    {
        proof {
            use_type_invariant(&*self);
        }
        if self.waiting > 0 {
            self.waiting = self.waiting - 1;
            Next::RunWaiting
        } else {
            self.running = self.running - 1;
            Next::Idle
        }
    }
}

/// One event keeps a pool balanced.
pub proof fn lemma_event_keeps_balance(load: Load, event: Event)
    requires
        load.balanced(),
        load.admits(event),
    ensures
        load.after(event).balanced(),
        load.after(event).capacity == load.capacity,
{
}

/// Whatever is submitted to a pool and whenever its units end, no more units run at a time
/// than the pool has workers.
pub proof fn lemma_never_over_capacity(load: Load, events: Seq<Event>)
    requires
        load.balanced(),
        load.admits_all(events),
    ensures
        load.after_all(events).balanced(),
        load.after_all(events).capacity == load.capacity,
        load.after_all(events).running <= load.capacity,
    decreases events.len(),
{
    if events.len() > 0 {
        lemma_event_keeps_balance(load, events[0]);
        lemma_never_over_capacity(load.after(events[0]), events.drop_first());
    }
}

} // verus!
