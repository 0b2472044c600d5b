use vstd::prelude::*;
use vstd::string::*;
use crate::render::{decimal, digits};

verus! {

/// The bookkeeping of a pool of workers that claim, run and resolve tasks.
/// The loop that spawns and reaps processes reports each outcome here and
/// asks what to do next.
pub struct Orchestrator {
    /// How many workers may run at once.
    pub workers: usize,
    /// How many tasks may be launched in all, if capped.
    pub max_tasks: Option<usize>,
    pub launched: usize,
    pub completed: usize,
    pub failed: usize,
    /// Workers running now.
    pub active: usize,
    /// The queue answered that nothing is left, or claims kept losing races.
    pub exhausted: bool,
    /// Races lost in a row.
    pub race_guard: usize,
}

/// Why a pool could not be set up.
#[derive(Clone, Copy, Debug, PartialEq, Eq, Structural)]
pub enum PoolError {
    /// A pool needs at least one worker.
    NoWorkers,
}

pub open spec fn cap(m: Option<usize>) -> int {
    match m {
        Some(n) => n as int,
        None => usize::MAX as int,
    }
}

impl Orchestrator {
    /// The pool's invariant: at most `workers` run, none beyond the cap is
    /// launched, and every launched task is running, completed or failed.
    pub open spec fn wf(&self) -> bool {
        &&& self.workers >= 1
        &&& self.active <= self.workers
        &&& self.launched <= cap(self.max_tasks)
        &&& self.active + self.completed + self.failed == self.launched
    }

    pub open spec fn wants_claim_spec(&self) -> bool {
        !self.exhausted && self.active < self.workers && self.launched < cap(self.max_tasks)
    }

    pub open spec fn finished_spec(&self) -> bool {
        (self.exhausted || self.launched >= cap(self.max_tasks)) && self.active == 0
    }

    /// A fresh pool of `workers` workers, launching at most `max_tasks`
    /// tasks when that is given.
    pub fn new(workers: usize, max_tasks: Option<usize>) -> (r: Result<Orchestrator, PoolError>)
        ensures
            workers == 0 <==> r is Err,
            r matches Ok(o) ==> o.wf() && o.workers == workers && o.max_tasks == max_tasks && o.launched == 0
                && o.active == 0 && !o.exhausted && o.race_guard == 0,
    {
        if workers == 0 {
            return Err(PoolError::NoWorkers);
        }
        Ok(Orchestrator {
            workers,
            max_tasks,
            launched: 0,
            completed: 0,
            failed: 0,
            active: 0,
            exhausted: false,
            race_guard: 0,
        })
    }

    fn limit(&self) -> (r: usize)
        ensures
            r as int == cap(self.max_tasks),
    {
        match self.max_tasks {
            Some(n) => n,
            None => usize::MAX,
        }
    }

    /// Whether the pool should claim another task now.
    pub fn wants_claim(&self) -> (r: bool)
        ensures
            r == self.wants_claim_spec(),
    {
        !self.exhausted && self.active < self.workers && self.launched < self.limit()
    }

    /// Whether the run is over: nothing more will be launched and no worker
    /// is running.
    pub fn finished(&self) -> (r: bool)
        ensures
            r == self.finished_spec(),
    {
        (self.exhausted || self.launched >= self.limit()) && self.active == 0
    }

    /// Whether no worker failed.
    pub fn succeeded(&self) -> (r: bool)
        ensures
            r == (self.failed == 0),
    {
        self.failed == 0
    }

    /// The agent id for the next worker: the prefix, a dash and the
    /// worker's number counted from one.
    pub fn worker_agent(&self, prefix: &str) -> (r: String)
        requires
            self.wants_claim_spec(),
        ensures
            r@ == prefix@ + "-"@ + digits(self.launched as nat + 1, 10),
    {
        let mut s = String::from_str(prefix);
        s.append("-");
        let n = decimal(self.launched as u64 + 1);
        s.append(n.as_str());
        s
    }

    /// The queue had nothing to hand out: stop claiming.
    pub fn on_no_tasks(&mut self)
        requires
            old(self).wf(),
        ensures
            final(self).wf(),
            *final(self) == (Orchestrator { exhausted: true, ..*old(self) }),
    {
        self.exhausted = true;
    }

    /// A claim lost a race. More than eight lost races per worker in a row
    /// count as an exhausted queue.
    pub fn on_race_lost(&mut self)
        requires
            old(self).wf(),
        ensures
            final(self).wf(),
            final(self).race_guard == if old(self).race_guard < usize::MAX {
                old(self).race_guard + 1
            } else {
                old(self).race_guard as int
            },
            final(self).exhausted == (old(self).exhausted || final(self).race_guard > 8 * old(self).workers),
            *final(self) == (Orchestrator { race_guard: final(self).race_guard, exhausted: final(self).exhausted, ..*old(self) }),
    {
        if self.race_guard < usize::MAX {
            self.race_guard = self.race_guard + 1;
        }
        if self.workers <= usize::MAX / 8 && self.race_guard > self.workers * 8 {
            self.exhausted = true;
        }
    }

    /// A claim succeeded and a worker was started for it (`spawned`), or
    /// starting it failed, which counts as a failed task.
    pub fn on_launched(&mut self, spawned: bool)
        requires
            old(self).wf(),
            old(self).wants_claim_spec(),
        ensures
            final(self).wf(),
            final(self).launched == old(self).launched + 1,
            final(self).race_guard == 0,
            spawned ==> final(self).active == old(self).active + 1 && final(self).failed == old(self).failed,
            !spawned ==> final(self).active == old(self).active && final(self).failed == old(self).failed + 1,
            final(self).completed == old(self).completed,
            final(self).workers == old(self).workers,
            final(self).max_tasks == old(self).max_tasks,
            final(self).exhausted == old(self).exhausted,
    {
        self.race_guard = 0;
        self.launched = self.launched + 1;
        if spawned {
            self.active = self.active + 1;
        } else {
            self.failed = self.failed + 1;
        }
    }

    /// A worker exited, successfully or not.
    pub fn on_exit(&mut self, success: bool)
        requires
            old(self).wf(),
            old(self).active > 0,
        ensures
            final(self).wf(),
            final(self).active == old(self).active - 1,
            success ==> final(self).completed == old(self).completed + 1 && final(self).failed == old(self).failed,
            !success ==> final(self).completed == old(self).completed && final(self).failed == old(self).failed + 1,
            final(self).launched == old(self).launched,
            final(self).workers == old(self).workers,
            final(self).max_tasks == old(self).max_tasks,
            final(self).exhausted == old(self).exhausted,
            final(self).race_guard == old(self).race_guard,
    {
        self.active = self.active - 1;
        if success {
            self.completed = self.completed + 1;
        } else {
            self.failed = self.failed + 1;
        }
    }
}

/// The pool bound: in every state the pool can reach, no more workers run
/// than it was given, and once the run is over every launched task has been
/// resolved, as completed or as failed.
pub proof fn lemma_pool_bound(o: Orchestrator)
    requires
        o.wf(),
    ensures
        o.active <= o.workers,
        o.finished_spec() ==> o.completed + o.failed == o.launched,
{
}

} // verus!
