//! The bookkeeping of a load run: executions are launched while fewer than the
//! bound are unresolved, and every completion frees a slot at once.
use vstd::prelude::*;

verus! {

/// The slots of a load run.
#[derive(Debug, Clone, Copy, PartialEq, Eq, Structural)]
pub struct Pool {
    /// Most executions unresolved at once.
    pub bound: usize,
    /// Executions launched and not yet resolved.
    pub in_flight: usize,
    /// Executions still to launch, or `None` to run without end.
    pub remaining: Option<u64>,
}

/// What the driver of a load run does next.
#[derive(Debug, Clone, Copy, PartialEq, Eq, Structural)]
pub enum PoolStep {
    /// Launch one more execution.
    Launch,
    /// Wait for an execution to resolve.
    Wait,
    /// Nothing is in flight and nothing is left to launch.
    Stop,
}

/// An event of a load run.
#[derive(Debug, Clone, Copy, PartialEq, Eq, Structural)]
pub enum PoolEvent {
    Launched,
    Completed,
}

impl Pool {
    pub open spec fn wf(&self) -> bool {
        0 < self.bound && self.in_flight <= self.bound
    }

    /// Whether a slot is free and an execution is left to launch.
    pub open spec fn can_launch(&self) -> bool {
        self.in_flight < self.bound && match self.remaining {
            None => true,
            Some(n) => n > 0,
        }
    }

    pub open spec fn step_spec(&self) -> PoolStep {
        if self.can_launch() {
            PoolStep::Launch
        } else if self.in_flight > 0 {
            PoolStep::Wait
        } else {
            PoolStep::Stop
        }
    }

    /// Whether an event can happen in this state.
    pub open spec fn enabled(&self, e: PoolEvent) -> bool {
        match e {
            PoolEvent::Launched => self.can_launch(),
            PoolEvent::Completed => self.in_flight > 0,
        }
    }

    /// The state after an event.
    pub open spec fn after(&self, e: PoolEvent) -> Pool {
        match e {
            PoolEvent::Launched => Pool {
                in_flight: (self.in_flight + 1) as usize,
                remaining: match self.remaining {
                    None => None,
                    Some(n) => Some((n - 1) as u64),
                },
                ..*self
            },
            PoolEvent::Completed => Pool { in_flight: (self.in_flight - 1) as usize, ..*self },
        }
    }

    /// A run with at most `bound` executions unresolved at once, launching
    /// `limit` of them in all, or without end.
    pub fn new(bound: usize, limit: Option<u64>) -> (r: Pool)
        requires
            bound > 0,
        ensures
            r.wf(),
            r == (Pool { bound, in_flight: 0, remaining: limit }),
    {
        Pool { bound, in_flight: 0, remaining: limit }
    }

    /// What to do next: launch while a slot is free and work is left, else wait
    /// while something is in flight, else stop.
    pub fn next_step(&self) -> (r: PoolStep)
        ensures
            r == self.step_spec(),
    {
        let left = match self.remaining {
            None => true,
            Some(n) => n > 0,
        };
        if self.in_flight < self.bound && left {
            PoolStep::Launch
        } else if self.in_flight > 0 {
            PoolStep::Wait
        } else {
            PoolStep::Stop
        }
    }

    /// Records a launch.
    pub fn launched(&mut self)
        requires
            old(self).wf(),
            old(self).can_launch(),
        ensures
            final(self).wf(),
            *final(self) == old(self).after(PoolEvent::Launched),
    {
        self.in_flight = self.in_flight + 1;
        self.remaining = match self.remaining {
            None => None,
            Some(n) => Some(n - 1),
        };
    }

    /// Records that an execution resolved, with a result or a failure.
    pub fn completed(&mut self)
        requires
            old(self).wf(),
            old(self).in_flight > 0,
        ensures
            final(self).wf(),
            *final(self) == old(self).after(PoolEvent::Completed),
    {
        self.in_flight = self.in_flight - 1;
    }
}

/// The state after a sequence of events.
pub open spec fn run(p: Pool, es: Seq<PoolEvent>) -> Pool
    decreases es.len(),
{
    if es.len() == 0 {
        p
    } else {
        run(p, es.drop_last()).after(es.last())
    }
}

/// Whether each event of a sequence can happen in the state it meets.
pub open spec fn valid_run(p: Pool, es: Seq<PoolEvent>) -> bool
    decreases es.len(),
{
    if es.len() == 0 {
        true
    } else {
        valid_run(p, es.drop_last()) && run(p, es.drop_last()).enabled(es.last())
    }
}

/// However launches and completions interleave, no more executions than the
/// bound are ever unresolved, and the bound never changes.
pub proof fn lemma_bound_holds(p: Pool, es: Seq<PoolEvent>)
    requires
        p.wf(),
        valid_run(p, es),
    ensures
        run(p, es).wf(),
        run(p, es).bound == p.bound,
        run(p, es).in_flight <= p.bound,
    decreases es.len(),
{
    if es.len() > 0 {
        lemma_bound_holds(p, es.drop_last());
    }
}

/// A run never stops while an execution is in flight or while one can be
/// launched, and never waits with a slot free and work left.
pub proof fn lemma_no_idle_slot(p: Pool)
    requires
        p.wf(),
    ensures
        p.step_spec() == PoolStep::Stop ==> p.in_flight == 0 && !p.can_launch(),
        p.step_spec() == PoolStep::Wait ==> !p.can_launch(),
{
}

} // verus!
