//! The poll loop as a state machine with cooperative shutdown.

use vstd::prelude::*;

verus! {

/// How long to wait before the next cycle: what is left of the interval
/// after the cycle's own duration, or nothing.
pub open spec fn spec_sleep_for(interval_ms: u64, elapsed_ms: u64) -> u64 {
    if elapsed_ms < interval_ms {
        (interval_ms - elapsed_ms) as u64
    } else {
        0
    }
}

pub fn sleep_for(interval_ms: u64, elapsed_ms: u64) -> (r: u64)
    ensures
        r == spec_sleep_for(interval_ms, elapsed_ms),
{
    if elapsed_ms < interval_ms {
        interval_ms - elapsed_ms
    } else {
        0
    }
}

/// Where the poll loop stands.
#[derive(Clone, Copy, Debug, PartialEq, Eq, Structural)]
pub enum Phase {
    Idle,
    Running,
    Sleeping,
    Stopping,
    Stopped,
}

/// What the poll loop observed.
#[derive(Clone, Copy, Debug, PartialEq, Eq, Structural)]
pub enum Event {
    /// The loop is ready to start a cycle.
    Start,
    /// The cycle in flight finished, successfully or not, after `elapsed_ms`.
    CycleFinished { ok: bool, elapsed_ms: u64 },
    /// The external shutdown signal arrived.
    Shutdown,
    /// The inter-cycle sleep ran out.
    SleepElapsed,
    /// The delivery task drained the queue and ended.
    DeliveryFinished,
}

/// What the poll loop does next.
#[derive(Clone, Copy, Debug, PartialEq, Eq, Structural)]
pub enum Action {
    RunCycle,
    /// Begin the next tick: look for a pending shutdown, then start.
    NextTick,
    Sleep { ms: u64 },
    /// Close the notification queue and wait for the delivery task.
    CloseQueue,
    /// Leave the loop; `failed` when a cycle failed.
    Exit { failed: bool },
    Nothing,
}

/// The poll loop's state: its phase, whether shutdown was requested, and
/// its fixed settings.
#[derive(Clone, Copy, Debug)]
pub struct Scheduler {
    pub phase: Phase,
    pub shutdown_requested: bool,
    pub once: bool,
    pub interval_ms: u64,
}

/// The state and action after `ev` in state `s`. Shutdown is taken at once
/// before a cycle and during the sleep, and only after the cycle in flight.
pub open spec fn spec_step(s: Scheduler, ev: Event) -> (Scheduler, Action) {
    match (s.phase, ev) {
        (Phase::Idle, Event::Start) => if s.shutdown_requested {
            (Scheduler { phase: Phase::Stopping, ..s }, Action::CloseQueue)
        } else {
            (Scheduler { phase: Phase::Running, ..s }, Action::RunCycle)
        },
        (Phase::Idle, Event::Shutdown) => (Scheduler { phase: Phase::Stopping, shutdown_requested: true, ..s }, Action::CloseQueue),
        (Phase::Running, Event::Shutdown) => (Scheduler { shutdown_requested: true, ..s }, Action::Nothing),
        (Phase::Running, Event::CycleFinished { ok, elapsed_ms }) => if !ok {
            (Scheduler { phase: Phase::Stopped, ..s }, Action::Exit { failed: true })
        } else if s.shutdown_requested || s.once {
            (Scheduler { phase: Phase::Stopping, ..s }, Action::CloseQueue)
        } else if spec_sleep_for(s.interval_ms, elapsed_ms) == 0 {
            (Scheduler { phase: Phase::Idle, ..s }, Action::NextTick)
        } else {
            (Scheduler { phase: Phase::Sleeping, ..s }, Action::Sleep { ms: spec_sleep_for(s.interval_ms, elapsed_ms) })
        },
        (Phase::Sleeping, Event::Shutdown) => (Scheduler { phase: Phase::Stopping, shutdown_requested: true, ..s }, Action::CloseQueue),
        (Phase::Sleeping, Event::SleepElapsed) => if s.shutdown_requested {
            (Scheduler { phase: Phase::Stopping, ..s }, Action::CloseQueue)
        } else {
            (Scheduler { phase: Phase::Idle, ..s }, Action::NextTick)
        },
        (Phase::Stopping, Event::Shutdown) => (Scheduler { shutdown_requested: true, ..s }, Action::Nothing),
        (Phase::Stopping, Event::DeliveryFinished) => (Scheduler { phase: Phase::Stopped, ..s }, Action::Exit { failed: false }),
        _ => (s, Action::Nothing),
    }
}

impl Scheduler {
    pub fn new(once: bool, interval_ms: u64) -> (r: Scheduler)
        ensures
            r == (Scheduler { phase: Phase::Idle, shutdown_requested: false, once, interval_ms }),
    {
        Scheduler { phase: Phase::Idle, shutdown_requested: false, once, interval_ms }
    }

    /// Takes one event and says what to do next.
    pub fn step(&mut self, ev: Event) -> (r: Action)
        ensures
            (*final(self), r) == spec_step(*old(self), ev),
    {
        match (self.phase, ev) {
            (Phase::Idle, Event::Start) => {
                if self.shutdown_requested {
                    self.phase = Phase::Stopping;
                    Action::CloseQueue
                } else {
                    self.phase = Phase::Running;
                    Action::RunCycle
                }
            },
            (Phase::Idle, Event::Shutdown) | (Phase::Sleeping, Event::Shutdown) => {
                self.phase = Phase::Stopping;
                self.shutdown_requested = true;
                Action::CloseQueue
            },
            (Phase::Running, Event::Shutdown) | (Phase::Stopping, Event::Shutdown) => {
                self.shutdown_requested = true;
                Action::Nothing
            },
            (Phase::Running, Event::CycleFinished { ok, elapsed_ms }) => {
                if !ok {
                    self.phase = Phase::Stopped;
                    Action::Exit { failed: true }
                } else if self.shutdown_requested || self.once {
                    self.phase = Phase::Stopping;
                    Action::CloseQueue
                } else {
                    let ms = sleep_for(self.interval_ms, elapsed_ms);
                    if ms == 0 {
                        self.phase = Phase::Idle;
                        Action::NextTick
                    } else {
                        self.phase = Phase::Sleeping;
                        Action::Sleep { ms }
                    }
                }
            },
            (Phase::Sleeping, Event::SleepElapsed) => {
                if self.shutdown_requested {
                    self.phase = Phase::Stopping;
                    Action::CloseQueue
                } else {
                    self.phase = Phase::Idle;
                    Action::NextTick
                }
            },
            (Phase::Stopping, Event::DeliveryFinished) => {
                self.phase = Phase::Stopped;
                Action::Exit { failed: false }
            },
            _ => Action::Nothing,
        }
    }
}

/// Once shutdown is requested no new cycle starts, the request is never
/// forgotten, and a stopped loop stays stopped and does nothing.
pub proof fn lemma_shutdown_is_final(s: Scheduler, ev: Event)
    ensures
        s.shutdown_requested ==> spec_step(s, ev).1 != Action::RunCycle && spec_step(s, ev).0.shutdown_requested,
        s.phase == Phase::Stopped ==> spec_step(s, ev) == (s, Action::Nothing),
{
}

} // verus!
