//! The decisions of the background flusher task, one event at a time. The
//! caller owns the timers and the shutdown signal and performs the flushes.

use vstd::prelude::*;
use crate::flush::FlushPolicy;

verus! {

#[derive(Debug, Clone, Copy, PartialEq, Eq, Structural)]
pub enum FlusherPhase {
    /// Waiting out the start-up jitter.
    AwaitingJitter,
    /// Flushing on every interval tick.
    Ticking,
    /// The final flush has been requested; the task ends.
    Stopped,
}

#[derive(Debug, Clone, Copy, PartialEq, Eq, Structural)]
pub enum FlusherEvent {
    JitterElapsed,
    Tick,
    ShutdownSignal,
}

/// What to do after an event: the phase to move to, and the flush to run
/// first, if any.
#[derive(Debug, Clone, Copy, PartialEq, Eq, Structural)]
pub struct FlusherStep {
    pub next: FlusherPhase,
    pub flush: Option<FlushPolicy>,
}

/// The flusher's reaction to one event. A tick flushes in bail mode (retry
/// next tick on error); the shutdown signal, even during the jitter,
/// triggers a final best-effort flush and stops the task.
pub open spec fn flusher_transition(phase: FlusherPhase, event: FlusherEvent) -> FlusherStep {
    match (phase, event) {
        (FlusherPhase::Stopped, _) => FlusherStep { next: FlusherPhase::Stopped, flush: None },
        (_, FlusherEvent::ShutdownSignal) => FlusherStep {
            next: FlusherPhase::Stopped,
            flush: Some(FlushPolicy::BestEffort),
        },
        (FlusherPhase::AwaitingJitter, FlusherEvent::JitterElapsed) => FlusherStep {
            next: FlusherPhase::Ticking,
            flush: None,
        },
        (FlusherPhase::Ticking, FlusherEvent::Tick) => FlusherStep {
            next: FlusherPhase::Ticking,
            flush: Some(FlushPolicy::BailOnError),
        },
        (p, _) => FlusherStep { next: p, flush: None },
    }
}

pub fn flusher_step(phase: FlusherPhase, event: FlusherEvent) -> (step: FlusherStep)
    ensures
        step == flusher_transition(phase, event),
{
    match (phase, event) {
        (FlusherPhase::Stopped, _) => FlusherStep { next: FlusherPhase::Stopped, flush: None },
        (_, FlusherEvent::ShutdownSignal) => FlusherStep {
            next: FlusherPhase::Stopped,
            flush: Some(FlushPolicy::BestEffort),
        },
        (FlusherPhase::AwaitingJitter, FlusherEvent::JitterElapsed) => FlusherStep {
            next: FlusherPhase::Ticking,
            flush: None,
        },
        (FlusherPhase::Ticking, FlusherEvent::Tick) => FlusherStep {
            next: FlusherPhase::Ticking,
            flush: Some(FlushPolicy::BailOnError),
        },
        (p, _) => FlusherStep { next: p, flush: None },
    }
}

/// How the flusher task ended when shutdown waited for it.
#[derive(Debug, Clone, Copy, PartialEq, Eq, Structural)]
pub enum FlusherExit {
    Completed,
    Panicked,
    TimedOut,
}

/// Shutdown reports what is left (pending plus in flight) as dropped
/// exactly when the final flush did not complete.
pub fn shutdown_reports_drops(exit: FlusherExit) -> (report: bool)
    ensures
        report == (exit != FlusherExit::Completed),
{
    match exit {
        FlusherExit::Completed => false,
        FlusherExit::Panicked => true,
        FlusherExit::TimedOut => true,
    }
}

} // verus!
