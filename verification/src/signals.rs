//! Interruption state shared with the process's signal handlers.

use std::sync::Arc;
use std::sync::atomic::AtomicUsize;
use vstd::prelude::*;

verus! {

/// The signal number of SIGINT on the supported platforms.
pub const SIGINT_NUMBER: usize = 2;
/// The signal number of SIGTERM on the supported platforms.
pub const SIGTERM_NUMBER: usize = 15;

#[derive(Debug, Clone, Copy, PartialEq, Eq, Structural)]
pub enum Interruption {
    Interrupt,
    Terminate,
}

/// The interruption that a recorded signal number stands for.
pub open spec fn spec_interruption_for(signal: usize) -> Option<Interruption> {
    if signal == SIGINT_NUMBER {
        Some(Interruption::Interrupt)
    } else if signal == SIGTERM_NUMBER {
        Some(Interruption::Terminate)
    } else {
        None
    }
}

pub fn interruption_for(signal: usize) -> (r: Option<Interruption>)
    ensures
        r == spec_interruption_for(signal),
{
    if signal == SIGINT_NUMBER {
        Some(Interruption::Interrupt)
    } else if signal == SIGTERM_NUMBER {
        Some(Interruption::Terminate)
    } else {
        None
    }
}

/// The last signal recorded by the handlers; zero when none arrived.
#[derive(Debug, Clone, Default)]
pub struct SignalState {
    signal: Arc<AtomicUsize>,
}

impl SignalState {
    /// The shared cell that signal handlers record the signal number into.
    pub fn handle(&self) -> Arc<AtomicUsize> {
        self.signal.clone()
    }

    /// A state in which `interruption` has already been recorded.
    ///
    /// The number is stored in a std atomic, whose contents the specifications do not
    /// model, so that `current` reads `interruption` back until a handler
    /// records another signal is not stated.
    pub fn interrupted(interruption: Interruption) -> SignalState {
        let value = match interruption {
            Interruption::Interrupt => SIGINT_NUMBER,
            Interruption::Terminate => SIGTERM_NUMBER,
        };
        let state = SignalState { signal: Arc::new(AtomicUsize::new(value)) };
        state
    }

    /// The interruption recorded so far: the atomic's number as
    /// `interruption_for` reads it. The number changes asynchronously, so two
    /// reads may differ, and no clause ties the result to an earlier store.
    pub fn current(&self) -> (r: Option<Interruption>) {
        let value = self.signal.load(std::sync::atomic::Ordering::Relaxed);
        interruption_for(value)
    }

    /// Whether an interruption has been recorded.
    pub fn is_cancelled(&self) -> bool {
        self.current().is_some()
    }
}

} // verus!
