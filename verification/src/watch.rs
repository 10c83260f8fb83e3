//! The decisions of the watch loop. The loop itself waits for batches of
//! change events and runs passes; what it does on each signal, and that
//! passes never overlap, is decided here.

use vstd::prelude::*;

verus! {

/// What the event channel delivered.
#[derive(Clone, Copy, Debug, PartialEq, Eq, Structural)]
pub enum WatchSignal {
    /// The loop has been started: the first pass is due.
    Startup,
    /// A batch of change events.
    Changes,
    /// Errors met while watching.
    Errors,
    /// The channel was closed.
    Closed,
}

/// What the loop does next.
#[derive(Clone, Copy, Debug, PartialEq, Eq, Structural)]
pub enum WatchAction {
    /// Run one pass, then report its end with [`WatchLoop::pass_ended`].
    RunPass,
    /// Print the errors and go on waiting.
    ReportErrors,
    /// Leave the loop.
    Stop,
}

/// Where the loop stands.
#[derive(Clone, Copy, Debug, PartialEq, Eq, Structural)]
pub enum WatchState {
    /// No pass is running; the next signal can be taken.
    Waiting,
    /// A pass is running; no signal is taken before it has ended.
    Running,
    /// The channel was closed.
    Stopped,
}

/// The state of a watch loop.
#[derive(Clone, Copy, Debug, PartialEq, Eq, Structural)]
pub struct WatchLoop {
    pub state: WatchState,
}

/// What the loop does on `signal`.
pub open spec fn action_for(signal: WatchSignal) -> WatchAction {
    match signal {
        WatchSignal::Startup => WatchAction::RunPass,
        WatchSignal::Changes => WatchAction::RunPass,
        WatchSignal::Errors => WatchAction::ReportErrors,
        WatchSignal::Closed => WatchAction::Stop,
    }
}

/// The state in which a waiting loop is after `signal`.
pub open spec fn state_after(signal: WatchSignal) -> WatchState {
    match signal {
        WatchSignal::Startup => WatchState::Running,
        WatchSignal::Changes => WatchState::Running,
        WatchSignal::Errors => WatchState::Waiting,
        WatchSignal::Closed => WatchState::Stopped,
    }
}

impl WatchLoop {
    /// A loop that waits for its first signal.
    pub fn new() -> (r: WatchLoop)
        ensures
            r.state == WatchState::Waiting,
    {
        WatchLoop { state: WatchState::Waiting }
    }

    /// Takes one signal. The start of the loop and every batch of
    /// changes start exactly one pass; errors and the end of the channel
    /// start none.
    /// Only a waiting loop takes a signal, so no pass starts while
    /// another is running.
    pub fn take(&mut self, signal: WatchSignal) -> (r: WatchAction)
        requires
            old(self).state == WatchState::Waiting,
        ensures
            r == action_for(signal),
            final(self).state == state_after(signal),
    {
        match signal {
            WatchSignal::Startup => {
                self.state = WatchState::Running;
                WatchAction::RunPass
            },
            WatchSignal::Changes => {
                self.state = WatchState::Running;
                WatchAction::RunPass
            },
            WatchSignal::Errors => WatchAction::ReportErrors,
            WatchSignal::Closed => {
                self.state = WatchState::Stopped;
                WatchAction::Stop
            },
        }
    }

    /// Records that the running pass has ended, with or without success:
    /// the loop waits again.
    pub fn pass_ended(&mut self)
        requires
            old(self).state == WatchState::Running,
        ensures
            final(self).state == WatchState::Waiting,
    {
        self.state = WatchState::Waiting;
    }
}

} // verus!
