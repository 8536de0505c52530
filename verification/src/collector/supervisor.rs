//! Restarts of sources: one that fails must not stop the others.

use vstd::prelude::*;

use crate::time::Duration;

verus! {

/// How the task of a source ended.
#[derive(Clone, Copy, Debug, PartialEq, Eq, Structural)]
pub enum TaskEnd {
    Finished,
    /// Nobody takes the books any more.
    ChannelClosed,
    Failed,
    Panicked,
    /// The collector is shutting down.
    Shutdown,
}

/// What is done next.
#[derive(Clone, Copy, Debug, PartialEq, Eq, Structural)]
pub enum NextStep {
    Stop,
    /// The task is started again after the delay. It has been started again `restarts` times with
    /// this one.
    Restart { restarts: u64, delay: Duration },
}

/// How long to wait before a task is started again. The source has waited longer and longer before
/// it gave up, so this one need not grow.
pub const RESTART_DELAY_SECS: u64 = 5;

/// Counts the restarts of a source.
#[derive(Clone, Copy, Debug, PartialEq, Eq, Structural)]
pub struct Supervisor {
    pub restarts: u64,
}

impl Supervisor {
    /// No restart yet.
    pub fn new() -> (r: Supervisor)
        ensures
            r.restarts == 0,
    {
        Supervisor { restarts: 0 }
    }

    /// Decides what is done after the task has ended: one that failed is started again, as is one
    /// that panicked.
    pub fn after_task(&mut self, end: TaskEnd) -> (r: NextStep)
        requires
            old(self).restarts < u64::MAX,
        ensures
            end is Failed || end is Panicked ==> {
                &&& final(self).restarts == old(self).restarts + 1
                &&& r == (NextStep::Restart {
                    restarts: final(self).restarts,
                    delay: Duration { nanos: (RESTART_DELAY_SECS * 1_000_000_000) as u128 },
                })
            },
            !(end is Failed || end is Panicked) ==> *final(self) == *old(self) && r
                == NextStep::Stop,
    {
        match end {
            TaskEnd::Failed | TaskEnd::Panicked => {
                self.restarts += 1;
                NextStep::Restart {
                    restarts: self.restarts,
                    delay: Duration::from_secs(RESTART_DELAY_SECS),
                }
            },
            _ => NextStep::Stop,
        }
    }
}

} // verus!
