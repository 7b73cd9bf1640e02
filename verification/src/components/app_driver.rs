//! When to fetch.

use vstd::prelude::*;

use crate::common::primitives::Duration;

verus! {

/// How often to fetch.
#[derive(Clone, Copy, Debug, PartialEq, Eq)]
pub struct AppDriverConfig {
    pub fetch_interval: Duration,
}

/// Asks for one round of fetching after the other: at once as long as there is progress, and after
/// a while otherwise.
#[derive(Clone, Copy, Debug, PartialEq, Eq)]
pub struct AppDriver {
    config: AppDriverConfig,
    immediate: bool,
}

impl AppDriver {
    /// Whether the next round comes at once.
    pub closed spec fn is_immediate(&self) -> bool {
        self.immediate
    }

    pub closed spec fn interval(&self) -> Duration {
        self.config.fetch_interval
    }

    /// The first round comes at once.
    pub fn new(config: AppDriverConfig) -> (r: Self)
        ensures
            r.is_immediate(),
            r.interval() == config.fetch_interval,
    {
        AppDriver { config, immediate: true }
    }

    /// How long to wait for the next round.
    pub fn delay(&self) -> (r: Duration)
        ensures
            r == (if self.is_immediate() {
                Duration { secs: 0, nanos: 0 }
            } else {
                self.interval()
            }),
    {
        if self.immediate {
            Duration { secs: 0, nanos: 0 }
        } else {
            self.config.fetch_interval
        }
    }

    /// Notes whether a round has made progress; `None` if there was no reply.
    pub fn note_reply(&mut self, has_progress: Option<bool>)
        ensures
            final(self).is_immediate() == (has_progress == Some(true)),
            final(self).interval() == old(self).interval(),
    {
        self.immediate = match has_progress {
            Some(has_progress) => has_progress,
            None => false,
        };
    }
}

} // verus!
