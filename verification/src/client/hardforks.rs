//! Network upgrades.

use vstd::prelude::*;

verus! {

/// When the network upgrades that matter here become active, if at all.
#[derive(Clone, Copy, Debug, PartialEq, Eq)]
pub struct HardForks {
    pub holocene_time: Option<u64>,
    pub isthmus_time: Option<u64>,
    pub jovian_time: Option<u64>,
    pub interop_time: Option<u64>,
}

/// `timestamp` has come to `time`.
pub open spec fn has_come(time: Option<u64>, timestamp: u64) -> bool {
    time is Some && timestamp >= time->0
}

impl HardForks {
    pub open spec fn interop(self, timestamp: u64) -> bool {
        has_come(self.interop_time, timestamp)
    }

    /// An upgrade is active from its own time on, and from the time of each later upgrade on.
    pub open spec fn holocene(self, timestamp: u64) -> bool {
        ||| has_come(self.holocene_time, timestamp)
        ||| has_come(self.isthmus_time, timestamp)
        ||| has_come(self.jovian_time, timestamp)
        ||| self.interop(timestamp)
    }

    /// `kona_genesis::RollupConfig::is_interop_active`: the Interop time is set, and the timestamp
    /// is not before it.
    #[verifier::external_body]
    pub(crate) fn is_interop_active(&self, timestamp: u64) -> (r: bool)
        ensures
            r == self.interop(timestamp),
    {
        let mut config = kona_genesis::RollupConfig::default();
        config.hardforks.holocene_time = self.holocene_time;
        config.hardforks.isthmus_time = self.isthmus_time;
        config.hardforks.jovian_time = self.jovian_time;
        config.hardforks.interop_time = self.interop_time;
        config.is_interop_active(timestamp)
    }

    /// `kona_genesis::RollupConfig::is_holocene_active`: the time of Holocene, Isthmus, Jovian or
    /// Interop is set, and the timestamp is not before it.
    #[verifier::external_body]
    pub(crate) fn is_holocene_active(&self, timestamp: u64) -> (r: bool)
        ensures
            r == self.holocene(timestamp),
    {
        let mut config = kona_genesis::RollupConfig::default();
        config.hardforks.holocene_time = self.holocene_time;
        config.hardforks.isthmus_time = self.isthmus_time;
        config.hardforks.jovian_time = self.jovian_time;
        config.hardforks.interop_time = self.interop_time;
        config.is_holocene_active(timestamp)
    }

    /// An upgrade that is active stays active, and Interop brings Holocene with it.
    pub proof fn upgrades_stay_active(self, timestamp: u64, later: u64)
        requires
            timestamp <= later,
        ensures
            self.interop(timestamp) ==> self.interop(later),
            self.holocene(timestamp) ==> self.holocene(later),
            self.interop(timestamp) ==> self.holocene(timestamp),
    {
    }
}

} // verus!
