//! The chain point to fork from: given by the user or looked up over RPC.

use vstd::prelude::*;

verus! {

/// Chain-point arguments as the user gives them; any may be missing.
#[derive(Clone, Copy, Debug, PartialEq, Eq, Structural)]
pub struct SuiOnchainArguments {
    pub checkpoint: Option<u64>,
    pub epoch: Option<u64>,
    pub epoch_ms: Option<u64>,
}

/// A fully known chain point.
#[derive(Clone, Copy, Debug, PartialEq, Eq, Structural)]
pub struct SuiOnchainPrimitives {
    pub epoch: u64,
    pub epoch_ms: u64,
    pub checkpoint: u64,
}

/// What to do with the arguments: use them as they are, or look the chain point up.
#[derive(Clone, Copy, Debug, PartialEq, Eq, Structural)]
pub enum OnchainResolution {
    Given(SuiOnchainPrimitives),
    /// Query this checkpoint (the latest when `None`) and its epoch.
    Query(Option<u64>),
}

/// Arguments that cannot be used.
#[derive(Clone, Copy, Debug, PartialEq, Eq, Structural)]
pub enum OnchainArgumentError {
    /// Only one of `epoch` and `epoch_ms` is given.
    EpochPairIncomplete,
    /// An epoch is given without a checkpoint.
    EpochWithoutCheckpoint,
}

impl SuiOnchainArguments {
    /// Decides how to obtain the chain point: all three given means use them; one of
    /// `epoch`/`epoch_ms` alone, or an epoch without a checkpoint, is an error;
    /// otherwise look up the given checkpoint, or the latest.
    pub fn resolve_onchain_primitives(&self) -> (r: Result<OnchainResolution, OnchainArgumentError>)
        ensures
            self.checkpoint is Some && self.epoch is Some && self.epoch_ms is Some ==> r == Ok::<
                OnchainResolution,
                OnchainArgumentError,
            >(
                OnchainResolution::Given(
                    SuiOnchainPrimitives {
                        epoch: self.epoch->Some_0,
                        epoch_ms: self.epoch_ms->Some_0,
                        checkpoint: self.checkpoint->Some_0,
                    },
                ),
            ),
            !(self.checkpoint is Some && self.epoch is Some && self.epoch_ms is Some) && (
            self.epoch is Some) != (self.epoch_ms is Some) ==> r == Err::<
                OnchainResolution,
                OnchainArgumentError,
            >(OnchainArgumentError::EpochPairIncomplete),
            self.checkpoint is None && self.epoch is Some && self.epoch_ms is Some ==> r == Err::<
                OnchainResolution,
                OnchainArgumentError,
            >(OnchainArgumentError::EpochWithoutCheckpoint),
            self.epoch is None && self.epoch_ms is None ==> r == Ok::<
                OnchainResolution,
                OnchainArgumentError,
            >(OnchainResolution::Query(self.checkpoint)),
    {
        match (self.checkpoint, self.epoch, self.epoch_ms) {
            (Some(checkpoint), Some(epoch), Some(epoch_ms)) => Ok(
                OnchainResolution::Given(SuiOnchainPrimitives { epoch, epoch_ms, checkpoint }),
            ),
            _ => {
                if self.epoch.is_some() != self.epoch_ms.is_some() {
                    Err(OnchainArgumentError::EpochPairIncomplete)
                } else if self.checkpoint.is_none() && self.epoch.is_some() {
                    Err(OnchainArgumentError::EpochWithoutCheckpoint)
                } else {
                    Ok(OnchainResolution::Query(self.checkpoint))
                }
            },
        }
    }
}

} // verus!
