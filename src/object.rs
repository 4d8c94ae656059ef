//! On-chain objects as the fuzzer tracks them.

use crate::value::{MoveAddress, MoveTypeTag, U256};
use vstd::prelude::*;

verus! {

/// Who owns an object.
#[derive(Clone, Copy, Debug, PartialEq, Eq, Structural, PartialOrd, Ord, Hash)]
pub enum MoveOwner {
    AddressOwner(MoveAddress),
    ObjectOwner(MoveAddress),
    Immutable,
    Shared { initial_shared_version: u64 },
    ConsensusAddressOwner { start_version: u64, owner: MoveAddress },
}

/// A 32-byte digest, read as a 256-bit number.
#[derive(Clone, Copy, Debug, PartialEq, Eq, Structural, PartialOrd, Ord, Hash)]
pub struct MoveDigest(pub U256);

/// An object: its id, exact type, owner, version and digest.
#[derive(Debug, PartialEq, Eq)]
pub struct MoveObjectInfo {
    pub id: MoveAddress,
    pub ty: MoveTypeTag,
    pub owner: MoveOwner,
    pub version: u64,
    pub digest: MoveDigest,
}

impl MoveObjectInfo {
    /// The reference that names this object at its version: id, version, digest.
    pub fn sui_reference(&self) -> (r: (MoveAddress, u64, MoveDigest))
        ensures
            r == (self.id, self.version, self.digest),
    {
        (self.id, self.version, self.digest)
    }
}

} // verus!
