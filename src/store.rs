//! Object stores that a forked environment reads from.

use crate::object::MoveObjectInfo;
use crate::value::MoveAddress;
use vstd::prelude::*;

verus! {

/// A store forked from the chain at some checkpoint.
pub trait ForkedCheckpoint {
    /// The checkpoint the store was forked at, inclusive.
    fn forked_at(&self) -> u64;
}

/// A store that holds nothing.
#[derive(Clone, Copy, Debug, Default)]
pub struct EmptyStore;

impl EmptyStore {
    /// Every lookup finds nothing.
    pub fn get_object(&self, id: &MoveAddress) -> (r: Option<MoveObjectInfo>)
        ensures
            r is None,
    {
        None
    }

    /// Every lookup at a version finds nothing.
    pub fn get_object_by_key(&self, id: &MoveAddress, version: u64) -> (r: Option<MoveObjectInfo>)
        ensures
            r is None,
    {
        None
    }
}

impl ForkedCheckpoint for EmptyStore {
    fn forked_at(&self) -> u64 {
        0
    }
}

/// One of two stores, answering as the one it holds.
#[derive(Clone, Debug)]
pub enum TrivialBackStore<T1, T2> {
    T1(T1),
    T2(T2),
}

impl<T1: ForkedCheckpoint, T2: ForkedCheckpoint> ForkedCheckpoint for TrivialBackStore<T1, T2> {
    fn forked_at(&self) -> u64 {
        match self {
            TrivialBackStore::T1(t) => t.forked_at(),
            TrivialBackStore::T2(t) => t.forked_at(),
        }
    }
}

} // verus!
