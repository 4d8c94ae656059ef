//! The fuzzing context: a random source from libafl and the known caller addresses.

use crate::value::{MoveAddress, U256};
use libafl::mutators::{DwordInterestingMutator, Mutator};
use libafl::state::{HasRand, NopState};
use libafl_bolts::rands::Rand;
use vstd::prelude::*;

verus! {

#[verifier::external_type_specification]
#[verifier::external_body]
#[verifier::reject_recursive_types(I)]
pub struct ExNopState<I>(NopState<I>);

/// Relies on libafl's `NopState::new` and libafl_bolts' `Rand::set_seed`: a state
/// that holds only a random number generator, seeded with `seed`.
#[verifier::external_body]
fn seeded_state(seed: u64) -> NopState<Vec<u8>> {
    let mut state = NopState::new();
    state.rand_mut().set_seed(seed);
    state
}

/// Relies on libafl_bolts' `Rand::below_or_zero`: a number below `n`, or zero when
/// `n` is zero.
#[verifier::external_body]
fn below_or_zero(state: &mut NopState<Vec<u8>>, n: usize) -> (r: usize)
    ensures
        n == 0 ==> r == 0,
        n > 0 ==> r < n,
{
    state.rand_mut().below_or_zero(n)
}

/// Relies on libafl's `DwordInterestingMutator::mutate`: on four bytes or more it
/// writes an interesting 32-bit value at some offset, keeping the length; on fewer
/// it skips.
#[verifier::external_body]
fn dword_interesting(state: &mut NopState<Vec<u8>>, bytes: &mut Vec<u8>) -> (mutated: bool)
    ensures
        final(bytes)@.len() == old(bytes)@.len(),
        mutated == (old(bytes)@.len() >= 4),
        !mutated ==> final(bytes)@ == old(bytes)@,
{
    match DwordInterestingMutator::new().mutate(state, bytes) {
        Ok(libafl::mutators::MutationResult::Mutated) => true,
        Ok(libafl::mutators::MutationResult::Skipped) => false,
        Err(_) => false,
    }
}

/// What a mutation step did to its input.
#[derive(Clone, Copy, Debug, PartialEq, Eq, Structural)]
pub enum MutationResult {
    Mutated,
    Skipped,
}

/// The context that every mutation draws from: the random source and the addresses
/// known to act as callers.
pub struct FuzzContext {
    pub state: NopState<Vec<u8>>,
    pub callers: Vec<MoveAddress>,
}

impl FuzzContext {
    /// A context whose random source is seeded with `seed`.
    pub fn new(seed: u64, callers: Vec<MoveAddress>) -> (r: FuzzContext)
        ensures
            r.callers@ == callers@,
    {
        FuzzContext { state: seeded_state(seed), callers }
    }

    /// A number below `n`, or zero when `n` is zero.
    pub fn below_or_zero(&mut self, n: usize) -> (r: usize)
        ensures
            n == 0 ==> r == 0,
            n > 0 ==> r < n,
            final(self).callers@ == old(self).callers@,
    {
        below_or_zero(&mut self.state, n)
    }

    /// libafl's interesting-dword mutation on `bytes`: true when it applied.
    pub fn interesting_dword(&mut self, bytes: &mut Vec<u8>) -> (mutated: bool)
        ensures
            final(bytes)@.len() == old(bytes)@.len(),
            mutated == (old(bytes)@.len() >= 4),
            !mutated ==> final(bytes)@ == old(bytes)@,
            final(self).callers@ == old(self).callers@,
    {
        dword_interesting(&mut self.state, bytes)
    }

    /// A random 64-bit word, made of four uniform 16-bit draws.
    fn word(&mut self) -> (r: u128)
        ensures
            r < 0x1_0000_0000_0000_0000,
            final(self).callers@ == old(self).callers@,
    {
        let a = self.below_or_zero(0x1_0000) as u128;
        let b = self.below_or_zero(0x1_0000) as u128;
        let c = self.below_or_zero(0x1_0000) as u128;
        let d = self.below_or_zero(0x1_0000) as u128;
        ((a * 0x1_0000 + b) * 0x1_0000 + c) * 0x1_0000 + d
    }

    /// A random address.
    pub fn rand_address(&mut self) -> (r: MoveAddress)
        ensures
            final(self).callers@ == old(self).callers@,
    {
        let a = self.word();
        let b = self.word();
        let c = self.word();
        let d = self.word();
        MoveAddress(U256 { lo: a * 0x1_0000_0000_0000_0000 + b, hi: c * 0x1_0000_0000_0000_0000 + d })
    }

    /// One of the known callers; a random address when none is known.
    pub fn rand_caller(&mut self) -> (r: MoveAddress)
        ensures
            final(self).callers@ == old(self).callers@,
            old(self).callers@.len() > 0 ==> old(self).callers@.contains(r),
    {
        if self.callers.len() == 0 {
            self.rand_address()
        } else {
            let k = self.below_or_zero(self.callers.len());
            self.callers[k]
        }
    }
}

} // verus!
