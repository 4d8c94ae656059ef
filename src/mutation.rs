//! Width-aware mutation of single argument values.

use crate::codec::{encode_le, lemma_pow256_16, pow256};
use crate::rand::{FuzzContext, MutationResult};
use crate::sequence::{sequence_wf, MoveSequence};
use crate::value::{
    byte_width, commit, commit_result, is_fixed_width, is_uint, lemma_sync_commit_round_trip,
    same_value, sync, sync_spec, uint_tag, InputArgument, MoveTypeTag,
};
use vstd::prelude::*;

verus! {

/// Whether some entry of `pool` has exactly `len` bytes.
pub open spec fn pool_has_len(pool: Seq<Vec<u8>>, len: nat) -> bool {
    exists|k: int| 0 <= k < pool.len() && (#[trigger] pool[k])@.len() == len
}

/// Whether `b` is one of the entries of `pool`.
pub open spec fn pool_contains(pool: Seq<Vec<u8>>, b: Seq<u8>) -> bool {
    exists|k: int| 0 <= k < pool.len() && (#[trigger] pool[k])@ == b
}

/// Picks, at random, an entry of `pool` with exactly `len` bytes.
fn pick_fitting(ctx: &mut FuzzContext, pool: &Vec<Vec<u8>>, len: usize) -> (r: Option<Vec<u8>>)
    ensures
        r is None <==> !pool_has_len(pool@, len as nat),
        r is Some ==> pool_contains(pool@, r->Some_0@) && r->Some_0@.len() == len,
        r is None ==> *final(ctx) == *old(ctx),
        final(ctx).callers@ == old(ctx).callers@,
{
    let mut fit: Vec<usize> = Vec::new();
    let mut i: usize = 0;
    while i < pool.len()
        invariant
            i <= pool@.len(),
            forall|j: int| 0 <= j < fit@.len() ==> #[trigger] fit@[j] < pool@.len() && pool@[fit@[j] as int]@.len() == len,
            forall|k: int| 0 <= k < i && pool@[k]@.len() == len ==> fit@.contains(k as usize),
        decreases pool@.len() - i,
    {
        if pool[i].len() == len {
            let ghost before = fit@;
            fit.push(i);
            assert forall|k: int| 0 <= k <= i && pool@[k]@.len() == len implies fit@.contains(k as usize) by {
                if k < i {
                    let j = choose|j: int| 0 <= j < before.len() && before[j] == k as usize;
                    assert(fit@[j] == k as usize);
                } else {
                    assert(fit@[before.len() as int] == i);
                }
            }
        }
        i = i + 1;
    }
    if fit.len() == 0 {
        assert forall|k: int| 0 <= k < pool@.len() implies (#[trigger] pool@[k])@.len() != len by {
            if pool@[k]@.len() == len {
                assert(fit@.contains(k as usize));
            }
        }
        None
    } else {
        let j = ctx.below_or_zero(fit.len());
        let k = fit[j];
        let chosen = pool[k].clone();
        assert(chosen@ =~= pool@[k as int]@);
        Some(chosen)
    }
}

/// Whether `a` and `b` hold the same bytes.
fn bytes_equal(a: &Vec<u8>, b: &Vec<u8>) -> (r: bool)
    ensures
        r == (a@ == b@),
{
    if a.len() != b.len() {
        return false;
    }
    let mut i: usize = 0;
    while i < a.len()
        invariant
            i <= a@.len() == b@.len(),
            forall|k: int| 0 <= k < i ==> a@[k] == b@[k],
        decreases a@.len() - i,
    {
        if a[i] != b[i] {
            return false;
        }
        i = i + 1;
    }
    assert(a@ =~= b@);
    true
}

/// Whether the entries of `pool` are pairwise different.
pub open spec fn pool_distinct(pool: Seq<Vec<u8>>) -> bool {
    forall|i: int, j: int|
        0 <= i < pool.len() && 0 <= j < pool.len() && i != j ==> (#[trigger] pool[i])@ != (#[trigger] pool[j])@
}

/// Replaces `input` by an entry of `pool` of its exact length, drawn at random;
/// skips, leaving the input and the random source as they were, when there is none.
fn mutate_with_pool(pool: &Vec<Vec<u8>>, ctx: &mut FuzzContext, input: &mut Vec<u8>) -> (r: MutationResult)
    ensures
        r == MutationResult::Skipped <==> !pool_has_len(pool@, old(input)@.len()),
        r == MutationResult::Skipped ==> final(input)@ == old(input)@ && *final(ctx) == *old(ctx),
        r == MutationResult::Mutated ==> pool_contains(pool@, final(input)@),
        final(input)@.len() == old(input)@.len(),
        final(ctx).callers@ == old(ctx).callers@,
{
    if pool.len() == 0 {
        return MutationResult::Skipped;
    }
    match pick_fitting(ctx, pool, input.len()) {
        None => MutationResult::Skipped,
        Some(m) => {
            *input = m;
            MutationResult::Mutated
        },
    }
}

/// Overwrites an input with a constant harvested from the target contracts.
pub struct MagicNumberMutator {
    pub magic_number_pool: Vec<Vec<u8>>,
}

impl MagicNumberMutator {
    /// A mutator over the distinct entries of `magic_number_pool`, in the order they
    /// first occur.
    pub fn new(magic_number_pool: Vec<Vec<u8>>) -> (r: MagicNumberMutator)
        ensures
            pool_distinct(r.magic_number_pool@),
            forall|b: Seq<u8>| #[trigger] pool_contains(r.magic_number_pool@, b) <==> pool_contains(magic_number_pool@, b),
    {
        let mut out: Vec<Vec<u8>> = Vec::new();
        let mut i: usize = 0;
        while i < magic_number_pool.len()
            invariant
                i <= magic_number_pool@.len(),
                pool_distinct(out@),
                forall|b: Seq<u8>| #[trigger] pool_contains(out@, b) <==> pool_contains(magic_number_pool@.take(i as int), b),
            decreases magic_number_pool@.len() - i,
        {
            let mut seen = false;
            let mut j: usize = 0;
            while j < out.len()
                invariant
                    j <= out@.len(),
                    i < magic_number_pool@.len(),
                    seen <==> exists|k: int| 0 <= k < j && (#[trigger] out@[k])@ == magic_number_pool@[i as int]@,
                decreases out@.len() - j,
            {
                if bytes_equal(&out[j], &magic_number_pool[i]) {
                    seen = true;
                }
                j = j + 1;
            }
            let ghost before = out@;
            let ghost e = magic_number_pool@[i as int]@;
            if !seen {
                let c = magic_number_pool[i].clone();
                assert(c@ =~= e);
                out.push(c);
                proof {
                    assert forall|a: int, b: int| 0 <= a < out@.len() && 0 <= b < out@.len() && a != b implies (#[trigger] out@[a])@ != (#[trigger] out@[b])@ by {
                        if a < before.len() && b < before.len() {
                            assert(out@[a] == before[a] && out@[b] == before[b]);
                        } else if a < before.len() {
                            assert(out@[a] == before[a]);
                        } else if b < before.len() {
                            assert(out@[b] == before[b]);
                        }
                    }
                }
            }
            proof {
                let taken = magic_number_pool@.take(i + 1);
                assert(taken =~= magic_number_pool@.take(i as int).push(magic_number_pool@[i as int]));
                assert forall|b: Seq<u8>| #[trigger] pool_contains(out@, b) <==> pool_contains(taken, b) by {
                    if pool_contains(out@, b) {
                        let k = choose|k: int| 0 <= k < out@.len() && (#[trigger] out@[k])@ == b;
                        if k < before.len() {
                            assert(out@[k] == before[k]);
                            assert(pool_contains(before, b));
                            let m = choose|m: int| 0 <= m < i && (#[trigger] magic_number_pool@.take(i as int)[m])@ == b;
                            assert(taken[m] == magic_number_pool@.take(i as int)[m]);
                        } else {
                            assert(taken[i as int]@ == b);
                        }
                    }
                    if pool_contains(taken, b) {
                        let m = choose|m: int| 0 <= m < taken.len() && (#[trigger] taken[m])@ == b;
                        if m < i {
                            assert(magic_number_pool@.take(i as int)[m] == taken[m]);
                            assert(pool_contains(magic_number_pool@.take(i as int), b));
                            assert(pool_contains(before, b));
                            let k = choose|k: int| 0 <= k < before.len() && (#[trigger] before[k])@ == b;
                            assert(out@[k] == before[k]);
                        } else if seen {
                            let k = choose|k: int| 0 <= k < before.len() && (#[trigger] before[k])@ == e;
                            assert(out@[k] == before[k]);
                        } else {
                            assert(out@[before.len() as int]@ == b);
                        }
                    }
                }
            }
            i = i + 1;
        }
        assert(magic_number_pool@.take(i as int) =~= magic_number_pool@);
        MagicNumberMutator { magic_number_pool: out }
    }

    /// Replaces `input` by a pool entry of its exact length; skips, leaving it and
    /// the random source as they were, when the pool holds none.
    pub fn mutate(&self, ctx: &mut FuzzContext, input: &mut Vec<u8>) -> (r: MutationResult)
        ensures
            r == MutationResult::Skipped <==> !pool_has_len(
                self.magic_number_pool@,
                old(input)@.len(),
            ),
            r == MutationResult::Skipped ==> final(input)@ == old(input)@,
            r == MutationResult::Skipped ==> *final(ctx) == *old(ctx),
            r == MutationResult::Mutated ==> pool_contains(self.magic_number_pool@, final(input)@),
            final(input)@.len() == old(input)@.len(),
            final(ctx).callers@ == old(ctx).callers@,
    {
        mutate_with_pool(&self.magic_number_pool, ctx, input)
    }
}

/// Whether `a` has a fixed-width byte form.
pub fn fixed_width(a: &InputArgument) -> (r: bool)
    ensures
        r == is_fixed_width(*a),
{
    match a {
        InputArgument::Vector(t, vs) => {
            match t {
                MoveTypeTag::U8 | MoveTypeTag::U16 | MoveTypeTag::U32 | MoveTypeTag::U64
                | MoveTypeTag::U128 | MoveTypeTag::U256 => {},
                _ => return false,
            }
            let mut i: usize = 0;
            while i < vs.len()
                invariant
                    i <= vs@.len(),
                    crate::value::tag_width(*t) > 0,
                    *a == InputArgument::Vector(*t, *vs),
                    forall|k: int| 0 <= k < i ==> is_uint(#[trigger] vs@[k]) && uint_tag(vs@[k]) == *t,
                decreases vs@.len() - i,
            {
                let same = match (&vs[i], t) {
                    (InputArgument::U8(_), MoveTypeTag::U8) => true,
                    (InputArgument::U16(_), MoveTypeTag::U16) => true,
                    (InputArgument::U32(_), MoveTypeTag::U32) => true,
                    (InputArgument::U64(_), MoveTypeTag::U64) => true,
                    (InputArgument::U128(_), MoveTypeTag::U128) => true,
                    (InputArgument::U256(_), MoveTypeTag::U256) => true,
                    _ => false,
                };
                if !same {
                    assert(!(is_uint(vs@[i as int]) && uint_tag(vs@[i as int]) == *t));
                    return false;
                }
                i = i + 1;
            }
            true
        },
        InputArgument::U8(_) | InputArgument::U16(_) | InputArgument::U32(_)
        | InputArgument::U64(_) | InputArgument::U128(_) | InputArgument::U256(_) => true,
        _ => false,
    }
}

/// `b` keeps the kind of `a`: the same variant, the same integer type, and a vector
/// left as it was.
pub open spec fn keeps_kind(a: InputArgument, b: InputArgument) -> bool {
    match a {
        InputArgument::Bool(_) => b is Bool,
        InputArgument::Address(_) => b is Address,
        InputArgument::Vector(_, _) => b == a,
        _ => is_uint(b) && uint_tag(b) == uint_tag(a),
    }
}

/// A value under mutation.
pub struct MutableValue {
    pub value: InputArgument,
    pub bytes: Vec<u8>,
}

impl MutableValue {
    pub fn new(value: InputArgument) -> (r: MutableValue)
        ensures
            r.value == value,
            r.bytes@.len() == 0,
    {
        MutableValue { value, bytes: Vec::new() }
    }

    /// Mutates an integer of two bytes or more through its byte form: a magic number
    /// of its width, then by width a small interesting integer (four bytes), a power
    /// of two (eight and sixteen bytes), or libafl's interesting-dword mutation.
    fn mutate_by(&mut self, ctx: &mut FuzzContext, magic_number_pool: &Vec<Vec<u8>>, split: bool) -> (r: MutationResult)
        requires
            is_uint(old(self).value),
        ensures
            is_uint(final(self).value),
            uint_tag(final(self).value) == uint_tag(old(self).value),
            r == MutationResult::Skipped ==> same_value(final(self).value, old(self).value),
            pool_has_len(magic_number_pool@, byte_width(old(self).value)) ==> r == MutationResult::Mutated,
            old(self).value is U256 ==> r == MutationResult::Mutated,
            final(ctx).callers@ == old(ctx).callers@,
    {
        let mut bytes = sync(&self.value);
        let w = bytes.len();
        let mut res = mutate_with_pool(magic_number_pool, ctx, &mut bytes);
        proof {
            lemma_pow256_16();
            reveal_with_fuel(pow256, 9);
        }
        if w == 4 {
            if ctx.below_or_zero(10) > 0 {
                let small = ctx.below_or_zero(443636) as u128;
                bytes = encode_le(small, 4);
                proof { crate::codec::lemma_le_bytes_len(small as nat, 4); }
                res = MutationResult::Mutated;
            }
        } else if w == 8 {
            if ctx.below_or_zero(10) > 5 {
                let k = ctx.below_or_zero(64) as u64;
                bytes = encode_le((1u64 << k) as u128, 8);
                proof { crate::codec::lemma_le_bytes_len((1u64 << k) as nat, 8); }
                res = MutationResult::Mutated;
            }
        } else if w == 16 {
            if ctx.below_or_zero(10) > 0 {
                let k = ctx.below_or_zero(128) as u128;
                bytes = encode_le(1u128 << k, 16);
                proof { crate::codec::lemma_le_bytes_len((1u128 << k) as nat, 16); }
                res = MutationResult::Mutated;
            }
        } else if split && magic_number_pool.len() == 0 {
            bytes = vec![0u8; w];
            res = MutationResult::Mutated;
        } else if ctx.interesting_dword(&mut bytes) {
            res = MutationResult::Mutated;
        }
        let ghost before = self.value;
        self.value = commit(&bytes, &self.value);
        proof {
            if res == MutationResult::Skipped {
                lemma_sync_commit_round_trip(before, self.value);
            }
        }
        res
    }

    /// Mutates the value in place, keeping its kind: a boolean is redrawn, a `u8`
    /// becomes a different `u8`, wider integers go through their byte form, an
    /// address becomes a random address or a known caller. Vectors are skipped.
    pub fn mutate(&mut self, ctx: &mut FuzzContext, magic_number_pool: &Vec<Vec<u8>>, split: bool) -> (r: MutationResult)
        ensures
            keeps_kind(old(self).value, final(self).value),
            old(self).value is Vector ==> r == MutationResult::Skipped,
            old(self).value is Bool || old(self).value is U8 || old(self).value is Address
                ==> r == MutationResult::Mutated,
            old(self).value is U8 ==> final(self).value->U8_0 != old(self).value->U8_0,
            is_uint(old(self).value) && pool_has_len(magic_number_pool@, byte_width(old(self).value))
                ==> r == MutationResult::Mutated,
            old(self).value is U256 ==> r == MutationResult::Mutated,
            r == MutationResult::Skipped ==> same_value(final(self).value, old(self).value),
            final(ctx).callers@ == old(ctx).callers@,
    {
        match &self.value {
            InputArgument::Bool(_) => {
                let b = ctx.below_or_zero(2) == 1;
                self.value = InputArgument::Bool(b);
                MutationResult::Mutated
            },
            InputArgument::U8(orig) => {
                let orig = *orig;
                let d = ctx.below_or_zero(255) as u8;
                let v: u8 = if d >= orig { d + 1 } else { d };
                self.value = InputArgument::U8(v);
                MutationResult::Mutated
            },
            InputArgument::U16(_) | InputArgument::U32(_) | InputArgument::U64(_)
            | InputArgument::U128(_) | InputArgument::U256(_) => {
                self.mutate_by(ctx, magic_number_pool, split)
            },
            InputArgument::Address(_) => {
                let a = if ctx.below_or_zero(2) == 1 {
                    ctx.rand_address()
                } else {
                    ctx.rand_caller()
                };
                self.value = InputArgument::Address(a);
                MutationResult::Mutated
            },
            InputArgument::Vector(_, _) => MutationResult::Skipped,
        }
    }

    /// Overwrites a fixed-width value with a pool entry of its byte width, read back
    /// at its own type; skips, leaving it as it was, when the value has no fixed-width
    /// form or the pool has no entry of that width.
    pub fn sample_magic_number(&mut self, ctx: &mut FuzzContext, magic_number_pool: &Vec<Vec<u8>>) -> (r: MutationResult)
        ensures
            r == MutationResult::Skipped <==> !(is_fixed_width(old(self).value) && pool_has_len(
                magic_number_pool@,
                byte_width(old(self).value),
            )),
            r == MutationResult::Skipped ==> final(self).value == old(self).value,
            r == MutationResult::Skipped ==> *final(ctx) == *old(ctx),
            r == MutationResult::Mutated ==> exists|m: Seq<u8>|
                pool_contains(magic_number_pool@, m) && commit_result(
                    m,
                    old(self).value,
                    final(self).value,
                ),
            is_fixed_width(old(self).value) ==> is_fixed_width(final(self).value) && byte_width(
                final(self).value,
            ) == byte_width(old(self).value),
            final(ctx).callers@ == old(ctx).callers@,
    {
        if !fixed_width(&self.value) {
            return MutationResult::Skipped;
        }
        let bytes = sync(&self.value);
        match pick_fitting(ctx, magic_number_pool, bytes.len()) {
            None => MutationResult::Skipped,
            Some(m) => {
                self.value = commit(&m, &self.value);
                MutationResult::Mutated
            },
        }
    }
}

/// Mutates input slot `idx` of a sequence in place. Only that slot changes, and it
/// keeps its kind; the commands, and so every argument reference, stay as they were.
pub fn mutate_input(
    ptb: &mut MoveSequence,
    idx: usize,
    ctx: &mut FuzzContext,
    magic_number_pool: &Vec<Vec<u8>>,
    split: bool,
) -> (r: MutationResult)
    requires
        idx < old(ptb)@.inputs.len(),
    ensures
        final(ptb)@.commands == old(ptb)@.commands,
        final(ptb)@.inputs.len() == old(ptb)@.inputs.len(),
        forall|j: int|
            0 <= j < old(ptb)@.inputs.len() && j != idx ==> #[trigger] final(ptb)@.inputs[j]
                == old(ptb)@.inputs[j],
        keeps_kind(old(ptb)@.inputs[idx as int], final(ptb)@.inputs[idx as int]),
        r == MutationResult::Skipped ==> same_value(
            final(ptb)@.inputs[idx as int],
            old(ptb)@.inputs[idx as int],
        ),
        old(ptb)@.inputs[idx as int] is Bool || old(ptb)@.inputs[idx as int] is U8
            || old(ptb)@.inputs[idx as int] is Address ==> r == MutationResult::Mutated,
        old(ptb)@.inputs[idx as int] is U8 ==> final(ptb)@.inputs[idx as int]->U8_0 != old(
            ptb,
        )@.inputs[idx as int]->U8_0,
        is_uint(old(ptb)@.inputs[idx as int]) && pool_has_len(
            magic_number_pool@,
            byte_width(old(ptb)@.inputs[idx as int]),
        ) ==> r == MutationResult::Mutated,
        old(ptb)@.inputs[idx as int] is U256 ==> r == MutationResult::Mutated,
        sequence_wf(old(ptb)@) ==> sequence_wf(final(ptb)@),
        final(ctx).callers@ == old(ctx).callers@,
{
    let v = ptb.inputs.remove(idx);
    let mut mv = MutableValue::new(v);
    let r = mv.mutate(ctx, magic_number_pool, split);
    ptb.inputs.insert(idx, mv.value);
    proof {
        let o = old(ptb)@.inputs;
        let f = ptb.inputs@;
        assert forall|j: int| 0 <= j < o.len() && j != idx implies #[trigger] f[j] == o[j] by {
            if j < idx {
                assert(f[j] == o[j]);
            } else {
                assert(f[j] == o[j]);
            }
        }
        assert(ptb@.commands == old(ptb)@.commands);
        assert(ptb@.inputs.len() == old(ptb)@.inputs.len());
    }
    r
}

} // verus!
