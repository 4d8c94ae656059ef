//! Move values as the fuzzer mutates them, and their fixed-width byte form.

use crate::codec::{
    decode_le, encode_le, le_bytes, le_value, lemma_le_bytes_len, lemma_le_round_trip,
    lemma_le_value_bound, lemma_pow256_16, pow256,
};
use vstd::prelude::*;
use vstd::slice::slice_subrange;

verus! {

/// A 256-bit unsigned integer: `lo + hi * 2^128`.
#[derive(Clone, Copy, Debug, PartialEq, Eq, Structural, PartialOrd, Ord, Hash)]
pub struct U256 {
    pub lo: u128,
    pub hi: u128,
}

/// A 32-byte account or object address, read as a 256-bit number.
#[derive(Clone, Copy, Debug, PartialEq, Eq, Structural, PartialOrd, Ord, Hash)]
pub struct MoveAddress(pub U256);

impl MoveAddress {
    /// The address `0x2` of the framework package.
    pub fn two() -> (r: MoveAddress)
        ensures
            r == MoveAddress(U256 { lo: 2, hi: 0 }),
    {
        MoveAddress(U256 { lo: 2, hi: 0 })
    }
}

/// The type of a Move value.
#[derive(Debug, PartialEq, Eq, PartialOrd, Ord, Hash)]
pub enum MoveTypeTag {
    Bool,
    Address,
    Signer,
    U8,
    U16,
    U32,
    U64,
    U128,
    U256,
    Vector(Box<MoveTypeTag>),
    Struct(Box<MoveStructTag>),
}

/// A struct type: defining module, name and type arguments.
#[derive(Debug, PartialEq, Eq, PartialOrd, Ord, Hash)]
pub struct MoveStructTag {
    pub address: MoveAddress,
    pub module: String,
    pub name: String,
    pub tys: Vec<MoveTypeTag>,
}

/// A concrete argument value of a call.
#[derive(Debug, PartialEq, Eq)]
pub enum InputArgument {
    Bool(bool),
    U8(u8),
    U16(u16),
    U32(u32),
    U64(u64),
    U128(u128),
    U256(U256),
    Address(MoveAddress),
    Vector(MoveTypeTag, Vec<InputArgument>),
}

/// `a` and `b` are the same type, struct names and type arguments compared by content.
pub open spec fn tag_eq(a: MoveTypeTag, b: MoveTypeTag) -> bool
    decreases a,
{
    match a {
        MoveTypeTag::Vector(x) => match b {
            MoveTypeTag::Vector(y) => tag_eq(*x, *y),
            _ => false,
        },
        MoveTypeTag::Struct(x) => match b {
            MoveTypeTag::Struct(y) => {
                &&& x.address == y.address
                &&& x.module@ == y.module@
                &&& x.name@ == y.name@
                &&& x.tys@.len() == y.tys@.len()
                &&& forall|i: int|
                    0 <= i < x.tys@.len() ==> tag_eq(#[trigger] x.tys@[i], y.tys@[i])
            },
            _ => false,
        },
        _ => a == b,
    }
}

/// Type equality is reflexive.
pub proof fn lemma_tag_eq_reflexive(a: MoveTypeTag)
    ensures
        tag_eq(a, a),
    decreases a,
{
    match a {
        MoveTypeTag::Vector(x) => lemma_tag_eq_reflexive(*x),
        MoveTypeTag::Struct(x) => {
            assert forall|i: int| 0 <= i < x.tys@.len() implies tag_eq(#[trigger] x.tys@[i], x.tys@[i]) by {
                lemma_tag_eq_reflexive(x.tys@[i]);
            }
        },
        _ => {},
    }
}

/// Type equality is symmetric.
pub proof fn lemma_tag_eq_symmetric(a: MoveTypeTag, b: MoveTypeTag)
    requires
        tag_eq(a, b),
    ensures
        tag_eq(b, a),
    decreases a,
{
    match a {
        MoveTypeTag::Vector(x) => {
            lemma_tag_eq_symmetric(*x, *b->Vector_0);
        },
        MoveTypeTag::Struct(x) => {
            let y = b->Struct_0;
            assert forall|i: int| 0 <= i < y.tys@.len() implies tag_eq(#[trigger] y.tys@[i], x.tys@[i]) by {
                assert(tag_eq(x.tys@[i], y.tys@[i]));
                lemma_tag_eq_symmetric(x.tys@[i], y.tys@[i]);
            }
        },
        _ => {},
    }
}

/// Type equality is transitive.
pub proof fn lemma_tag_eq_transitive(a: MoveTypeTag, b: MoveTypeTag, c: MoveTypeTag)
    requires
        tag_eq(a, b),
        tag_eq(b, c),
    ensures
        tag_eq(a, c),
    decreases a,
{
    match a {
        MoveTypeTag::Vector(x) => {
            lemma_tag_eq_transitive(*x, *b->Vector_0, *c->Vector_0);
        },
        MoveTypeTag::Struct(x) => {
            let y = b->Struct_0;
            let z = c->Struct_0;
            assert forall|i: int| 0 <= i < x.tys@.len() implies tag_eq(#[trigger] x.tys@[i], z.tys@[i]) by {
                assert(tag_eq(x.tys@[i], y.tys@[i]));
                assert(tag_eq(y.tys@[i], z.tys@[i]));
                lemma_tag_eq_transitive(x.tys@[i], y.tys@[i], z.tys@[i]);
            }
        },
        _ => {},
    }
}

/// A copy of `t`.
pub fn clone_tag(t: &MoveTypeTag) -> (r: MoveTypeTag)
    ensures
        tag_eq(r, *t),
    decreases t,
{
    match t {
        MoveTypeTag::Bool => MoveTypeTag::Bool,
        MoveTypeTag::Address => MoveTypeTag::Address,
        MoveTypeTag::Signer => MoveTypeTag::Signer,
        MoveTypeTag::U8 => MoveTypeTag::U8,
        MoveTypeTag::U16 => MoveTypeTag::U16,
        MoveTypeTag::U32 => MoveTypeTag::U32,
        MoveTypeTag::U64 => MoveTypeTag::U64,
        MoveTypeTag::U128 => MoveTypeTag::U128,
        MoveTypeTag::U256 => MoveTypeTag::U256,
        MoveTypeTag::Vector(x) => MoveTypeTag::Vector(Box::new(clone_tag(x))),
        MoveTypeTag::Struct(x) => {
            let mut tys: Vec<MoveTypeTag> = Vec::new();
            let mut i: usize = 0;
            while i < x.tys.len()
                invariant
                    i <= x.tys@.len(),
                    tys@.len() == i,
                    forall|k: int| 0 <= k < i ==> tag_eq(#[trigger] tys@[k], x.tys@[k]),
                    *t == MoveTypeTag::Struct(*x),
                decreases x.tys@.len() - i,
            {
                proof {
                    let ghost st = t->Struct_0;
                    assert(decreases_to!(*t => st));
                    assert(decreases_to!(st => st.tys));
                    assert(decreases_to!(st.tys => st.tys@));
                    assert(decreases_to!(st.tys@ => st.tys@[i as int]));
                }
                tys.push(clone_tag(&x.tys[i]));
                i = i + 1;
            }
            MoveTypeTag::Struct(
                Box::new(
                    MoveStructTag {
                        address: x.address,
                        module: x.module.clone(),
                        name: x.name.clone(),
                        tys,
                    },
                ),
            )
        },
    }
}

/// A copy of each of `tys`.
pub fn clone_tags(tys: &Vec<MoveTypeTag>) -> (r: Vec<MoveTypeTag>)
    ensures
        r@.len() == tys@.len(),
        forall|k: int| 0 <= k < tys@.len() ==> tag_eq(#[trigger] r@[k], tys@[k]),
{
    let mut out: Vec<MoveTypeTag> = Vec::new();
    let mut i: usize = 0;
    while i < tys.len()
        invariant
            i <= tys@.len(),
            out@.len() == i,
            forall|k: int| 0 <= k < i ==> tag_eq(#[trigger] out@[k], tys@[k]),
        decreases tys@.len() - i,
    {
        out.push(clone_tag(&tys[i]));
        i = i + 1;
    }
    out
}

/// Whether `a` and `b` are the same type.
pub fn tags_equal(a: &MoveTypeTag, b: &MoveTypeTag) -> (r: bool)
    ensures
        r == tag_eq(*a, *b),
    decreases a,
{
    match (a, b) {
        (MoveTypeTag::Bool, MoveTypeTag::Bool) => true,
        (MoveTypeTag::Address, MoveTypeTag::Address) => true,
        (MoveTypeTag::Signer, MoveTypeTag::Signer) => true,
        (MoveTypeTag::U8, MoveTypeTag::U8) => true,
        (MoveTypeTag::U16, MoveTypeTag::U16) => true,
        (MoveTypeTag::U32, MoveTypeTag::U32) => true,
        (MoveTypeTag::U64, MoveTypeTag::U64) => true,
        (MoveTypeTag::U128, MoveTypeTag::U128) => true,
        (MoveTypeTag::U256, MoveTypeTag::U256) => true,
        (MoveTypeTag::Vector(x), MoveTypeTag::Vector(y)) => tags_equal(x, y),
        (MoveTypeTag::Struct(x), MoveTypeTag::Struct(y)) => {
            if x.address != y.address || x.module != y.module || x.name != y.name || x.tys.len()
                != y.tys.len() {
                return false;
            }
            let mut i: usize = 0;
            while i < x.tys.len()
                invariant
                    i <= x.tys@.len(),
                    x.tys@.len() == y.tys@.len(),
                    *a == MoveTypeTag::Struct(*x),
                    *b == MoveTypeTag::Struct(*y),
                    x.address == y.address && x.module@ == y.module@ && x.name@ == y.name@,
                    forall|k: int| 0 <= k < i ==> tag_eq(#[trigger] x.tys@[k], y.tys@[k]),
                decreases x.tys@.len() - i,
            {
                proof {
                    let ghost st = a->Struct_0;
                    assert(decreases_to!(*a => st));
                    assert(decreases_to!(st => st.tys));
                    assert(decreases_to!(st.tys => st.tys@));
                    assert(decreases_to!(st.tys@ => st.tys@[i as int]));
                }
                if !tags_equal(&x.tys[i], &y.tys[i]) {
                    assert(!tag_eq(x.tys@[i as int], y.tys@[i as int]));
                    return false;
                }
                i = i + 1;
            }
            true
        },
        (MoveTypeTag::Bool, _) | (MoveTypeTag::Address, _) | (MoveTypeTag::Signer, _) | (MoveTypeTag::U8, _)
        | (MoveTypeTag::U16, _) | (MoveTypeTag::U32, _) | (MoveTypeTag::U64, _) | (MoveTypeTag::U128, _)
        | (MoveTypeTag::U256, _) | (MoveTypeTag::Vector(_), _) | (MoveTypeTag::Struct(_), _) => false,
    }
}

impl Clone for MoveTypeTag {
    fn clone(&self) -> Self {
        clone_tag(self)
    }
}

impl Clone for MoveStructTag {
    fn clone(&self) -> Self {
        MoveStructTag {
            address: self.address,
            module: self.module.clone(),
            name: self.name.clone(),
            tys: clone_tags(&self.tys),
        }
    }
}

/// A copy of `a`.
pub fn clone_arg(a: &InputArgument) -> (r: InputArgument)
    ensures
        is_uint(*a) || a is Bool || a is Address ==> r == *a,
        a is Vector ==> r is Vector && tag_eq(r->Vector_0, a->Vector_0)
            && r->Vector_1@.len() == a->Vector_1@.len(),
    decreases a,
{
    match a {
        InputArgument::Bool(v) => InputArgument::Bool(*v),
        InputArgument::U8(v) => InputArgument::U8(*v),
        InputArgument::U16(v) => InputArgument::U16(*v),
        InputArgument::U32(v) => InputArgument::U32(*v),
        InputArgument::U64(v) => InputArgument::U64(*v),
        InputArgument::U128(v) => InputArgument::U128(*v),
        InputArgument::U256(v) => InputArgument::U256(*v),
        InputArgument::Address(v) => InputArgument::Address(*v),
        InputArgument::Vector(t, vs) => {
            let mut out: Vec<InputArgument> = Vec::new();
            let mut i: usize = 0;
            while i < vs.len()
                invariant
                    i <= vs@.len(),
                    out@.len() == i,
                    *a == InputArgument::Vector(*t, *vs),
                decreases vs@.len() - i,
            {
                proof {
                    assert(decreases_to!(*a => a->Vector_1));
                    assert(decreases_to!(a->Vector_1 => a->Vector_1@));
                    assert(decreases_to!(a->Vector_1@ => a->Vector_1@[i as int]));
                }
                out.push(clone_arg(&vs[i]));
                i = i + 1;
            }
            InputArgument::Vector(clone_tag(t), out)
        },
    }
}

impl Clone for InputArgument {
    fn clone(&self) -> Self {
        clone_arg(self)
    }
}

/// Byte width of an unsigned integer type; zero for every other type.
pub open spec fn tag_width(t: MoveTypeTag) -> nat {
    match t {
        MoveTypeTag::U8 => 1,
        MoveTypeTag::U16 => 2,
        MoveTypeTag::U32 => 4,
        MoveTypeTag::U64 => 8,
        MoveTypeTag::U128 => 16,
        MoveTypeTag::U256 => 32,
        _ => 0,
    }
}

/// Whether the argument is an unsigned integer.
pub open spec fn is_uint(a: InputArgument) -> bool {
    match a {
        InputArgument::U8(_) | InputArgument::U16(_) | InputArgument::U32(_)
        | InputArgument::U64(_) | InputArgument::U128(_) | InputArgument::U256(_) => true,
        _ => false,
    }
}

/// The type of an unsigned integer argument.
pub open spec fn uint_tag(a: InputArgument) -> MoveTypeTag {
    match a {
        InputArgument::U8(_) => MoveTypeTag::U8,
        InputArgument::U16(_) => MoveTypeTag::U16,
        InputArgument::U32(_) => MoveTypeTag::U32,
        InputArgument::U64(_) => MoveTypeTag::U64,
        InputArgument::U128(_) => MoveTypeTag::U128,
        _ => MoveTypeTag::U256,
    }
}

/// The little-endian bytes of an unsigned integer argument, at its type's width.
pub open spec fn uint_bytes(a: InputArgument) -> Seq<u8> {
    match a {
        InputArgument::U8(v) => le_bytes(v as nat, 1),
        InputArgument::U16(v) => le_bytes(v as nat, 2),
        InputArgument::U32(v) => le_bytes(v as nat, 4),
        InputArgument::U64(v) => le_bytes(v as nat, 8),
        InputArgument::U128(v) => le_bytes(v as nat, 16),
        InputArgument::U256(x) => le_bytes(x.lo as nat, 16) + le_bytes(x.hi as nat, 16),
        _ => seq![],
    }
}

/// The unsigned integer of type `t` that the little-endian bytes `b` stand for.
pub open spec fn uint_from_bytes(t: MoveTypeTag, b: Seq<u8>) -> InputArgument {
    match t {
        MoveTypeTag::U8 => InputArgument::U8(le_value(b) as u8),
        MoveTypeTag::U16 => InputArgument::U16(le_value(b) as u16),
        MoveTypeTag::U32 => InputArgument::U32(le_value(b) as u32),
        MoveTypeTag::U64 => InputArgument::U64(le_value(b) as u64),
        MoveTypeTag::U128 => InputArgument::U128(le_value(b) as u128),
        _ => InputArgument::U256(
            U256 {
                lo: le_value(b.subrange(0, 16)) as u128,
                hi: le_value(b.subrange(16, 32)) as u128,
            },
        ),
    }
}

/// An unsigned integer, or a vector whose element type is an unsigned integer type
/// that every element has: the values that have a fixed-width byte form.
pub open spec fn is_fixed_width(a: InputArgument) -> bool {
    match a {
        InputArgument::Vector(t, vs) => tag_width(t) > 0 && forall|i: int|
            0 <= i < vs@.len() ==> is_uint(#[trigger] vs@[i]) && uint_tag(vs@[i]) == t,
        _ => is_uint(a),
    }
}

/// Number of bytes in the byte form of a fixed-width value.
pub open spec fn byte_width(a: InputArgument) -> nat {
    match a {
        InputArgument::Vector(t, vs) => vs@.len() * tag_width(t),
        _ => tag_width(uint_tag(a)),
    }
}

/// The byte sequences of `s`, one after another.
pub open spec fn concat_chunks(s: Seq<Seq<u8>>) -> Seq<u8>
    decreases s.len(),
{
    if s.len() == 0 {
        seq![]
    } else {
        concat_chunks(s.drop_last()) + s.last()
    }
}

/// Bytes `i * w .. i * w + w` of `b`.
pub open spec fn chunk(b: Seq<u8>, i: int, w: int) -> Seq<u8> {
    b.subrange(i * w, i * w + w)
}

/// The byte form of a fixed-width value: the little-endian bytes of an integer, or
/// those of each element of a vector in order.
pub open spec fn sync_spec(a: InputArgument) -> Seq<u8> {
    match a {
        InputArgument::Vector(_, vs) => concat_chunks(vs@.map_values(|e| uint_bytes(e))),
        _ => uint_bytes(a),
    }
}

/// `r` is `a` with its value read back from the bytes `b`: the same type, and for
/// a vector the same length, each element read from its own chunk.
pub open spec fn commit_result(b: Seq<u8>, a: InputArgument, r: InputArgument) -> bool {
    match a {
        InputArgument::Vector(t, vs) => match r {
            InputArgument::Vector(rt, rs) => {
                &&& rt == t
                &&& rs@.len() == vs@.len()
                &&& forall|i: int|
                    0 <= i < rs@.len() ==> #[trigger] rs@[i] == uint_from_bytes(
                        t,
                        chunk(b, i, tag_width(t) as int),
                    )
            },
            _ => false,
        },
        _ => r == uint_from_bytes(uint_tag(a), b),
    }
}

/// `a` and `b` hold the same value: equal, or vectors of one element type whose
/// elements are equal one by one.
pub open spec fn same_value(a: InputArgument, b: InputArgument) -> bool {
    match (a, b) {
        (InputArgument::Vector(ta, va), InputArgument::Vector(tb, vb)) => ta == tb && va@ == vb@,
        _ => a == b,
    }
}

proof fn lemma_pow256_small()
    ensures
        pow256(1) == 0x100,
        pow256(2) == 0x1_0000,
        pow256(4) == 0x1_0000_0000,
        pow256(8) == 0x1_0000_0000_0000_0000,
{
    reveal_with_fuel(pow256, 9);
}

proof fn lemma_uint_bytes_len(a: InputArgument)
    requires
        is_uint(a),
    ensures
        uint_bytes(a).len() == tag_width(uint_tag(a)),
{
    match a {
        InputArgument::U8(v) => lemma_le_bytes_len(v as nat, 1),
        InputArgument::U16(v) => lemma_le_bytes_len(v as nat, 2),
        InputArgument::U32(v) => lemma_le_bytes_len(v as nat, 4),
        InputArgument::U64(v) => lemma_le_bytes_len(v as nat, 8),
        InputArgument::U128(v) => lemma_le_bytes_len(v as nat, 16),
        InputArgument::U256(x) => {
            lemma_le_bytes_len(x.lo as nat, 16);
            lemma_le_bytes_len(x.hi as nat, 16);
        },
        _ => {},
    }
}

/// Reading an integer back from its own bytes gives the integer.
proof fn lemma_uint_round_trip(a: InputArgument)
    requires
        is_uint(a),
    ensures
        uint_from_bytes(uint_tag(a), uint_bytes(a)) == a,
{
    lemma_pow256_small();
    lemma_pow256_16();
    match a {
        InputArgument::U8(v) => lemma_le_round_trip(v as nat, 1),
        InputArgument::U16(v) => lemma_le_round_trip(v as nat, 2),
        InputArgument::U32(v) => lemma_le_round_trip(v as nat, 4),
        InputArgument::U64(v) => lemma_le_round_trip(v as nat, 8),
        InputArgument::U128(v) => lemma_le_round_trip(v as nat, 16),
        InputArgument::U256(x) => {
            lemma_le_round_trip(x.lo as nat, 16);
            lemma_le_round_trip(x.hi as nat, 16);
            lemma_le_bytes_len(x.lo as nat, 16);
            lemma_le_bytes_len(x.hi as nat, 16);
            let b = uint_bytes(a);
            assert(b.subrange(0, 16) =~= le_bytes(x.lo as nat, 16));
            assert(b.subrange(16, 32) =~= le_bytes(x.hi as nat, 16));
        },
        _ => {},
    }
}

/// Chunks of one width, laid end to end, are found again at their offsets.
proof fn lemma_concat_chunks(s: Seq<Seq<u8>>, w: nat)
    requires
        forall|k: int| 0 <= k < s.len() ==> (#[trigger] s[k]).len() == w,
    ensures
        concat_chunks(s).len() == s.len() * w,
        forall|i: int| 0 <= i < s.len() ==> chunk(concat_chunks(s), i, w as int) == #[trigger] s[i],
    decreases s.len(),
{
    if s.len() > 0 {
        let init = s.drop_last();
        lemma_concat_chunks(init, w);
        let c = concat_chunks(s);
        let ci = concat_chunks(init);
        assert(c == ci + s.last());
        assert(init.len() * w + w == s.len() * w) by (nonlinear_arith)
            requires
                init.len() + 1 == s.len(),
        ;
        assert forall|i: int| 0 <= i < s.len() implies chunk(c, i, w as int) == #[trigger] s[i] by {
            if i < init.len() {
                assert(i * w + w <= init.len() * w) by (nonlinear_arith)
                    requires
                        0 <= i < init.len(),
                ;
                assert(0 <= i * w) by (nonlinear_arith)
                    requires
                        0 <= i,
                ;
                assert(chunk(c, i, w as int) =~= chunk(ci, i, w as int));
                assert(init[i] == s[i]);
            } else {
                assert(i * w == init.len() * w);
                assert(chunk(c, i, w as int) =~= s.last());
            }
        }
    }
}

proof fn lemma_sync_len(a: InputArgument)
    requires
        is_fixed_width(a),
    ensures
        sync_spec(a).len() == byte_width(a),
{
    match a {
        InputArgument::Vector(t, vs) => {
            let s = vs@.map_values(|e| uint_bytes(e));
            assert forall|k: int| 0 <= k < s.len() implies (#[trigger] s[k]).len() == tag_width(
                t,
            ) by {
                lemma_uint_bytes_len(vs@[k]);
            }
            lemma_concat_chunks(s, tag_width(t));
        },
        _ => lemma_uint_bytes_len(a),
    }
}

/// Reading a fixed-width value back from its own byte form gives the same value.
pub proof fn lemma_sync_commit_round_trip(v: InputArgument, r: InputArgument)
    requires
        is_fixed_width(v),
        commit_result(sync_spec(v), v, r),
    ensures
        same_value(r, v),
{
    match v {
        InputArgument::Vector(t, vs) => {
            let s = vs@.map_values(|e| uint_bytes(e));
            let w = tag_width(t);
            assert forall|k: int| 0 <= k < s.len() implies (#[trigger] s[k]).len() == w by {
                lemma_uint_bytes_len(vs@[k]);
            }
            lemma_concat_chunks(s, w);
            match r {
                InputArgument::Vector(rt, rs) => {
                    assert forall|i: int| 0 <= i < rs@.len() implies #[trigger] rs@[i]
                        == vs@[i] by {
                        assert(chunk(sync_spec(v), i, w as int) == s[i]);
                        lemma_uint_round_trip(vs@[i]);
                    }
                    assert(rs@ =~= vs@);
                },
                _ => {},
            }
        },
        _ => lemma_uint_round_trip(v),
    }
}

fn uint_sync(a: &InputArgument) -> (r: Vec<u8>)
    requires
        is_uint(*a),
    ensures
        r@ == uint_bytes(*a),
{
    proof {
        lemma_pow256_small();
        lemma_pow256_16();
    }
    match a {
        InputArgument::U8(v) => encode_le(*v as u128, 1),
        InputArgument::U16(v) => encode_le(*v as u128, 2),
        InputArgument::U32(v) => encode_le(*v as u128, 4),
        InputArgument::U64(v) => encode_le(*v as u128, 8),
        InputArgument::U128(v) => encode_le(*v, 16),
        InputArgument::U256(x) => {
            let mut lo = encode_le(x.lo, 16);
            let mut hi = encode_le(x.hi, 16);
            lo.append(&mut hi);
            lo
        },
        _ => Vec::new(),
    }
}

/// The byte form of a fixed-width value.
pub fn sync(value: &InputArgument) -> (r: Vec<u8>)
    requires
        is_fixed_width(*value),
    ensures
        r@ == sync_spec(*value),
        r@.len() == byte_width(*value),
{
    proof {
        lemma_sync_len(*value);
    }
    match value {
        InputArgument::Vector(_, vs) => {
            let ghost s = vs@.map_values(|e| uint_bytes(e));
            let mut out: Vec<u8> = Vec::new();
            let mut i: usize = 0;
            while i < vs.len()
                invariant
                    i <= vs@.len(),
                    s == vs@.map_values(|e| uint_bytes(e)),
                    is_fixed_width(*value),
                    *value == InputArgument::Vector(value->Vector_0, *vs),
                    out@ == concat_chunks(s.take(i as int)),
                decreases vs@.len() - i,
            {
                let mut b = uint_sync(&vs[i]);
                proof {
                    assert(s.take(i + 1).drop_last() =~= s.take(i as int));
                }
                out.append(&mut b);
                i = i + 1;
            }
            assert(s.take(i as int) =~= s);
            out
        },
        _ => uint_sync(value),
    }
}

/// Width in bytes of an unsigned integer type.
pub fn uint_width(t: &MoveTypeTag) -> (r: usize)
    ensures
        r == tag_width(*t),
{
    match t {
        MoveTypeTag::U8 => 1,
        MoveTypeTag::U16 => 2,
        MoveTypeTag::U32 => 4,
        MoveTypeTag::U64 => 8,
        MoveTypeTag::U128 => 16,
        MoveTypeTag::U256 => 32,
        _ => 0,
    }
}

/// A copy of an unsigned integer type.
fn copy_uint_tag(t: &MoveTypeTag) -> (r: MoveTypeTag)
    requires
        tag_width(*t) > 0,
    ensures
        r == *t,
{
    match t {
        MoveTypeTag::U8 => MoveTypeTag::U8,
        MoveTypeTag::U16 => MoveTypeTag::U16,
        MoveTypeTag::U32 => MoveTypeTag::U32,
        MoveTypeTag::U64 => MoveTypeTag::U64,
        MoveTypeTag::U128 => MoveTypeTag::U128,
        _ => MoveTypeTag::U256,
    }
}

fn uint_commit(t: &MoveTypeTag, b: &[u8]) -> (r: InputArgument)
    requires
        tag_width(*t) > 0,
        b@.len() == tag_width(*t),
    ensures
        r == uint_from_bytes(*t, b@),
{
    proof {
        lemma_pow256_small();
        lemma_le_value_bound(b@);
    }
    match t {
        MoveTypeTag::U8 => InputArgument::U8(decode_le(b) as u8),
        MoveTypeTag::U16 => InputArgument::U16(decode_le(b) as u16),
        MoveTypeTag::U32 => InputArgument::U32(decode_le(b) as u32),
        MoveTypeTag::U64 => InputArgument::U64(decode_le(b) as u64),
        MoveTypeTag::U128 => InputArgument::U128(decode_le(b)),
        _ => {
            let lo = decode_le(slice_subrange(b, 0, 16));
            let hi = decode_le(slice_subrange(b, 16, 32));
            InputArgument::U256(U256 { lo, hi })
        },
    }
}

fn uint_tag_of(a: &InputArgument) -> (r: MoveTypeTag)
    requires
        is_uint(*a),
    ensures
        r == uint_tag(*a),
        tag_width(r) > 0,
{
    match a {
        InputArgument::U8(_) => MoveTypeTag::U8,
        InputArgument::U16(_) => MoveTypeTag::U16,
        InputArgument::U32(_) => MoveTypeTag::U32,
        InputArgument::U64(_) => MoveTypeTag::U64,
        InputArgument::U128(_) => MoveTypeTag::U128,
        _ => MoveTypeTag::U256,
    }
}

/// `value` with its contents read back from `bytes`, which hold its byte form.
pub fn commit(bytes: &[u8], value: &InputArgument) -> (r: InputArgument)
    requires
        is_fixed_width(*value),
        bytes@.len() == byte_width(*value),
    ensures
        commit_result(bytes@, *value, r),
        is_fixed_width(r),
        byte_width(r) == byte_width(*value),
{
    match value {
        InputArgument::Vector(t, vs) => {
            let w = uint_width(t);
            let n: usize = bytes.len();
            let mut rs: Vec<InputArgument> = Vec::new();
            let mut i: usize = 0;
            while i < vs.len()
                invariant
                    i <= vs@.len(),
                    w == tag_width(*t) > 0,
                    bytes@.len() == vs@.len() * w,
                    n == bytes@.len(),
                    rs@.len() == i,
                    forall|k: int|
                        0 <= k < i ==> #[trigger] rs@[k] == uint_from_bytes(
                            *t,
                            chunk(bytes@, k, w as int),
                        ),
                decreases vs@.len() - i,
            {
                proof {
                    assert(i * w + w <= vs@.len() * w) by (nonlinear_arith)
                        requires
                            i < vs@.len(),
                    ;
                    assert(0 <= i * w) by (nonlinear_arith);
                }
                let piece = slice_subrange(bytes, i * w, i * w + w);
                let e = uint_commit(t, piece);
                rs.push(e);
                i = i + 1;
            }
            InputArgument::Vector(copy_uint_tag(t), rs)
        },
        _ => {
            let t = uint_tag_of(value);
            uint_commit(&t, bytes)
        },
    }
}

} // verus!
