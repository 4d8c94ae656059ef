//! Stackless bytecode of a function, as the static oracles read it.

use crate::value::{MoveAddress, MoveTypeTag};
use vstd::prelude::*;

verus! {

/// A constant that an instruction loads.
#[derive(Debug, PartialEq, Eq)]
pub enum Constant {
    Bool(bool),
    U8(u8),
    U64(u64),
    U128(u128),
    Address(MoveAddress),
    ByteArray(Vec<u8>),
}

/// The operation of a call instruction.
#[derive(Debug, PartialEq, Eq)]
pub enum Operation {
    Eq,
    Neq,
    Lt,
    Le,
    Gt,
    Ge,
    Add,
    Sub,
    Mul,
    Div,
    Mod,
    CastU64,
    CastU128,
    /// A call of a Move function, by name.
    Function(String),
}

/// One stackless instruction; locals are numbered temporaries.
#[derive(Debug, PartialEq, Eq)]
pub enum Bytecode {
    /// `dst := src`.
    Assign(usize, usize),
    /// Results, operation, operands.
    Call(Vec<usize>, Operation, Vec<usize>),
    /// `dst := constant`.
    Load(usize, Constant),
    /// Then label, else label, condition.
    Branch(u16, u16, usize),
    Jump(u16),
    Label(u16),
    Ret(Vec<usize>),
    Nop,
}

/// A function of a module: its name, instructions and the types of its locals.
#[derive(Debug, PartialEq, Eq)]
pub struct FunctionInfo {
    pub name: String,
    pub code: Vec<Bytecode>,
    pub local_types: Vec<MoveTypeTag>,
    pub is_native: bool,
}

/// A module under analysis: its qualified name and its functions.
#[derive(Debug, PartialEq, Eq)]
pub struct ModuleAnalysis {
    pub name: String,
    pub functions: Vec<FunctionInfo>,
}

/// Whether `b` writes the local `t`.
pub open spec fn defines(b: Bytecode, t: usize) -> bool {
    match b {
        Bytecode::Assign(dst, _) => dst == t,
        Bytecode::Call(dsts, _, _) => dsts@.contains(t),
        Bytecode::Load(dst, _) => dst == t,
        _ => false,
    }
}

/// `d` is the last instruction before `offset` that writes the local `t`.
pub open spec fn is_def_of(code: Seq<Bytecode>, t: usize, offset: int, d: int) -> bool {
    &&& 0 <= d < offset
    &&& d < code.len()
    &&& defines(code[d], t)
    &&& forall|e: int| d < e < offset && e < code.len() ==> !defines(#[trigger] code[e], t)
}

/// The instruction that last wrote `t` before `offset`, if any.
pub open spec fn def_before(code: Seq<Bytecode>, t: usize, offset: int) -> Option<Bytecode> {
    if exists|d: int| is_def_of(code, t, offset, d) {
        Some(code[choose|d: int| is_def_of(code, t, offset, d)])
    } else {
        None
    }
}

pub proof fn lemma_def_unique(code: Seq<Bytecode>, t: usize, offset: int, d1: int, d2: int)
    requires
        is_def_of(code, t, offset, d1),
        is_def_of(code, t, offset, d2),
    ensures
        d1 == d2,
{
    if d1 < d2 {
        assert(!defines(code[d2], t));
    } else if d2 < d1 {
        assert(!defines(code[d1], t));
    }
}

fn writes(b: &Bytecode, t: usize) -> (r: bool)
    ensures
        r == defines(*b, t),
{
    match b {
        Bytecode::Assign(dst, _) => *dst == t,
        Bytecode::Call(dsts, _, _) => {
            let mut i: usize = 0;
            while i < dsts.len()
                invariant
                    i <= dsts@.len(),
                    forall|k: int| 0 <= k < i ==> dsts@[k] != t,
                    b is Call && b->Call_0 == *dsts,
                decreases dsts@.len() - i,
            {
                if dsts[i] == t {
                    assert(dsts@.contains(t));
                    return true;
                }
                i = i + 1;
            }
            false
        },
        Bytecode::Load(dst, _) => *dst == t,
        _ => false,
    }
}

/// Position of the instruction that last wrote `t` before `offset`.
pub fn def_position(code: &Vec<Bytecode>, t: usize, offset: usize) -> (r: Option<usize>)
    requires
        offset <= code@.len(),
    ensures
        r is Some ==> is_def_of(code@, t, offset as int, r->Some_0 as int),
        r is Some ==> def_before(code@, t, offset as int) == Some(code@[r->Some_0 as int]),
        r is None <==> def_before(code@, t, offset as int) is None,
{
    let mut i: usize = offset;
    while i > 0
        invariant
            i <= offset <= code@.len(),
            forall|e: int| i <= e < offset ==> !defines(#[trigger] code@[e], t),
        decreases i,
    {
        if writes(&code[i - 1], t) {
            proof {
                let d = (i - 1) as int;
                assert(is_def_of(code@, t, offset as int, d));
                let c = choose|c: int| is_def_of(code@, t, offset as int, c);
                lemma_def_unique(code@, t, offset as int, d, c);
            }
            return Some(i - 1);
        }
        i = i - 1;
    }
    proof {
        assert forall|d: int| !is_def_of(code@, t, offset as int, d) by {
            if 0 <= d < offset {
                assert(!defines(code@[d], t));
            }
        }
    }
    None
}

} // verus!
