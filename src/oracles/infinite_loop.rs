//! Flags functions whose branch on a constant condition jumps backwards.

use super::bytecode::{def_before, def_position, Bytecode, Constant, FunctionInfo, ModuleAnalysis};
use super::finding::OracleFinding;
use super::report::{reports, run_oracle, StaticOracle};
use vstd::prelude::*;

verus! {

/// `p` is the last position of label `l` in `code`.
pub open spec fn is_label_pos(code: Seq<Bytecode>, l: u16, p: int) -> bool {
    &&& 0 <= p < code.len()
    &&& code[p] is Label && code[p]->Label_0 == l
    &&& forall|q: int| p < q < code.len() ==> !(#[trigger] code[q] is Label && code[q]->Label_0 == l)
}

/// The offset that label `l` resolves to, if it occurs.
pub open spec fn label_pos(code: Seq<Bytecode>, l: u16) -> Option<int> {
    if exists|p: int| is_label_pos(code, l, p) {
        Some(choose|p: int| is_label_pos(code, l, p))
    } else {
        None
    }
}

/// Whether the instruction at `offset` branches on a boolean constant loaded into
/// its condition, and the label that the constant selects resolves at or before
/// `offset` (both labels resolving).
pub open spec fn infinite_loop_at(f: FunctionInfo, offset: int) -> bool {
    let code = f.code@;
    &&& 0 <= offset < code.len()
    &&& code[offset] is Branch
    &&& match def_before(code, code[offset]->Branch_2, offset) {
        Some(Bytecode::Load(_, Constant::Bool(v))) => match (
            label_pos(code, code[offset]->Branch_0),
            label_pos(code, code[offset]->Branch_1),
        ) {
            (Some(then_pos), Some(else_pos)) => if v {
                then_pos <= offset
            } else {
                else_pos <= offset
            },
            _ => false,
        },
        _ => false,
    }
}

/// Whether some branch of `f` loops on a constant condition.
pub open spec fn has_infinite_loop(f: FunctionInfo) -> bool {
    exists|offset: int| infinite_loop_at(f, offset)
}

proof fn lemma_label_pos_unique(code: Seq<Bytecode>, l: u16, pa: int, pb: int)
    requires
        is_label_pos(code, l, pa),
        is_label_pos(code, l, pb),
    ensures
        pa == pb,
{
    if pa < pb {
        assert(!(code[pb] is Label && code[pb]->Label_0 == l));
    } else if pb < pa {
        assert(!(code[pa] is Label && code[pa]->Label_0 == l));
    }
}

/// The offset that label `l` resolves to, if it occurs.
pub fn label_offset(code: &Vec<Bytecode>, l: u16) -> (r: Option<usize>)
    ensures
        r is Some ==> label_pos(code@, l) == Some(r->Some_0 as int),
        r is None ==> label_pos(code@, l) is None,
{
    let mut i: usize = code.len();
    while i > 0
        invariant
            i <= code@.len(),
            forall|q: int| i <= q < code@.len() ==> !(#[trigger] code@[q] is Label && code@[q]->Label_0 == l),
        decreases i,
    {
        let hit = match &code[i - 1] {
            Bytecode::Label(x) => *x == l,
            _ => false,
        };
        if hit {
            proof {
                let p = (i - 1) as int;
                assert(is_label_pos(code@, l, p));
                let c = choose|c: int| is_label_pos(code@, l, c);
                lemma_label_pos_unique(code@, l, p, c);
            }
            return Some(i - 1);
        }
        i = i - 1;
    }
    proof {
        assert forall|p: int| !is_label_pos(code@, l, p) by {
            if 0 <= p < code@.len() {
                assert(!(code@[p] is Label && code@[p]->Label_0 == l));
            }
        }
    }
    None
}

fn loop_at(f: &FunctionInfo, offset: usize) -> (r: bool)
    requires
        offset < f.code@.len(),
    ensures
        r == infinite_loop_at(*f, offset as int),
{
    match &f.code[offset] {
        Bytecode::Branch(then_label, else_label, cond) => {
            let d = match def_position(&f.code, *cond, offset) {
                Some(d) => d,
                None => return false,
            };
            let value = match &f.code[d] {
                Bytecode::Load(_, Constant::Bool(v)) => *v,
                _ => return false,
            };
            let then_offset = match label_offset(&f.code, *then_label) {
                Some(p) => p,
                None => return false,
            };
            let else_offset = match label_offset(&f.code, *else_label) {
                Some(p) => p,
                None => return false,
            };
            if value {
                then_offset <= offset
            } else {
                else_offset <= offset
            }
        },
        _ => false,
    }
}

/// Whether some branch of `function` loops on a constant condition.
pub fn detect_infinite_loop(function: &FunctionInfo) -> (r: bool)
    ensures
        r == has_infinite_loop(*function),
{
    let mut offset: usize = 0;
    while offset < function.code.len()
        invariant
            offset <= function.code@.len(),
            forall|o: int| 0 <= o < offset ==> !infinite_loop_at(*function, o),
        decreases function.code@.len() - offset,
    {
        if loop_at(function, offset) {
            return true;
        }
        offset = offset + 1;
    }
    assert forall|o: int| !infinite_loop_at(*function, o) by {
        if 0 <= o < offset {
        }
    }
    false
}

/// One `StaticInfiniteLoop` finding, of severity `Major`, for each non-native
/// function, in order, that loops on a constant branch condition.
pub fn analyze(modules: &Vec<ModuleAnalysis>) -> (r: Vec<OracleFinding>)
    ensures
        reports(modules@, StaticOracle::InfiniteLoop, r@),
{
    run_oracle(modules, StaticOracle::InfiniteLoop)
}

} // verus!
