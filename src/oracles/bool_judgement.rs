//! Flags functions that compare a boolean with a boolean literal.

use super::bytecode::{def_before, def_position, Bytecode, Constant, FunctionInfo, ModuleAnalysis, Operation};
use super::finding::OracleFinding;
use super::report::{reports, run_oracle, StaticOracle};
use crate::value::MoveTypeTag;
use vstd::prelude::*;

verus! {

/// Whether `b` loads `true` or `false`.
pub open spec fn is_ld_bool(b: Bytecode) -> bool {
    b is Load && b->Load_1 is Bool
}

/// Whether the local that `b` writes (the first, for a call) is boolean-typed.
pub open spec fn ret_is_bool(b: Bytecode, local_types: Seq<MoveTypeTag>) -> bool {
    match b {
        Bytecode::Call(dsts, _, _) => dsts@.len() > 0 && dsts@[0] < local_types.len()
            && local_types[dsts@[0] as int] is Bool,
        Bytecode::Assign(dst, _) => dst < local_types.len() && local_types[dst as int] is Bool,
        Bytecode::Load(dst, _) => dst < local_types.len() && local_types[dst as int] is Bool,
        _ => false,
    }
}

/// Whether the instruction at `offset` tests with `==` or `!=` a loaded boolean
/// literal against a value statically known to be boolean.
pub open spec fn bool_judgement_at(f: FunctionInfo, offset: int) -> bool {
    let code = f.code@;
    &&& 0 <= offset < code.len()
    &&& code[offset] is Call
    &&& (code[offset]->Call_1 is Eq || code[offset]->Call_1 is Neq)
    &&& code[offset]->Call_2@.len() == 2
    &&& match (
        def_before(code, code[offset]->Call_2@[0], offset),
        def_before(code, code[offset]->Call_2@[1], offset),
    ) {
        (Some(l), Some(r)) => (is_ld_bool(l) && ret_is_bool(r, f.local_types@)) || (is_ld_bool(r)
            && ret_is_bool(l, f.local_types@)),
        _ => false,
    }
}

/// Whether some instruction of `f` is such a comparison.
pub open spec fn has_bool_judgement(f: FunctionInfo) -> bool {
    exists|offset: int| bool_judgement_at(f, offset)
}

fn is_ld_bool_exec(b: &Bytecode) -> (r: bool)
    ensures
        r == is_ld_bool(*b),
{
    match b {
        Bytecode::Load(_, Constant::Bool(_)) => true,
        _ => false,
    }
}

fn is_bool_local(local_types: &Vec<MoveTypeTag>, t: usize) -> (r: bool)
    ensures
        r == (t < local_types@.len() && local_types@[t as int] is Bool),
{
    t < local_types.len() && match &local_types[t] {
        MoveTypeTag::Bool => true,
        _ => false,
    }
}

fn ret_is_bool_exec(b: &Bytecode, local_types: &Vec<MoveTypeTag>) -> (r: bool)
    ensures
        r == ret_is_bool(*b, local_types@),
{
    match b {
        Bytecode::Call(dsts, _, _) => dsts.len() > 0 && is_bool_local(local_types, dsts[0]),
        Bytecode::Assign(dst, _) => is_bool_local(local_types, *dst),
        Bytecode::Load(dst, _) => is_bool_local(local_types, *dst),
        _ => false,
    }
}

fn judgement_at(f: &FunctionInfo, offset: usize) -> (r: bool)
    requires
        offset < f.code@.len(),
    ensures
        r == bool_judgement_at(*f, offset as int),
{
    match &f.code[offset] {
        Bytecode::Call(_, op, srcs) => {
            let cmp = match op {
                Operation::Eq | Operation::Neq => true,
                _ => false,
            };
            if !cmp || srcs.len() != 2 {
                return false;
            }
            let l = match def_position(&f.code, srcs[0], offset) {
                Some(d) => d,
                None => return false,
            };
            let r = match def_position(&f.code, srcs[1], offset) {
                Some(d) => d,
                None => return false,
            };
            let left = &f.code[l];
            let right = &f.code[r];
            (is_ld_bool_exec(left) && ret_is_bool_exec(right, &f.local_types)) || (is_ld_bool_exec(
                right,
            ) && ret_is_bool_exec(left, &f.local_types))
        },
        _ => false,
    }
}

/// Whether `function` compares a boolean with a boolean literal.
pub fn detect_bool_judgement(function: &FunctionInfo) -> (r: bool)
    ensures
        r == has_bool_judgement(*function),
{
    let mut offset: usize = 0;
    while offset < function.code.len()
        invariant
            offset <= function.code@.len(),
            forall|o: int| 0 <= o < offset ==> !bool_judgement_at(*function, o),
        decreases function.code@.len() - offset,
    {
        if judgement_at(function, offset) {
            return true;
        }
        offset = offset + 1;
    }
    assert forall|o: int| !bool_judgement_at(*function, o) by {
        if 0 <= o < offset {
        }
    }
    false
}

/// One `StaticBoolJudgement` finding, of severity `Minor`, for each non-native
/// function, in order, that compares a boolean with a boolean literal.
pub fn analyze(modules: &Vec<ModuleAnalysis>) -> (r: Vec<OracleFinding>)
    ensures
        reports(modules@, StaticOracle::BoolJudgement, r@),
{
    run_oracle(modules, StaticOracle::BoolJudgement)
}

} // verus!
