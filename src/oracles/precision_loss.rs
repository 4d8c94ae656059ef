//! Flags functions that multiply the result of a division or a square root.

use super::bytecode::{def_before, def_position, Bytecode, FunctionInfo, ModuleAnalysis, Operation};
use super::finding::OracleFinding;
use super::report::{reports, run_oracle, StaticOracle};
use vstd::prelude::*;

verus! {

/// Whether `b` is a division.
pub open spec fn is_div(b: Bytecode) -> bool {
    b is Call && b->Call_1 is Div
}

/// Whether `b` calls a function named `sqrt`.
pub open spec fn is_sqrt(b: Bytecode) -> bool {
    b is Call && b->Call_1 is Function && b->Call_1->Function_0@ == "sqrt"@
}

/// Whether the instruction at `offset` multiplies two operands of which one was
/// last written by a division or a square root.
pub open spec fn precision_loss_at(f: FunctionInfo, offset: int) -> bool {
    let code = f.code@;
    &&& 0 <= offset < code.len()
    &&& code[offset] is Call
    &&& code[offset]->Call_1 is Mul
    &&& code[offset]->Call_2@.len() == 2
    &&& match (
        def_before(code, code[offset]->Call_2@[0], offset),
        def_before(code, code[offset]->Call_2@[1], offset),
    ) {
        (Some(a), Some(b)) => is_div(a) || is_div(b) || is_sqrt(a) || is_sqrt(b),
        _ => false,
    }
}

/// Whether some multiplication of `f` may lose precision.
pub open spec fn has_precision_loss(f: FunctionInfo) -> bool {
    exists|offset: int| precision_loss_at(f, offset)
}

fn is_div_exec(b: &Bytecode) -> (r: bool)
    ensures
        r == is_div(*b),
{
    match b {
        Bytecode::Call(_, Operation::Div, _) => true,
        _ => false,
    }
}

fn is_sqrt_exec(b: &Bytecode) -> (r: bool)
    ensures
        r == is_sqrt(*b),
{
    match b {
        Bytecode::Call(_, Operation::Function(name), _) => {
            let sqrt = "sqrt".to_owned();
            proof {
                reveal_strlit("sqrt");
            }
            *name == sqrt
        },
        _ => false,
    }
}

fn loss_at(f: &FunctionInfo, offset: usize) -> (r: bool)
    requires
        offset < f.code@.len(),
    ensures
        r == precision_loss_at(*f, offset as int),
{
    match &f.code[offset] {
        Bytecode::Call(_, Operation::Mul, srcs) => {
            if srcs.len() != 2 {
                return false;
            }
            let a = match def_position(&f.code, srcs[0], offset) {
                Some(d) => d,
                None => return false,
            };
            let b = match def_position(&f.code, srcs[1], offset) {
                Some(d) => d,
                None => return false,
            };
            let op1 = &f.code[a];
            let op2 = &f.code[b];
            is_div_exec(op1) || is_div_exec(op2) || is_sqrt_exec(op1) || is_sqrt_exec(op2)
        },
        _ => false,
    }
}

/// Whether some multiplication of `function` takes a quotient or a square root.
pub fn detect_precision_loss(function: &FunctionInfo) -> (r: bool)
    ensures
        r == has_precision_loss(*function),
{
    let mut offset: usize = 0;
    while offset < function.code.len()
        invariant
            offset <= function.code@.len(),
            forall|o: int| 0 <= o < offset ==> !precision_loss_at(*function, o),
        decreases function.code@.len() - offset,
    {
        if loss_at(function, offset) {
            return true;
        }
        offset = offset + 1;
    }
    assert forall|o: int| !precision_loss_at(*function, o) by {
        if 0 <= o < offset {
        }
    }
    false
}

/// One `StaticPrecisionLoss` finding, of severity `Medium`, for each non-native
/// function, in order, that multiplies a quotient or a square root.
pub fn analyze(modules: &Vec<ModuleAnalysis>) -> (r: Vec<OracleFinding>)
    ensures
        reports(modules@, StaticOracle::PrecisionLoss, r@),
{
    run_oracle(modules, StaticOracle::PrecisionLoss)
}

} // verus!
