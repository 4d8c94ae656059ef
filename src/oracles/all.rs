//! All static checks in one pass.

use super::bytecode::ModuleAnalysis;
use super::finding::OracleFinding;
use super::report::{reports, StaticOracle};
use super::unused::FilePackage;
use super::unused_report::{finding_view, packages_reports, UnusedCheck};
use super::{bool_judgement, infinite_loop, precision_loss, unused_const, unused_private_fun, unused_struct};
use vstd::prelude::*;

verus! {

/// The findings of every static check, in this order: boolean judgements, infinite
/// loops and precision loss over the stackless `modules`; unused constants, unused
/// structs and enums, and unused private and friend functions over `packages`.
pub fn run_all(modules: &Vec<ModuleAnalysis>, packages: &Vec<FilePackage>) -> (r: Vec<OracleFinding>)
    requires
        forall|k: int, i: int|
            0 <= k < packages@.len() && 0 <= i < packages@[k].modules@.len() ==> (#[trigger] packages@[k].modules@[i]).constants@.len()
                <= 0x10000,
    ensures
        exists|a: Seq<OracleFinding>, b: Seq<OracleFinding>, c: Seq<OracleFinding>, d: Seq<OracleFinding>, e: Seq<OracleFinding>, f: Seq<OracleFinding>|
            r@ == a + b + c + d + e + f
            && reports(modules@, StaticOracle::BoolJudgement, a)
            && reports(modules@, StaticOracle::InfiniteLoop, b)
            && reports(modules@, StaticOracle::PrecisionLoss, c)
            && d.map_values(|x: OracleFinding| finding_view(x)) == packages_reports(UnusedCheck::Constants, packages@, packages@.len() as int)
            && e.map_values(|x: OracleFinding| finding_view(x)) == packages_reports(UnusedCheck::Datatypes, packages@, packages@.len() as int)
            && f.map_values(|x: OracleFinding| finding_view(x)) == packages_reports(UnusedCheck::Functions, packages@, packages@.len() as int),
{
    let mut out = bool_judgement::analyze(modules);
    let ghost a = out@;
    let mut b = infinite_loop::analyze(modules);
    let ghost bg = b@;
    let mut c = precision_loss::analyze(modules);
    let ghost cg = c@;
    let mut d = unused_const::analyze(packages);
    let ghost dg = d@;
    let mut e = unused_struct::analyze(packages);
    let ghost eg = e@;
    let mut f = unused_private_fun::analyze(packages);
    let ghost fg = f@;
    out.append(&mut b);
    out.append(&mut c);
    out.append(&mut d);
    out.append(&mut e);
    out.append(&mut f);
    assert(out@ == a + bg + cg + dg + eg + fg);
    out
}

} // verus!
