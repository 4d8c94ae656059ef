//! The check for constants that no instruction loads.

use super::finding::OracleFinding;
use super::unused::FilePackage;
use super::unused_report::{analyze_unused, finding_view, packages_reports, UnusedCheck};
use vstd::prelude::*;

verus! {

/// A `StaticUnusedConstant` finding for each module of `packages`, in order, that
/// defines constants no instruction loads.
pub fn analyze(packages: &Vec<FilePackage>) -> (r: Vec<OracleFinding>)
    requires
        forall|k: int, i: int|
            0 <= k < packages@.len() && 0 <= i < packages@[k].modules@.len() ==> (#[trigger] packages@[k].modules@[i]).constants@.len()
                <= 0x10000,
    ensures
        r@.map_values(|f: OracleFinding| finding_view(f)) == packages_reports(
            UnusedCheck::Constants,
            packages@,
            packages@.len() as int,
        ),
{
    analyze_unused(UnusedCheck::Constants, packages)
}

} // verus!
