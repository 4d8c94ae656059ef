//! The check for structs and enums that no function uses.

use super::finding::OracleFinding;
use super::unused::FilePackage;
use super::unused_report::{analyze_unused, finding_view, packages_reports, UnusedCheck};
use vstd::prelude::*;

verus! {

/// For each module of `packages`, in order, a `StaticUnusedStruct` finding when
/// some struct is neither a parameter type nor packed, then a `StaticUnusedEnum`
/// finding when some enum has no variant packed.
pub fn analyze(packages: &Vec<FilePackage>) -> (r: Vec<OracleFinding>)
    requires
        forall|k: int, i: int|
            0 <= k < packages@.len() && 0 <= i < packages@[k].modules@.len() ==> (#[trigger] packages@[k].modules@[i]).constants@.len()
                <= 0x10000,
    ensures
        r@.map_values(|f: OracleFinding| finding_view(f)) == packages_reports(
            UnusedCheck::Datatypes,
            packages@,
            packages@.len() as int,
        ),
{
    analyze_unused(UnusedCheck::Datatypes, packages)
}

} // verus!
