//! The check for private and friend functions that nothing calls.

use super::finding::OracleFinding;
use super::unused::FilePackage;
use super::unused_report::{analyze_unused, finding_view, packages_reports, UnusedCheck};
use vstd::prelude::*;

verus! {

/// For each module of `packages`, in order, a `StaticUnusedPrivateFunction`
/// finding when some private function (not an entry, not `init`) is never called
/// from its module; after the modules of a package, a `StaticUnusedFriendFunction`
/// finding when some friend function (not an entry) is never called from it.
pub fn analyze(packages: &Vec<FilePackage>) -> (r: Vec<OracleFinding>)
    requires
        forall|k: int, i: int|
            0 <= k < packages@.len() && 0 <= i < packages@[k].modules@.len() ==> (#[trigger] packages@[k].modules@[i]).constants@.len()
                <= 0x10000,
    ensures
        r@.map_values(|f: OracleFinding| finding_view(f)) == packages_reports(
            UnusedCheck::Functions,
            packages@,
            packages@.len() as int,
        ),
{
    analyze_unused(UnusedCheck::Functions, packages)
}

} // verus!
