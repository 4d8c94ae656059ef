//! Findings that oracles report, and their severities.

use vstd::prelude::*;

verus! {

/// How serious a finding is, from least to most.
#[derive(Clone, Copy, Debug, PartialEq, Eq, Structural, PartialOrd, Ord, Hash)]
pub enum Severity {
    Discussion,
    Informational,
    Minor,
    Medium,
    Major,
    Critical,
}

/// Position of a severity in the order `Discussion < ... < Critical`.
pub open spec fn severity_rank(s: Severity) -> nat {
    match s {
        Severity::Discussion => 0,
        Severity::Informational => 1,
        Severity::Minor => 2,
        Severity::Medium => 3,
        Severity::Major => 4,
        Severity::Critical => 5,
    }
}

impl Severity {
    /// Position in the order `Discussion < ... < Critical`.
    pub fn rank(&self) -> (r: u8)
        ensures
            r == severity_rank(*self),
    {
        match self {
            Severity::Discussion => 0,
            Severity::Informational => 1,
            Severity::Minor => 2,
            Severity::Medium => 3,
            Severity::Major => 4,
            Severity::Critical => 5,
        }
    }

    /// The severity's name.
    pub fn as_str(&self) -> (r: &'static str)
        ensures
            *self == Severity::Discussion ==> r@ == "Discussion"@,
            *self == Severity::Informational ==> r@ == "Informational"@,
            *self == Severity::Minor ==> r@ == "Minor"@,
            *self == Severity::Medium ==> r@ == "Medium"@,
            *self == Severity::Major ==> r@ == "Major"@,
            *self == Severity::Critical ==> r@ == "Critical"@,
    {
        match self {
            Severity::Discussion => "Discussion",
            Severity::Informational => "Informational",
            Severity::Minor => "Minor",
            Severity::Medium => "Medium",
            Severity::Major => "Major",
            Severity::Critical => "Critical",
        }
    }
}

/// A finding: the oracle that raised it, its severity, and named detail fields.
#[derive(Debug, PartialEq, Eq)]
pub struct OracleFinding {
    pub oracle: String,
    pub severity: Severity,
    pub extra: Vec<(String, String)>,
}

/// An event emitted by a call: its type and its serialized contents.
#[derive(Debug, PartialEq, Eq)]
pub struct Event {
    pub ty: crate::value::MoveStructTag,
    pub contents: Vec<u8>,
}

} // verus!
