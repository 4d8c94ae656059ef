//! The table of static oracles, and the pass that runs one over modules.

use super::bool_judgement::{detect_bool_judgement, has_bool_judgement};
use super::bytecode::{FunctionInfo, ModuleAnalysis};
use super::finding::{OracleFinding, Severity};
use super::infinite_loop::{detect_infinite_loop, has_infinite_loop};
use super::precision_loss::{detect_precision_loss, has_precision_loss};
use vstd::prelude::*;

verus! {

/// The static oracles that run over function bytecode.
#[derive(Clone, Copy, Debug, PartialEq, Eq, Structural)]
pub enum StaticOracle {
    BoolJudgement,
    InfiniteLoop,
    PrecisionLoss,
}

/// Whether oracle `o` flags the function `f`.
pub open spec fn flags(o: StaticOracle, f: FunctionInfo) -> bool {
    match o {
        StaticOracle::BoolJudgement => has_bool_judgement(f),
        StaticOracle::InfiniteLoop => has_infinite_loop(f),
        StaticOracle::PrecisionLoss => has_precision_loss(f),
    }
}

pub open spec fn oracle_name(o: StaticOracle) -> Seq<char> {
    match o {
        StaticOracle::BoolJudgement => "StaticBoolJudgement"@,
        StaticOracle::InfiniteLoop => "StaticInfiniteLoop"@,
        StaticOracle::PrecisionLoss => "StaticPrecisionLoss"@,
    }
}

pub open spec fn oracle_severity(o: StaticOracle) -> Severity {
    match o {
        StaticOracle::BoolJudgement => Severity::Minor,
        StaticOracle::InfiniteLoop => Severity::Major,
        StaticOracle::PrecisionLoss => Severity::Medium,
    }
}

pub open spec fn oracle_message(o: StaticOracle) -> Seq<char> {
    match o {
        StaticOracle::BoolJudgement => "Unnecessary bool judgement (boolean compared with boolean literal)"@,
        StaticOracle::InfiniteLoop => "Potential infinite loop detected from constant branch condition"@,
        StaticOracle::PrecisionLoss => "Potential precision loss from multiplication involving division/sqrt"@,
    }
}

/// Positions, in order, of the first `n` functions of `fs` that are not native and
/// that `o` flags.
pub open spec fn flagged_in(fs: Seq<FunctionInfo>, n: int, o: StaticOracle) -> Seq<int>
    decreases n,
{
    if n <= 0 {
        seq![]
    } else {
        let prev = flagged_in(fs, n - 1, o);
        if !fs[n - 1].is_native && flags(o, fs[n - 1]) {
            prev.push(n - 1)
        } else {
            prev
        }
    }
}

/// (module, function) positions, in order, of the flagged functions of the first
/// `m` modules.
pub open spec fn flagged(ms: Seq<ModuleAnalysis>, m: int, o: StaticOracle) -> Seq<(int, int)>
    decreases m,
{
    if m <= 0 {
        seq![]
    } else {
        flagged(ms, m - 1, o) + flagged_in(
            ms[m - 1].functions@,
            ms[m - 1].functions@.len() as int,
            o,
        ).map_values(|j: int| (m - 1, j))
    }
}

/// `fnd` is the finding of oracle `o` on function `fname` of module `mname`.
pub open spec fn finding_for(fnd: OracleFinding, o: StaticOracle, mname: Seq<char>, fname: Seq<char>) -> bool {
    &&& fnd.oracle@ == oracle_name(o)
    &&& fnd.severity == oracle_severity(o)
    &&& fnd.extra@.len() == 3
    &&& fnd.extra@[0].0@ == "module"@
    &&& fnd.extra@[0].1@ == mname
    &&& fnd.extra@[1].0@ == "function"@
    &&& fnd.extra@[1].1@ == fname
    &&& fnd.extra@[2].0@ == "message"@
    &&& fnd.extra@[2].1@ == oracle_message(o)
}

/// `out` holds, in order, one finding of `o` for each position in `pairs`.
pub open spec fn findings_match(
    ms: Seq<ModuleAnalysis>,
    o: StaticOracle,
    pairs: Seq<(int, int)>,
    out: Seq<OracleFinding>,
) -> bool {
    &&& out.len() == pairs.len()
    &&& forall|k: int|
        0 <= k < out.len() ==> finding_for(
            #[trigger] out[k],
            o,
            ms[pairs[k].0].name@,
            ms[pairs[k].0].functions@[pairs[k].1].name@,
        )
}

/// `out` holds, in order, one finding of `o` for each flagged non-native function
/// of `ms`.
pub open spec fn reports(ms: Seq<ModuleAnalysis>, o: StaticOracle, out: Seq<OracleFinding>) -> bool {
    findings_match(ms, o, flagged(ms, ms.len() as int, o), out)
}

/// Whether oracle `o` flags `f`.
pub fn detect(o: StaticOracle, f: &FunctionInfo) -> (r: bool)
    ensures
        r == flags(o, *f),
{
    match o {
        StaticOracle::BoolJudgement => detect_bool_judgement(f),
        StaticOracle::InfiniteLoop => detect_infinite_loop(f),
        StaticOracle::PrecisionLoss => detect_precision_loss(f),
    }
}

fn make_finding(o: StaticOracle, module: &String, function: &String) -> (r: OracleFinding)
    ensures
        finding_for(r, o, module@, function@),
{
    let (oracle, severity, message) = match o {
        StaticOracle::BoolJudgement => (
            "StaticBoolJudgement",
            Severity::Minor,
            "Unnecessary bool judgement (boolean compared with boolean literal)",
        ),
        StaticOracle::InfiniteLoop => (
            "StaticInfiniteLoop",
            Severity::Major,
            "Potential infinite loop detected from constant branch condition",
        ),
        StaticOracle::PrecisionLoss => (
            "StaticPrecisionLoss",
            Severity::Medium,
            "Potential precision loss from multiplication involving division/sqrt",
        ),
    };
    proof {
        reveal_strlit("StaticBoolJudgement");
        reveal_strlit("StaticInfiniteLoop");
        reveal_strlit("StaticPrecisionLoss");
        reveal_strlit("Unnecessary bool judgement (boolean compared with boolean literal)");
        reveal_strlit("Potential infinite loop detected from constant branch condition");
        reveal_strlit("Potential precision loss from multiplication involving division/sqrt");
    }
    let mut extra: Vec<(String, String)> = Vec::new();
    extra.push(("module".to_owned(), module.clone()));
    extra.push(("function".to_owned(), function.clone()));
    extra.push(("message".to_owned(), message.to_owned()));
    OracleFinding { oracle: oracle.to_owned(), severity, extra }
}

/// One finding of `o`, in order, for each non-native function of `modules` that
/// `o` flags.
pub fn run_oracle(modules: &Vec<ModuleAnalysis>, o: StaticOracle) -> (r: Vec<OracleFinding>)
    ensures
        reports(modules@, o, r@),
{
    let ghost ms = modules@;
    let mut out: Vec<OracleFinding> = Vec::new();
    let mut m: usize = 0;
    while m < modules.len()
        invariant
            m <= ms.len(),
            ms == modules@,
            findings_match(ms, o, flagged(ms, m as int, o), out@),
        decreases ms.len() - m,
    {
        let module = &modules[m];
        let ghost base = flagged(ms, m as int, o);
        let ghost fs = module.functions@;
        let mut i: usize = 0;
        while i < module.functions.len()
            invariant
                i <= fs.len(),
                m < ms.len(),
                ms == modules@,
                *module == ms[m as int],
                fs == module.functions@,
                base == flagged(ms, m as int, o),
                findings_match(
                    ms,
                    o,
                    base + flagged_in(fs, i as int, o).map_values(|j: int| (m as int, j)),
                    out@,
                ),
            decreases fs.len() - i,
        {
            let f = &module.functions[i];
            let ghost before = out@;
            let ghost pairs = base + flagged_in(fs, i as int, o).map_values(|j: int| (m as int, j));
            let ghost next = base + flagged_in(fs, i + 1, o).map_values(|j: int| (m as int, j));
            if !f.is_native && detect(o, f) {
                out.push(make_finding(o, &module.name, &f.name));
                proof {
                    assert(flagged_in(fs, i + 1, o) == flagged_in(fs, i as int, o).push(i as int));
                    assert(next =~= pairs.push((m as int, i as int)));
                    assert forall|k: int| 0 <= k < out@.len() implies finding_for(
                        #[trigger] out@[k],
                        o,
                        ms[next[k].0].name@,
                        ms[next[k].0].functions@[next[k].1].name@,
                    ) by {
                        if k < before.len() {
                            assert(out@[k] == before[k]);
                            assert(next[k] == pairs[k]);
                        }
                    }
                }
            } else {
                proof {
                    assert(flagged_in(fs, i + 1, o) == flagged_in(fs, i as int, o));
                    assert(next =~= pairs);
                }
            }
            i = i + 1;
        }
        proof {
            assert(flagged(ms, m + 1, o) == base + flagged_in(fs, fs.len() as int, o).map_values(
                |j: int| (m as int, j),
            ));
        }
        m = m + 1;
    }
    out
}

} // verus!
