//! Findings of the definition-level checks, one pass over a set of packages.

use super::finding::{OracleFinding, Severity};
use super::unused::{
    def_name_of,
    def_name, enum_used, private_candidate, called_in, struct_used, unused_below,
    lemma_unused_below_bounds, const_used, unused_constants, unused_datatypes, unused_friend,
    unused_friend_functions, unused_friends_below, unused_private_functions, FileModule,
    FilePackage,
};
use crate::text::{address_string, address_text, decimal_text, push_decimal};
use vstd::prelude::*;
use vstd::string::StringExecFns;

verus! {

/// A finding as values: oracle name, severity, detail fields.
pub type FindingView = (Seq<char>, Severity, Seq<(Seq<char>, Seq<char>)>);

/// The values of a finding.
pub open spec fn finding_view(f: OracleFinding) -> FindingView {
    (f.oracle@, f.severity, f.extra@.map_values(|p: (String, String)| (p.0@, p.1@)))
}

/// The first `n` of `items`, separated by `, `.
pub open spec fn joined(items: Seq<Seq<char>>, n: int) -> Seq<char>
    decreases n,
{
    if n <= 0 || n > items.len() {
        seq![]
    } else if n == 1 {
        items[0]
    } else {
        joined(items, n - 1) + ", "@ + items[n - 1]
    }
}

/// `items` as a bracketed list: `[a, b]`.
pub open spec fn list_text(items: Seq<Seq<char>>) -> Seq<char> {
    "["@ + joined(items, items.len() as int) + "]"@
}

/// The text of a function: `address::module::name`.
pub open spec fn function_text(m: FileModule, f: int) -> Seq<char> {
    address_text(m.address) + "::"@ + m.name@ + "::"@ + def_name(m, f)
}

/// The finding for module `m` of package `pkg` when some of its constants are unused.
pub open spec fn constant_reports(pkg: FilePackage, m: FileModule) -> Seq<FindingView> {
    let unused = unused_below(|i: int| const_used(m, i), m.constants@.len() as int);
    if unused.len() == 0 {
        seq![]
    } else {
        seq![
            (
                "StaticUnusedConstant"@,
                Severity::Informational,
                seq![
                    ("package"@, address_text(pkg.id)),
                    ("module"@, m.name@),
                    ("unused_constants"@, list_text(unused.map_values(|j: int| m.constants@[j]@))),
                    ("message"@, "Constants are defined but never referenced"@),
                ],
            ),
        ]
    }
}

/// The findings for module `m` of package `pkg` when some of its structs, then some
/// of its enums, are unused.
pub open spec fn datatype_reports(pkg: FilePackage, m: FileModule) -> Seq<FindingView> {
    let structs = unused_below(|i: int| struct_used(m, i), m.struct_defs@.len() as int);
    let enums = unused_below(|i: int| enum_used(m, i), m.enum_count as int);
    (if structs.len() == 0 {
        seq![]
    } else {
        seq![
            (
                "StaticUnusedStruct"@,
                Severity::Informational,
                seq![
                    ("package"@, address_text(pkg.id)),
                    ("module"@, m.name@),
                    ("struct_indices"@, list_text(structs.map_values(|i: int| decimal_text(i as nat)))),
                    ("message"@, "Structs are defined but never used"@),
                ],
            ),
        ]
    }) + (if enums.len() == 0 {
        seq![]
    } else {
        seq![
            (
                "StaticUnusedEnum"@,
                Severity::Informational,
                seq![
                    ("package"@, address_text(pkg.id)),
                    ("module"@, m.name@),
                    ("enum_indices"@, list_text(enums.map_values(|i: int| decimal_text(i as nat)))),
                    ("message"@, "Enums are defined but never used"@),
                ],
            ),
        ]
    })
}

/// The finding for module `m` of package `pkg` when some of its private functions
/// are never called.
pub open spec fn private_reports(pkg: FilePackage, m: FileModule) -> Seq<FindingView> {
    let unused = unused_below(
        |f: int| !(private_candidate(m, f) && !called_in(m, m.address, m.name@, def_name(m, f))),
        m.functions@.len() as int,
    );
    if unused.len() == 0 {
        seq![]
    } else {
        seq![
            (
                "StaticUnusedPrivateFunction"@,
                Severity::Informational,
                seq![
                    ("package"@, address_text(pkg.id)),
                    ("module"@, m.name@),
                    ("functions"@, list_text(unused.map_values(|f: int| function_text(m, f)))),
                    ("message"@, "Private functions are never invoked"@),
                ],
            ),
        ]
    }
}

/// The finding for package `pkg` when some of its friend functions are never
/// called.
pub open spec fn friend_reports(pkg: FilePackage) -> Seq<FindingView> {
    let unused = unused_friends_below(pkg, pkg.modules@.len() as int);
    if unused.len() == 0 {
        seq![]
    } else {
        seq![
            (
                "StaticUnusedFriendFunction"@,
                Severity::Informational,
                seq![
                    ("package"@, address_text(pkg.id)),
                    ("functions"@, list_text(unused.map_values(|p: (int, int)| function_text(pkg.modules@[p.0], p.1)))),
                    ("message"@, "Friend functions are never invoked"@),
                ],
            ),
        ]
    }
}

/// Which definition-level check to run.
#[derive(Clone, Copy, Debug, PartialEq, Eq, Structural)]
pub enum UnusedCheck {
    Constants,
    Datatypes,
    Functions,
}

/// The findings of check `c` on module `m` of package `pkg`.
pub open spec fn module_reports(c: UnusedCheck, pkg: FilePackage, m: FileModule) -> Seq<FindingView> {
    match c {
        UnusedCheck::Constants => constant_reports(pkg, m),
        UnusedCheck::Datatypes => datatype_reports(pkg, m),
        UnusedCheck::Functions => private_reports(pkg, m),
    }
}

/// The findings of check `c` on the first `i` modules of `pkg`.
pub open spec fn modules_reports(c: UnusedCheck, pkg: FilePackage, i: int) -> Seq<FindingView>
    decreases i,
{
    if i <= 0 {
        seq![]
    } else {
        modules_reports(c, pkg, i - 1) + module_reports(c, pkg, pkg.modules@[i - 1])
    }
}

/// The findings of check `c` on package `pkg`: those of its modules, then, for the
/// function check, the package's unused friend functions.
pub open spec fn package_reports(c: UnusedCheck, pkg: FilePackage) -> Seq<FindingView> {
    modules_reports(c, pkg, pkg.modules@.len() as int) + if c == UnusedCheck::Functions {
        friend_reports(pkg)
    } else {
        seq![]
    }
}

/// The findings of check `c` on the first `k` packages.
pub open spec fn packages_reports(c: UnusedCheck, ps: Seq<FilePackage>, k: int) -> Seq<FindingView>
    decreases k,
{
    if k <= 0 {
        seq![]
    } else {
        packages_reports(c, ps, k - 1) + package_reports(c, ps[k - 1])
    }
}

/// `items` as a bracketed list.
fn list_string(items: &Vec<String>) -> (r: String)
    ensures
        r@ == list_text(items@.map_values(|s: String| s@)),
{
    proof {
        reveal_strlit("[");
        reveal_strlit("]");
        reveal_strlit(", ");
    }
    let ghost texts = items@.map_values(|s: String| s@);
    let mut out = String::new();
    out.append("[");
    let mut i: usize = 0;
    while i < items.len()
        invariant
            i <= items@.len(),
            texts == items@.map_values(|s: String| s@),
            out@ == "["@ + joined(texts, i as int),
        decreases items@.len() - i,
    {
        let ghost before = out@;
        if i > 0 {
            out.append(", ");
        }
        out.append(items[i].as_str());
        proof {
            assert(texts[i as int] == items@[i as int]@);
            assert(out@ =~= "["@ + joined(texts, i + 1));
        }
        i = i + 1;
    }
    out.append("]");
    out
}

fn field(key: &str, value: String) -> (r: (String, String))
    ensures
        r.0@ == key@,
        r.1@ == value@,
{
    (key.to_owned(), value)
}

fn to_text_list(items: Vec<String>) -> (r: Vec<String>)
    ensures
        r@ == items@,
{
    items
}

/// Appends the finding on the unused constants of module `m` of package `pkg`.
fn push_constant_reports(pkg: &FilePackage, m: &FileModule, out: &mut Vec<OracleFinding>)
    requires
        m.constants@.len() <= 0x10000,
    ensures
        final(out)@.map_values(|f: OracleFinding| finding_view(f)) == old(out)@.map_values(
            |f: OracleFinding| finding_view(f),
        ) + constant_reports(*pkg, *m),
{
    proof {
        reveal_strlit("StaticUnusedConstant");
        reveal_strlit("StaticUnusedStruct");
        reveal_strlit("StaticUnusedEnum");
        reveal_strlit("StaticUnusedPrivateFunction");
        reveal_strlit("package");
        reveal_strlit("module");
        reveal_strlit("message");
        reveal_strlit("unused_constants");
        reveal_strlit("struct_indices");
        reveal_strlit("enum_indices");
        reveal_strlit("functions");
        reveal_strlit("Constants are defined but never referenced");
        reveal_strlit("Structs are defined but never used");
        reveal_strlit("Enums are defined but never used");
        reveal_strlit("Private functions are never invoked");
        reveal_strlit("::");
    }
    let ghost start = out@.map_values(|f: OracleFinding| finding_view(f));
    {
        {
            let unused = unused_constants(m);
            let ghost u = unused_below(|i: int| const_used(*m, i), m.constants@.len() as int);
            proof {
                lemma_unused_below_bounds(|i: int| const_used(*m, i), m.constants@.len() as int);
                assert forall|k: int| 0 <= k < unused@.len() implies (#[trigger] unused@[k]) < m.constants@.len() by {
                    assert(unused@.map_values(|x: usize| x as int)[k] == unused@[k] as int);
                }
            }
            if unused.len() == 0 {
                assert(u.len() == 0) by {
                    assert(unused@.map_values(|x: usize| x as int).len() == 0);
                }
                assert(constant_reports(*pkg, *m) =~= seq![]);
                assert(out@.map_values(|f: OracleFinding| finding_view(f)) =~= start + constant_reports(*pkg, *m));
                return;
            }
            let mut texts: Vec<String> = Vec::new();
            let mut i: usize = 0;
            while i < unused.len()
                invariant
                    i <= unused@.len(),
                    unused@.map_values(|x: usize| x as int) == u,
                    forall|k: int| 0 <= k < unused@.len() ==> (#[trigger] unused@[k]) < m.constants@.len(),
                    texts@.map_values(|s: String| s@) == u.take(i as int).map_values(|j: int| m.constants@[j]@),
                decreases unused@.len() - i,
            {
                proof {
                    assert(u[i as int] == unused@[i as int] as int);
                }
                let ghost prev = texts@;
                let t = m.constants[unused[i]].clone();
                texts.push(t);
                proof {
                    assert(u.take(i + 1) =~= u.take(i as int).push(u[i as int]));
                    assert(texts@ == prev.push(t));
                    assert(texts@.map_values(|s: String| s@) =~= prev.map_values(|s: String| s@).push(t@));
                    assert(texts@.map_values(|s: String| s@) =~= u.take(i + 1).map_values(|j: int| m.constants@[j]@));
                }
                i = i + 1;
            }
            assert(u.take(i as int) =~= u);
            let mut extra: Vec<(String, String)> = Vec::new();
            extra.push(field("package", address_string(&pkg.id)));
            extra.push(field("module", m.name.clone()));
            extra.push(field("unused_constants", list_string(&texts)));
            extra.push(field("message", "Constants are defined but never referenced".to_owned()));
            let f = OracleFinding { oracle: "StaticUnusedConstant".to_owned(), severity: Severity::Informational, extra };
            let ghost before = out@;
            out.push(f);
            proof {
                assert(finding_view(f).2 =~= constant_reports(*pkg, *m)[0].2);
                assert(out@.map_values(|f: OracleFinding| finding_view(f)) =~= start + constant_reports(*pkg, *m));
            }
        }
    }
}

/// The decimal texts of `items`.
fn index_texts(items: &Vec<usize>) -> (r: Vec<String>)
    ensures
        r@.map_values(|s: String| s@) == items@.map_values(|x: usize| x as int).map_values(
            |i: int| decimal_text(i as nat),
        ),
{
    let mut out: Vec<String> = Vec::new();
    let mut i: usize = 0;
    while i < items.len()
        invariant
            i <= items@.len(),
            out@.map_values(|s: String| s@) == items@.take(i as int).map_values(|x: usize| x as int).map_values(
                |j: int| decimal_text(j as nat),
            ),
        decreases items@.len() - i,
    {
        let ghost prev = out@;
        let mut t = String::new();
        push_decimal(&mut t, items[i] as u64);
        out.push(t);
        proof {
            assert(items@.take(i + 1) =~= items@.take(i as int).push(items@[i as int]));
            assert(out@.map_values(|s: String| s@) =~= prev.map_values(|s: String| s@).push(t@));
            assert(out@.map_values(|s: String| s@) =~= items@.take(i + 1).map_values(|x: usize| x as int).map_values(
                |j: int| decimal_text(j as nat),
            ));
        }
        i = i + 1;
    }
    assert(items@.take(i as int) =~= items@);
    out
}

/// Appends the findings on the unused structs, then enums, of module `m`.
fn push_datatype_reports(pkg: &FilePackage, m: &FileModule, out: &mut Vec<OracleFinding>)
    ensures
        final(out)@.map_values(|f: OracleFinding| finding_view(f)) == old(out)@.map_values(
            |f: OracleFinding| finding_view(f),
        ) + datatype_reports(*pkg, *m),
{
    proof {
        reveal_strlit("StaticUnusedStruct");
        reveal_strlit("StaticUnusedEnum");
        reveal_strlit("package");
        reveal_strlit("module");
        reveal_strlit("message");
        reveal_strlit("struct_indices");
        reveal_strlit("enum_indices");
        reveal_strlit("Structs are defined but never used");
        reveal_strlit("Enums are defined but never used");
    }
    let ghost start = out@.map_values(|f: OracleFinding| finding_view(f));
    let (structs, enums) = unused_datatypes(m);
    let ghost us = unused_below(|i: int| struct_used(*m, i), m.struct_defs@.len() as int);
    let ghost ue = unused_below(|i: int| enum_used(*m, i), m.enum_count as int);
    let ghost first: Seq<FindingView> = if us.len() == 0 {
        seq![]
    } else {
        seq![
            (
                "StaticUnusedStruct"@,
                Severity::Informational,
                seq![
                    ("package"@, address_text(pkg.id)),
                    ("module"@, m.name@),
                    ("struct_indices"@, list_text(us.map_values(|i: int| decimal_text(i as nat)))),
                    ("message"@, "Structs are defined but never used"@),
                ],
            ),
        ]
    };
    if structs.len() > 0 {
        let texts = index_texts(&structs);
        let mut extra: Vec<(String, String)> = Vec::new();
        extra.push(field("package", address_string(&pkg.id)));
        extra.push(field("module", m.name.clone()));
        extra.push(field("struct_indices", list_string(&texts)));
        extra.push(field("message", "Structs are defined but never used".to_owned()));
        let f = OracleFinding { oracle: "StaticUnusedStruct".to_owned(), severity: Severity::Informational, extra };
        let ghost before = out@;
        out.push(f);
        proof {
            assert(structs@.map_values(|x: usize| x as int).len() > 0);
            assert(finding_view(f).2 =~= first[0].2);
            assert(out@.map_values(|f: OracleFinding| finding_view(f)) =~= start + first);
        }
    } else {
        proof {
            assert(structs@.map_values(|x: usize| x as int).len() == 0);
            assert(out@.map_values(|f: OracleFinding| finding_view(f)) =~= start + first);
        }
    }
    let ghost mid = out@.map_values(|f: OracleFinding| finding_view(f));
    let ghost second: Seq<FindingView> = if ue.len() == 0 {
        seq![]
    } else {
        seq![
            (
                "StaticUnusedEnum"@,
                Severity::Informational,
                seq![
                    ("package"@, address_text(pkg.id)),
                    ("module"@, m.name@),
                    ("enum_indices"@, list_text(ue.map_values(|i: int| decimal_text(i as nat)))),
                    ("message"@, "Enums are defined but never used"@),
                ],
            ),
        ]
    };
    if enums.len() > 0 {
        let texts = index_texts(&enums);
        let mut extra: Vec<(String, String)> = Vec::new();
        extra.push(field("package", address_string(&pkg.id)));
        extra.push(field("module", m.name.clone()));
        extra.push(field("enum_indices", list_string(&texts)));
        extra.push(field("message", "Enums are defined but never used".to_owned()));
        let f = OracleFinding { oracle: "StaticUnusedEnum".to_owned(), severity: Severity::Informational, extra };
        out.push(f);
        proof {
            assert(enums@.map_values(|x: usize| x as int).len() > 0);
            assert(finding_view(f).2 =~= second[0].2);
            assert(out@.map_values(|f: OracleFinding| finding_view(f)) =~= mid + second);
        }
    } else {
        proof {
            assert(enums@.map_values(|x: usize| x as int).len() == 0);
            assert(out@.map_values(|f: OracleFinding| finding_view(f)) =~= mid + second);
        }
    }
    proof {
        assert(datatype_reports(*pkg, *m) == first + second);
        assert(out@.map_values(|f: OracleFinding| finding_view(f)) =~= start + datatype_reports(*pkg, *m));
    }
}

/// `address::module::name` of definition `f` of `m`.
fn function_string(m: &FileModule, f: usize) -> (r: String)
    requires
        f < m.functions@.len(),
    ensures
        r@ == function_text(*m, f as int),
{
    proof {
        reveal_strlit("::");
    }
    let mut out = address_string(&m.address);
    out.append("::");
    out.append(m.name.as_str());
    out.append("::");
    match def_name_of(m, f) {
        Some(name) => out.append(name.as_str()),
        None => {},
    }
    assert(out@ =~= function_text(*m, f as int));
    out
}

/// Appends the finding on the private functions of module `m` that nothing calls.
fn push_private_reports(pkg: &FilePackage, m: &FileModule, out: &mut Vec<OracleFinding>)
    ensures
        final(out)@.map_values(|f: OracleFinding| finding_view(f)) == old(out)@.map_values(
            |f: OracleFinding| finding_view(f),
        ) + private_reports(*pkg, *m),
{
    proof {
        reveal_strlit("StaticUnusedPrivateFunction");
        reveal_strlit("package");
        reveal_strlit("module");
        reveal_strlit("message");
        reveal_strlit("functions");
        reveal_strlit("Private functions are never invoked");
    }
    let ghost start = out@.map_values(|f: OracleFinding| finding_view(f));
    let unused = unused_private_functions(m);
    let ghost used = |f: int| !(private_candidate(*m, f) && !called_in(*m, m.address, m.name@, def_name(*m, f)));
    let ghost u = unused_below(used, m.functions@.len() as int);
    if unused.len() == 0 {
        proof {
            assert(unused@.map_values(|x: usize| x as int).len() == 0);
            assert(private_reports(*pkg, *m) =~= seq![]);
            assert(out@.map_values(|f: OracleFinding| finding_view(f)) =~= start + private_reports(*pkg, *m));
        }
        return;
    }
    proof {
        lemma_unused_below_bounds(used, m.functions@.len() as int);
    }
    let mut texts: Vec<String> = Vec::new();
    let mut i: usize = 0;
    while i < unused.len()
        invariant
            i <= unused@.len(),
            unused@.map_values(|x: usize| x as int) == u,
            u == unused_below(used, m.functions@.len() as int),
            forall|k: int| 0 <= k < u.len() ==> 0 <= #[trigger] u[k] < m.functions@.len(),
            texts@.map_values(|s: String| s@) == u.take(i as int).map_values(|f: int| function_text(*m, f)),
        decreases unused@.len() - i,
    {
        proof {
            assert(u[i as int] == unused@[i as int] as int);
        }
        let ghost prev = texts@;
        let t = function_string(m, unused[i]);
        texts.push(t);
        proof {
            assert(u.take(i + 1) =~= u.take(i as int).push(u[i as int]));
            assert(texts@.map_values(|s: String| s@) =~= prev.map_values(|s: String| s@).push(t@));
            assert(texts@.map_values(|s: String| s@) =~= u.take(i + 1).map_values(|f: int| function_text(*m, f)));
        }
        i = i + 1;
    }
    assert(u.take(i as int) =~= u);
    let mut extra: Vec<(String, String)> = Vec::new();
    extra.push(field("package", address_string(&pkg.id)));
    extra.push(field("module", m.name.clone()));
    extra.push(field("functions", list_string(&texts)));
    extra.push(field("message", "Private functions are never invoked".to_owned()));
    let f = OracleFinding { oracle: "StaticUnusedPrivateFunction".to_owned(), severity: Severity::Informational, extra };
    out.push(f);
    proof {
        assert(finding_view(f).2 =~= private_reports(*pkg, *m)[0].2);
        assert(out@.map_values(|f: OracleFinding| finding_view(f)) =~= start + private_reports(*pkg, *m));
    }
}

/// Appends the finding on the friend functions of `pkg` that nothing calls.
fn push_friend_reports(pkg: &FilePackage, out: &mut Vec<OracleFinding>)
    ensures
        final(out)@.map_values(|f: OracleFinding| finding_view(f)) == old(out)@.map_values(
            |f: OracleFinding| finding_view(f),
        ) + friend_reports(*pkg),
{
    proof {
        reveal_strlit("StaticUnusedFriendFunction");
        reveal_strlit("package");
        reveal_strlit("message");
        reveal_strlit("functions");
        reveal_strlit("Friend functions are never invoked");
    }
    let ghost start = out@.map_values(|f: OracleFinding| finding_view(f));
    let unused = unused_friend_functions(pkg);
    let ghost conv = |p: (usize, usize)| (p.0 as int, p.1 as int);
    let ghost u = unused_friends_below(*pkg, pkg.modules@.len() as int);
    if unused.len() == 0 {
        proof {
            assert(unused@.map_values(conv).len() == 0);
            assert(friend_reports(*pkg) =~= seq![]);
            assert(out@.map_values(|f: OracleFinding| finding_view(f)) =~= start + friend_reports(*pkg));
        }
        return;
    }
    proof {
        lemma_friends_bounds(*pkg, pkg.modules@.len() as int);
    }
    let mut texts: Vec<String> = Vec::new();
    let mut i: usize = 0;
    while i < unused.len()
        invariant
            i <= unused@.len(),
            unused@.map_values(conv) == u,
            conv == (|p: (usize, usize)| (p.0 as int, p.1 as int)),
            u == unused_friends_below(*pkg, pkg.modules@.len() as int),
            forall|k: int| 0 <= k < u.len() ==> 0 <= (#[trigger] u[k]).0 < pkg.modules@.len()
                && 0 <= u[k].1 < pkg.modules@[u[k].0].functions@.len(),
            texts@.map_values(|s: String| s@) == u.take(i as int).map_values(
                |p: (int, int)| function_text(pkg.modules@[p.0], p.1),
            ),
        decreases unused@.len() - i,
    {
        proof {
            assert(u[i as int] == conv(unused@[i as int]));
        }
        let ghost prev = texts@;
        let (mi, fi) = unused[i];
        let t = function_string(&pkg.modules[mi], fi);
        texts.push(t);
        proof {
            assert(u.take(i + 1) =~= u.take(i as int).push(u[i as int]));
            assert(texts@.map_values(|s: String| s@) =~= prev.map_values(|s: String| s@).push(t@));
            assert(texts@.map_values(|s: String| s@) =~= u.take(i + 1).map_values(
                |p: (int, int)| function_text(pkg.modules@[p.0], p.1),
            ));
        }
        i = i + 1;
    }
    assert(u.take(i as int) =~= u);
    let mut extra: Vec<(String, String)> = Vec::new();
    extra.push(field("package", address_string(&pkg.id)));
    extra.push(field("functions", list_string(&texts)));
    extra.push(field("message", "Friend functions are never invoked".to_owned()));
    let f = OracleFinding { oracle: "StaticUnusedFriendFunction".to_owned(), severity: Severity::Informational, extra };
    out.push(f);
    proof {
        assert(finding_view(f).2 =~= friend_reports(*pkg)[0].2);
        assert(out@.map_values(|f: OracleFinding| finding_view(f)) =~= start + friend_reports(*pkg));
    }
}

proof fn lemma_friends_bounds(pkg: FilePackage, i: int)
    requires
        i <= pkg.modules@.len(),
    ensures
        forall|k: int| 0 <= k < unused_friends_below(pkg, i).len() ==> 0 <= (#[trigger] unused_friends_below(pkg, i)[k]).0 < i
            && 0 <= unused_friends_below(pkg, i)[k].1 < pkg.modules@[unused_friends_below(pkg, i)[k].0].functions@.len(),
    decreases i,
{
    if i > 0 {
        lemma_friends_bounds(pkg, i - 1);
        let used = |f: int| !unused_friend(pkg, i - 1, f);
        let n = pkg.modules@[i - 1].functions@.len() as int;
        lemma_unused_below_bounds(used, n);
        let prev = unused_friends_below(pkg, i - 1);
        let add = unused_below(used, n).map_values(|f: int| (i - 1, f));
        assert(unused_friends_below(pkg, i) == prev + add);
        assert forall|k: int| 0 <= k < unused_friends_below(pkg, i).len() implies 0 <= (#[trigger] unused_friends_below(pkg, i)[k]).0 < i
            && 0 <= unused_friends_below(pkg, i)[k].1 < pkg.modules@[unused_friends_below(pkg, i)[k].0].functions@.len() by {
            if k < prev.len() {
                assert(unused_friends_below(pkg, i)[k] == prev[k]);
            } else {
                assert(unused_friends_below(pkg, i)[k] == add[k - prev.len()]);
            }
        }
    }
}

/// Appends the findings of check `c` on package `pkg`.
fn push_package_reports(c: UnusedCheck, pkg: &FilePackage, out: &mut Vec<OracleFinding>)
    requires
        forall|i: int| 0 <= i < pkg.modules@.len() ==> (#[trigger] pkg.modules@[i]).constants@.len() <= 0x10000,
    ensures
        final(out)@.map_values(|f: OracleFinding| finding_view(f)) == old(out)@.map_values(
            |f: OracleFinding| finding_view(f),
        ) + package_reports(c, *pkg),
{
    let ghost start = out@.map_values(|f: OracleFinding| finding_view(f));
    let mut i: usize = 0;
    while i < pkg.modules.len()
        invariant
            i <= pkg.modules@.len(),
            forall|j: int| 0 <= j < pkg.modules@.len() ==> (#[trigger] pkg.modules@[j]).constants@.len() <= 0x10000,
            out@.map_values(|f: OracleFinding| finding_view(f)) == start + modules_reports(c, *pkg, i as int),
        decreases pkg.modules@.len() - i,
    {
        let m = &pkg.modules[i];
        let ghost before = out@.map_values(|f: OracleFinding| finding_view(f));
        match c {
            UnusedCheck::Constants => push_constant_reports(pkg, m, out),
            UnusedCheck::Datatypes => push_datatype_reports(pkg, m, out),
            UnusedCheck::Functions => push_private_reports(pkg, m, out),
        }
        proof {
            assert(modules_reports(c, *pkg, i + 1) == modules_reports(c, *pkg, i as int) + module_reports(c, *pkg, *m));
            assert(out@.map_values(|f: OracleFinding| finding_view(f)) =~= start + modules_reports(c, *pkg, i + 1));
        }
        i = i + 1;
    }
    let ghost mid = out@.map_values(|f: OracleFinding| finding_view(f));
    if c == UnusedCheck::Functions {
        push_friend_reports(pkg, out);
    }
    proof {
        assert(out@.map_values(|f: OracleFinding| finding_view(f)) =~= start + package_reports(c, *pkg));
    }
}

/// The findings of check `c` on `packages`, package by package: per module, in
/// order, its unused constants, or its unused structs then enums, or its private
/// functions that nothing calls; for the function check, then the package's friend
/// functions that nothing calls.
pub fn analyze_unused(c: UnusedCheck, packages: &Vec<FilePackage>) -> (r: Vec<OracleFinding>)
    requires
        forall|k: int, i: int|
            0 <= k < packages@.len() && 0 <= i < packages@[k].modules@.len() ==> (#[trigger] packages@[k].modules@[i]).constants@.len()
                <= 0x10000,
    ensures
        r@.map_values(|f: OracleFinding| finding_view(f)) == packages_reports(c, packages@, packages@.len() as int),
{
    let mut out: Vec<OracleFinding> = Vec::new();
    let mut k: usize = 0;
    proof {
        assert(out@.map_values(|f: OracleFinding| finding_view(f)) =~= packages_reports(c, packages@, 0));
    }
    while k < packages.len()
        invariant
            k <= packages@.len(),
            forall|kk: int, i: int|
                0 <= kk < packages@.len() && 0 <= i < packages@[kk].modules@.len() ==> (#[trigger] packages@[kk].modules@[i]).constants@.len()
                    <= 0x10000,
            out@.map_values(|f: OracleFinding| finding_view(f)) == packages_reports(c, packages@, k as int),
        decreases packages@.len() - k,
    {
        let pkg = &packages[k];
        proof {
            assert forall|i: int| 0 <= i < pkg.modules@.len() implies (#[trigger] pkg.modules@[i]).constants@.len() <= 0x10000 by {
                assert(packages@[k as int].modules@[i].constants@.len() <= 0x10000);
            }
        }
        push_package_reports(c, pkg, &mut out);
        k = k + 1;
    }
    out
}

} // verus!
