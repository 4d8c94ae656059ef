//! The read-only index that the fuzzer consults: package signatures, which package
//! a module address resolves to, and which objects exist of each type.

use crate::abi::FunctionAbi;
use crate::value::{
    clone_tag, lemma_tag_eq_symmetric, lemma_tag_eq_transitive, tag_eq, tags_equal, MoveAddress,
    MoveStructTag, MoveTypeTag,
};
use vstd::prelude::*;

verus! {

/// A struct declared by a module, with its abilities as a bit set
/// (copy 1, drop 2, store 4, key 8) and its number of type parameters.
pub struct MoveStructAbi {
    pub struct_name: String,
    pub abilities: u8,
    pub type_parameters: u16,
}

/// The signatures that a module declares.
pub struct MoveModuleAbi {
    pub module_address: MoveAddress,
    pub module_name: String,
    pub functions: Vec<FunctionAbi>,
    pub structs: Vec<MoveStructAbi>,
}

/// A package at its on-chain version, with its modules.
pub struct MovePackageAbi {
    pub package_id: MoveAddress,
    pub version: u64,
    pub modules: Vec<MoveModuleAbi>,
}

/// Whether package `p` has a module at address `m`.
pub open spec fn has_module(p: MovePackageAbi, m: MoveAddress) -> bool {
    exists|i: int| 0 <= i < p.modules@.len() && (#[trigger] p.modules@[i]).module_address == m
}

/// Whether the keys of `entries` are pairwise distinct.
pub open spec fn keys_unique<V>(entries: Seq<(MoveAddress, V)>) -> bool {
    forall|i: int, j: int|
        0 <= i < entries.len() && 0 <= j < entries.len() && i != j ==> #[trigger] entries[i].0
            != #[trigger] entries[j].0
}

/// `pkgs[k]` is a package with a module at `m` whose version no other such package
/// exceeds, and the first such package on a tie.
pub open spec fn newest_with_module(pkgs: Seq<MovePackageAbi>, m: MoveAddress, k: int) -> bool {
    &&& 0 <= k < pkgs.len()
    &&& has_module(pkgs[k], m)
    &&& forall|j: int|
        0 <= j < pkgs.len() && has_module(#[trigger] pkgs[j], m) ==> pkgs[j].version
            <= pkgs[k].version && (pkgs[j].version == pkgs[k].version ==> k <= j)
}

/// Whether some entry of `entries` has key `m`.
pub open spec fn has_key<V>(entries: Seq<(MoveAddress, V)>, m: MoveAddress) -> bool {
    exists|e: int| 0 <= e < entries.len() && (#[trigger] entries[e]).0 == m
}

/// `id` is the id of a newest package of `pkgs` with a module at `m`.
pub open spec fn is_newest_package(pkgs: Seq<MovePackageAbi>, m: MoveAddress, id: MoveAddress) -> bool {
    exists|k: int| newest_with_module(pkgs, m, k) && pkgs[k].package_id == id
}

/// `map` sends each module address that occurs in `pkgs` (and no other) to the id of
/// a newest package that has a module there.
pub open spec fn module_map_of(pkgs: Seq<MovePackageAbi>, map: Seq<(MoveAddress, MoveAddress)>) -> bool {
    &&& keys_unique(map)
    &&& forall|e: int|
        0 <= e < map.len() ==> is_newest_package(pkgs, (#[trigger] map[e]).0, map[e].1)
    &&& forall|k: int, i: int|
        0 <= k < pkgs.len() && 0 <= i < pkgs[k].modules@.len() ==> has_key(
            map,
            (#[trigger] pkgs[k].modules@[i]).module_address,
        )
}

/// Position of key `m` in `entries`.
fn find_key<V>(entries: &Vec<(MoveAddress, V)>, m: MoveAddress) -> (r: Option<usize>)
    ensures
        r is Some ==> r->Some_0 < entries@.len() && entries@[r->Some_0 as int].0 == m,
        r is None ==> forall|e: int| 0 <= e < entries@.len() ==> (#[trigger] entries@[e]).0 != m,
{
    let mut i: usize = 0;
    while i < entries.len()
        invariant
            i <= entries@.len(),
            forall|e: int| 0 <= e < i ==> (#[trigger] entries@[e]).0 != m,
        decreases entries@.len() - i,
    {
        if entries[i].0 == m {
            return Some(i);
        }
        i = i + 1;
    }
    None
}

/// Whether the module at position `i'` < `i` of package `k`, or some module of a
/// package before `k`, is at address `m` in package `j`.
spec fn seen(pkgs: Seq<MovePackageAbi>, k: int, i: int, j: int, m: MoveAddress) -> bool {
    ||| (0 <= j < k && has_module(pkgs[j], m))
    ||| (j == k && exists|ii: int| 0 <= ii < i && (#[trigger] pkgs[k].modules@[ii]).module_address == m)
}

spec fn index_inv(pkgs: Seq<MovePackageAbi>, k: int, i: int, map: Seq<(MoveAddress, usize)>) -> bool {
    &&& keys_unique(map)
    &&& forall|e: int|
        0 <= e < map.len() ==> {
            let p = (#[trigger] map[e]).1 as int;
            &&& 0 <= p < pkgs.len()
            &&& seen(pkgs, k, i, p, map[e].0)
            &&& has_module(pkgs[p], map[e].0)
            &&& forall|j: int| #[trigger] seen(pkgs, k, i, j, map[e].0) ==> pkgs[j].version <= pkgs[p].version && (pkgs[j].version == pkgs[p].version ==> p <= j)
        }
    &&& forall|j: int, m: MoveAddress| #[trigger] seen(pkgs, k, i, j, m) ==> exists|e: int|
        0 <= e < map.len() && (#[trigger] map[e]).0 == m
}

proof fn lemma_seen_step(pkgs: Seq<MovePackageAbi>, k: int, i: int, j: int, mm: MoveAddress)
    requires
        0 <= k < pkgs.len(),
        0 <= i < pkgs[k].modules@.len(),
    ensures
        seen(pkgs, k, i + 1, j, mm) <==> (seen(pkgs, k, i, j, mm) || (j == k && mm
            == pkgs[k].modules@[i].module_address)),
{
    if j == k && exists|ii: int| 0 <= ii < i + 1 && (#[trigger] pkgs[k].modules@[ii]).module_address == mm {
        let ii = choose|ii: int| 0 <= ii < i + 1 && (#[trigger] pkgs[k].modules@[ii]).module_address == mm;
        if ii < i {
            assert(seen(pkgs, k, i, j, mm));
        }
    }
    if j == k && mm == pkgs[k].modules@[i].module_address {
        assert(0 <= i < i + 1 && pkgs[k].modules@[i].module_address == mm);
    }
}

proof fn lemma_seen_next_package(pkgs: Seq<MovePackageAbi>, k: int, j: int, mm: MoveAddress)
    requires
        0 <= k < pkgs.len(),
    ensures
        seen(pkgs, k + 1, 0, j, mm) <==> seen(pkgs, k, pkgs[k].modules@.len() as int, j, mm),
{
    if j == k && has_module(pkgs[j], mm) {
        let ii = choose|ii: int| 0 <= ii < pkgs[j].modules@.len() && (#[trigger] pkgs[j].modules@[ii]).module_address == mm;
        assert(0 <= ii < pkgs[k].modules@.len() && pkgs[k].modules@[ii].module_address == mm);
    }
    if j == k && exists|ii: int| 0 <= ii < pkgs[k].modules@.len() && (#[trigger] pkgs[k].modules@[ii]).module_address == mm {
        let ii = choose|ii: int| 0 <= ii < pkgs[k].modules@.len() && (#[trigger] pkgs[k].modules@[ii]).module_address == mm;
        assert(has_module(pkgs[j], mm));
    }
}

proof fn lemma_index_inv_next_package(pkgs: Seq<MovePackageAbi>, k: int, map: Seq<(MoveAddress, usize)>)
    requires
        0 <= k < pkgs.len(),
        index_inv(pkgs, k, pkgs[k].modules@.len() as int, map),
    ensures
        index_inv(pkgs, k + 1, 0, map),
{
    let n = pkgs[k].modules@.len() as int;
    assert forall|e: int| 0 <= e < map.len() implies {
        let p = (#[trigger] map[e]).1 as int;
        &&& 0 <= p < pkgs.len()
        &&& seen(pkgs, k + 1, 0, p, map[e].0)
        &&& has_module(pkgs[p], map[e].0)
        &&& forall|j: int| #[trigger] seen(pkgs, k + 1, 0, j, map[e].0) ==> pkgs[j].version <= pkgs[p].version && (pkgs[j].version == pkgs[p].version ==> p <= j)
    } by {
        let p = map[e].1 as int;
        lemma_seen_next_package(pkgs, k, p, map[e].0);
        assert forall|j: int| #[trigger] seen(pkgs, k + 1, 0, j, map[e].0) implies pkgs[j].version <= pkgs[p].version && (pkgs[j].version == pkgs[p].version ==> p <= j) by {
            lemma_seen_next_package(pkgs, k, j, map[e].0);
        }
    }
    assert forall|j: int, m: MoveAddress| #[trigger] seen(pkgs, k + 1, 0, j, m) implies exists|e: int|
        0 <= e < map.len() && (#[trigger] map[e]).0 == m by {
        lemma_seen_next_package(pkgs, k, j, m);
    }
}

/// For each module address that occurs in `packages`, the id of the package of
/// highest version that has a module there (the first in `packages` on a tie).
pub fn resolve_module_packages(packages: &Vec<MovePackageAbi>) -> (r: Vec<(MoveAddress, MoveAddress)>)
    ensures
        module_map_of(packages@, r@),
{
    let ghost pkgs = packages@;
    let mut map: Vec<(MoveAddress, usize)> = Vec::new();
    let mut k: usize = 0;
    while k < packages.len()
        invariant
            k <= pkgs.len(),
            pkgs == packages@,
            index_inv(pkgs, k as int, 0, map@),
        decreases pkgs.len() - k,
    {
        let pkg = &packages[k];
        let mut i: usize = 0;
        while i < pkg.modules.len()
            invariant
                k < pkgs.len(),
                i <= pkg.modules@.len(),
                pkgs == packages@,
                *pkg == pkgs[k as int],
                index_inv(pkgs, k as int, i as int, map@),
            decreases pkg.modules@.len() - i,
        {
            let m = pkg.modules[i].module_address;
            let ghost before = map@;
            let ghost ki = k as int;
            let ghost ii = i as int;
            proof {
                assert(has_module(pkgs[ki], m)) by {
                    assert(pkgs[ki].modules@[ii].module_address == m);
                }
            }
            match find_key(&map, m) {
                Some(e) => {
                    let p = map[e].1;
                    let newer = packages[p].version < pkg.version;
                    if newer {
                        map.set(e, (m, k));
                    }
                    proof {
                        let after = map@;
                        let q = before[e as int].1 as int;
                        assert(seen(pkgs, ki, ii, q, m));
                        assert forall|e2: int| 0 <= e2 < after.len() implies {
                            let pkg_at = (#[trigger] after[e2]).1 as int;
                            &&& 0 <= pkg_at < pkgs.len()
                            &&& seen(pkgs, ki, ii + 1, pkg_at, after[e2].0)
                            &&& has_module(pkgs[pkg_at], after[e2].0)
                            &&& forall|j: int| #[trigger] seen(pkgs, ki, ii + 1, j, after[e2].0) ==> pkgs[j].version <= pkgs[pkg_at].version && (pkgs[j].version == pkgs[pkg_at].version ==> pkg_at <= j)
                        } by {
                            let key = after[e2].0;
                            let pkg_at = after[e2].1 as int;
                            if e2 == e {
                                lemma_seen_step(pkgs, ki, ii, pkg_at, key);
                                assert forall|j: int| #[trigger] seen(pkgs, ki, ii + 1, j, key) implies pkgs[j].version <= pkgs[pkg_at].version && (pkgs[j].version == pkgs[pkg_at].version ==> pkg_at <= j) by {
                                    lemma_seen_step(pkgs, ki, ii, j, key);
                                    if seen(pkgs, ki, ii, j, key) {
                                        assert(pkgs[j].version <= pkgs[q].version && (pkgs[j].version == pkgs[q].version ==> q <= j));
                                    }
                                }
                            } else {
                                assert(after[e2] == before[e2]);
                                assert(before[e2].0 != before[e as int].0);
                                lemma_seen_step(pkgs, ki, ii, pkg_at, key);
                                assert forall|j: int| #[trigger] seen(pkgs, ki, ii + 1, j, key) implies pkgs[j].version <= pkgs[pkg_at].version && (pkgs[j].version == pkgs[pkg_at].version ==> pkg_at <= j) by {
                                    lemma_seen_step(pkgs, ki, ii, j, key);
                                }
                            }
                        }
                        assert forall|j: int, mm: MoveAddress| #[trigger] seen(pkgs, ki, ii + 1, j, mm) implies exists|e2: int|
                            0 <= e2 < after.len() && (#[trigger] after[e2]).0 == mm by {
                            lemma_seen_step(pkgs, ki, ii, j, mm);
                            if mm == m {
                                assert(after[e as int].0 == mm);
                            } else {
                                let e2 = choose|e2: int| 0 <= e2 < before.len() && (#[trigger] before[e2]).0 == mm;
                                assert(after[e2].0 == mm);
                            }
                        }
                        assert(keys_unique(after)) by {
                            assert forall|a: int, b: int| 0 <= a < after.len() && 0 <= b < after.len() && a != b implies #[trigger] after[a].0 != #[trigger] after[b].0 by {
                                assert(before[a].0 == after[a].0);
                                assert(before[b].0 == after[b].0);
                            }
                        }
                    }
                },
                None => {
                    map.push((m, k));
                    proof {
                        let after = map@;
                        assert forall|j: int| seen(pkgs, ki, ii, j, m) implies false by {
                            let e2 = choose|e2: int| 0 <= e2 < before.len() && (#[trigger] before[e2]).0 == m;
                        }
                        assert forall|e2: int| 0 <= e2 < after.len() implies {
                            let pkg_at = (#[trigger] after[e2]).1 as int;
                            &&& 0 <= pkg_at < pkgs.len()
                            &&& seen(pkgs, ki, ii + 1, pkg_at, after[e2].0)
                            &&& has_module(pkgs[pkg_at], after[e2].0)
                            &&& forall|j: int| #[trigger] seen(pkgs, ki, ii + 1, j, after[e2].0) ==> pkgs[j].version <= pkgs[pkg_at].version && (pkgs[j].version == pkgs[pkg_at].version ==> pkg_at <= j)
                        } by {
                            let key = after[e2].0;
                            let pkg_at = after[e2].1 as int;
                            lemma_seen_step(pkgs, ki, ii, pkg_at, key);
                            if e2 < before.len() {
                                assert(after[e2] == before[e2]);
                                assert forall|j: int| #[trigger] seen(pkgs, ki, ii + 1, j, key) implies pkgs[j].version <= pkgs[pkg_at].version && (pkgs[j].version == pkgs[pkg_at].version ==> pkg_at <= j) by {
                                    lemma_seen_step(pkgs, ki, ii, j, key);
                                }
                            } else {
                                assert(after[e2] == (m, k));
                                assert forall|j: int| #[trigger] seen(pkgs, ki, ii + 1, j, key) implies pkgs[j].version <= pkgs[pkg_at].version && (pkgs[j].version == pkgs[pkg_at].version ==> pkg_at <= j) by {
                                    lemma_seen_step(pkgs, ki, ii, j, key);
                                }
                            }
                        }
                        assert forall|j: int, mm: MoveAddress| #[trigger] seen(pkgs, ki, ii + 1, j, mm) implies exists|e2: int|
                            0 <= e2 < after.len() && (#[trigger] after[e2]).0 == mm by {
                            lemma_seen_step(pkgs, ki, ii, j, mm);
                            if mm == m {
                                assert(after[before.len() as int].0 == mm);
                            } else {
                                let e2 = choose|e2: int| 0 <= e2 < before.len() && (#[trigger] before[e2]).0 == mm;
                                assert(after[e2].0 == mm);
                            }
                        }
                        assert(keys_unique(after)) by {
                            assert forall|a: int, b: int| 0 <= a < after.len() && 0 <= b < after.len() && a != b implies #[trigger] after[a].0 != #[trigger] after[b].0 by {
                                if a < before.len() && b < before.len() {
                                    assert(before[a].0 == after[a].0);
                                    assert(before[b].0 == after[b].0);
                                } else if a < before.len() {
                                    assert(before[a].0 == after[a].0);
                                } else if b < before.len() {
                                    assert(before[b].0 == after[b].0);
                                }
                            }
                        }
                    }
                },
            }
            i = i + 1;
        }
        proof {
            lemma_index_inv_next_package(pkgs, k as int, map@);
        }
        k = k + 1;
    }
    let mut out: Vec<(MoveAddress, MoveAddress)> = Vec::new();
    let mut e: usize = 0;
    while e < map.len()
        invariant
            e <= map@.len(),
            pkgs == packages@,
            index_inv(pkgs, pkgs.len() as int, 0, map@),
            out@.len() == e,
            forall|x: int| 0 <= x < e ==> (#[trigger] out@[x]).0 == map@[x].0 && out@[x].1 == pkgs[map@[x].1 as int].package_id,
        decreases map@.len() - e,
    {
        let p = map[e].1;
        out.push((map[e].0, packages[p].package_id));
        e = e + 1;
    }
    proof {
        let n = pkgs.len() as int;
        assert(keys_unique(out@)) by {
            assert forall|a: int, b: int| 0 <= a < out@.len() && 0 <= b < out@.len() && a != b implies #[trigger] out@[a].0 != #[trigger] out@[b].0 by {
                assert(map@[a].0 != map@[b].0);
            }
        }
        assert forall|x: int| 0 <= x < out@.len() implies is_newest_package(pkgs, (#[trigger] out@[x]).0, out@[x].1) by {
            let p = map@[x].1 as int;
            assert forall|j: int| 0 <= j < pkgs.len() && has_module(#[trigger] pkgs[j], out@[x].0) implies pkgs[j].version <= pkgs[p].version && (pkgs[j].version == pkgs[p].version ==> p <= j) by {
                assert(seen(pkgs, n, 0, j, map@[x].0));
            }
            assert(newest_with_module(pkgs, out@[x].0, p));
        }
        assert forall|kk: int, i: int| 0 <= kk < pkgs.len() && 0 <= i < pkgs[kk].modules@.len() implies has_key(
            out@,
            (#[trigger] pkgs[kk].modules@[i]).module_address,
        ) by {
            let mm = pkgs[kk].modules@[i].module_address;
            assert(has_module(pkgs[kk], mm));
            assert(seen(pkgs, n, 0, kk, mm));
            let x = choose|x: int| 0 <= x < map@.len() && (#[trigger] map@[x]).0 == mm;
            assert(out@[x].0 == mm);
        }
        assert(module_map_of(pkgs, out@));
    }
    out
}

/// The objects known to exist of one type.
pub struct TypePoolEntry {
    pub ty: MoveTypeTag,
    pub objects: Vec<MoveAddress>,
}

/// Whether `t` is one of `list`.
pub open spec fn tag_listed(list: Seq<MoveTypeTag>, t: MoveTypeTag) -> bool {
    exists|i: int| 0 <= i < list.len() && tag_eq(t, #[trigger] list[i])
}

/// Whether a pool entry survives filtering: its type is included (when a list of
/// included types is given), not excluded, and it has at least one object.
pub open spec fn pool_keeps(
    g: TypePoolEntry,
    wanted: Option<Seq<MoveTypeTag>>,
    unwanted: Option<Seq<MoveTypeTag>>,
) -> bool {
    &&& (wanted is None || tag_listed(wanted->Some_0, g.ty))
    &&& (unwanted is None || !tag_listed(unwanted->Some_0, g.ty))
    &&& g.objects@.len() > 0
}

/// The entries of `s` that survive filtering, in order.
pub open spec fn pool_kept(
    s: Seq<TypePoolEntry>,
    wanted: Option<Seq<MoveTypeTag>>,
    unwanted: Option<Seq<MoveTypeTag>>,
) -> Seq<TypePoolEntry>
    decreases s.len(),
{
    if s.len() == 0 {
        seq![]
    } else {
        let rest = pool_kept(s.drop_first(), wanted, unwanted);
        if pool_keeps(s[0], wanted, unwanted) {
            seq![s[0]] + rest
        } else {
            rest
        }
    }
}

/// Whether `t` is one of `list`.
pub fn tag_in(list: &Vec<MoveTypeTag>, t: &MoveTypeTag) -> (r: bool)
    ensures
        r == tag_listed(list@, *t),
{
    let mut i: usize = 0;
    while i < list.len()
        invariant
            i <= list@.len(),
            forall|k: int| 0 <= k < i ==> !tag_eq(*t, #[trigger] list@[k]),
        decreases list@.len() - i,
    {
        if tags_equal(t, &list[i]) {
            return true;
        }
        i = i + 1;
    }
    false
}

/// Keeps the entries whose type is in `include_types` (when given) and not in
/// `exclude_types` (when given), and that hold at least one object.
pub fn filter_types_pool(
    types_pool: Vec<TypePoolEntry>,
    include_types: Option<&Vec<MoveTypeTag>>,
    exclude_types: Option<&Vec<MoveTypeTag>>,
) -> (r: Vec<TypePoolEntry>)
    ensures
        r@ == pool_kept(
            types_pool@,
            match include_types {
                Some(v) => Some(v@),
                None => None,
            },
            match exclude_types {
                Some(v) => Some(v@),
                None => None,
            },
        ),
{
    let ghost inc = match include_types {
        Some(v) => Some(v@),
        None => None::<Seq<MoveTypeTag>>,
    };
    let ghost exc = match exclude_types {
        Some(v) => Some(v@),
        None => None::<Seq<MoveTypeTag>>,
    };
    let ghost orig = types_pool@;
    let mut pool = types_pool;
    let mut out: Vec<TypePoolEntry> = Vec::new();
    while pool.len() > 0
        invariant
            out@ + pool_kept(pool@, inc, exc) == pool_kept(orig, inc, exc),
            inc == match include_types {
                Some(v) => Some(v@),
                None => None::<Seq<MoveTypeTag>>,
            },
            exc == match exclude_types {
                Some(v) => Some(v@),
                None => None::<Seq<MoveTypeTag>>,
            },
        decreases pool@.len(),
    {
        let ghost before = pool@;
        let g = pool.remove(0);
        proof {
            assert(pool@ =~= before.drop_first());
        }
        let included = match include_types {
            Some(list) => tag_in(list, &g.ty),
            None => true,
        };
        let excluded = match exclude_types {
            Some(list) => tag_in(list, &g.ty),
            None => false,
        };
        if included && !excluded && g.objects.len() > 0 {
            let ghost o = out@;
            out.push(g);
            proof {
                assert(out@ + pool_kept(pool@, inc, exc) =~= o + pool_kept(before, inc, exc));
            }
        }
    }
    assert(out@ + pool_kept(pool@, inc, exc) =~= out@);
    out
}

/// The package id that `id` resolves to through `map`: its entry there, else itself.
pub open spec fn resolved_package(map: Seq<(MoveAddress, MoveAddress)>, id: MoveAddress) -> MoveAddress {
    if has_key(map, id) {
        map[choose|e: int| 0 <= e < map.len() && (#[trigger] map[e]).0 == id].1
    } else {
        id
    }
}

/// The package that `package_id` resolves to through `module_address_to_package`
/// (itself when it has no entry there): its first entry in `abis`.
pub fn get_package_metadata<'a>(
    abis: &'a Vec<MovePackageAbi>,
    module_address_to_package: &Vec<(MoveAddress, MoveAddress)>,
    package_id: MoveAddress,
) -> (r: Option<&'a MovePackageAbi>)
    requires
        keys_unique(module_address_to_package@),
    ensures
        r is None <==> forall|k: int|
            0 <= k < abis@.len() ==> (#[trigger] abis@[k]).package_id != resolved_package(
                module_address_to_package@,
                package_id,
            ),
        r is Some ==> exists|k: int|
            0 <= k < abis@.len() && abis@[k] == *r->Some_0 && abis@[k].package_id
                == resolved_package(module_address_to_package@, package_id) && forall|j: int|
                0 <= j < k ==> (#[trigger] abis@[j]).package_id != resolved_package(
                    module_address_to_package@,
                    package_id,
                ),
{
    let target = match find_key(module_address_to_package, package_id) {
        Some(e) => {
            proof {
                let c = choose|c: int| 0 <= c < module_address_to_package@.len() && (#[trigger] module_address_to_package@[c]).0 == package_id;
                assert(has_key(module_address_to_package@, package_id));
                if c != e {
                    assert(module_address_to_package@[c].0 != module_address_to_package@[e as int].0);
                }
            }
            module_address_to_package[e].1
        },
        None => package_id,
    };
    assert(target == resolved_package(module_address_to_package@, package_id));
    let mut k: usize = 0;
    while k < abis.len()
        invariant
            k <= abis@.len(),
            forall|j: int| 0 <= j < k ==> (#[trigger] abis@[j]).package_id != target,
            target == resolved_package(module_address_to_package@, package_id),
        decreases abis@.len() - k,
    {
        if abis[k].package_id == target {
            assert(abis@[k as int].package_id == target);
            return Some(&abis[k]);
        }
        k = k + 1;
    }
    None
}

/// Whether the entries of `pool` have pairwise different types.
pub open spec fn pool_types_distinct(pool: Seq<TypePoolEntry>) -> bool {
    forall|i: int, j: int|
        0 <= i < pool.len() && 0 <= j < pool.len() && i != j ==> !tag_eq(
            #[trigger] pool[i].ty,
            #[trigger] pool[j].ty,
        )
}

/// Whether some entry of `pool` of type `ty` lists the object `id`.
pub open spec fn pooled(pool: Seq<TypePoolEntry>, id: MoveAddress, ty: MoveTypeTag) -> bool {
    exists|g: int| 0 <= g < pool.len() && tag_eq(ty, (#[trigger] pool[g]).ty) && pool[g].objects@.contains(id)
}

/// Whether `objects` has the object `id` at a type equal to `ty`.
pub open spec fn observed(objects: Seq<(MoveAddress, MoveTypeTag)>, id: MoveAddress, ty: MoveTypeTag) -> bool {
    exists|o: int| 0 <= o < objects.len() && (#[trigger] objects[o]).0 == id && tag_eq(objects[o].1, ty)
}

/// `pool` groups `objects` by type: one entry per type, each object under its type,
/// no object under another type, no object twice.
pub open spec fn pool_of(objects: Seq<(MoveAddress, MoveTypeTag)>, pool: Seq<TypePoolEntry>) -> bool {
    &&& pool_types_distinct(pool)
    &&& forall|o: int| 0 <= o < objects.len() ==> pooled(pool, (#[trigger] objects[o]).0, objects[o].1)
    &&& forall|g: int, x: int|
        0 <= g < pool.len() && 0 <= x < pool[g].objects@.len() ==> observed(
            objects,
            (#[trigger] pool[g].objects@[x]),
            pool[g].ty,
        )
    &&& forall|g: int| 0 <= g < pool.len() ==> (#[trigger] pool[g]).objects@.no_duplicates()
}

fn address_in(list: &Vec<MoveAddress>, a: MoveAddress) -> (r: bool)
    ensures
        r == list@.contains(a),
{
    let mut i: usize = 0;
    while i < list.len()
        invariant
            i <= list@.len(),
            forall|k: int| 0 <= k < i ==> list@[k] != a,
        decreases list@.len() - i,
    {
        if list[i] == a {
            assert(list@[i as int] == a);
            return true;
        }
        i = i + 1;
    }
    false
}

/// Groups the objects `(id, type)` by type.
pub fn build_types_pool(objects: &Vec<(MoveAddress, MoveTypeTag)>) -> (r: Vec<TypePoolEntry>)
    ensures
        pool_of(objects@, r@),
{
    let mut types: Vec<MoveTypeTag> = Vec::new();
    let mut o: usize = 0;
    while o < objects.len()
        invariant
            o <= objects@.len(),
            forall|i: int, j: int|
                0 <= i < types@.len() && 0 <= j < types@.len() && i != j ==> !tag_eq(
                    #[trigger] types@[i],
                    #[trigger] types@[j],
                ),
            forall|p: int| 0 <= p < o ==> tag_listed(types@, (#[trigger] objects@[p]).1),
        decreases objects@.len() - o,
    {
        let ty = &objects[o].1;
        if !tag_in(&types, ty) {
            let n = clone_tag(ty);
            let ghost before = types@;
            types.push(n);
            proof {
                lemma_tag_eq_symmetric(n, *ty);
                assert forall|i: int, j: int|
                    0 <= i < types@.len() && 0 <= j < types@.len() && i != j implies !tag_eq(
                    #[trigger] types@[i],
                    #[trigger] types@[j],
                ) by {
                    if i == before.len() && j < before.len() {
                        if tag_eq(n, types@[j]) {
                            lemma_tag_eq_transitive(*ty, n, types@[j]);
                            assert(tag_eq(*ty, before[j]));
                        }
                    } else if j == before.len() && i < before.len() {
                        if tag_eq(types@[i], n) {
                            lemma_tag_eq_symmetric(types@[i], n);
                            lemma_tag_eq_transitive(*ty, n, types@[i]);
                            assert(tag_eq(*ty, before[i]));
                        }
                    } else if i < before.len() && j < before.len() {
                        assert(types@[i] == before[i] && types@[j] == before[j]);
                    }
                }
                assert forall|p: int| 0 <= p <= o implies tag_listed(types@, (#[trigger] objects@[p]).1) by {
                    if p < o {
                        let i = choose|i: int| 0 <= i < before.len() && tag_eq(objects@[p].1, #[trigger] before[i]);
                        assert(types@[i] == before[i]);
                    } else {
                        assert(types@[before.len() as int] == n);
                    }
                }
            }
        }
        o = o + 1;
    }
    let ghost all = types@;
    assert(all.len() == types.len());
    assert(types@ =~= all.subrange(0, all.len() as int));
    let mut pool: Vec<TypePoolEntry> = Vec::new();
    let mut g: usize = 0;
    while types.len() > 0
        invariant
            g + types@.len() == all.len(),
            all.len() <= usize::MAX,
            types@ == all.subrange(g as int, all.len() as int),
            forall|q: int| 0 <= q < objects@.len() ==> tag_listed(all, (#[trigger] objects@[q]).1),
            forall|i: int, j: int|
                0 <= i < all.len() && 0 <= j < all.len() && i != j ==> !tag_eq(
                    #[trigger] all[i],
                    #[trigger] all[j],
                ),
            pool@.len() == g,
            forall|k: int| 0 <= k < g ==> (#[trigger] pool@[k]).ty == all[k],
            forall|k: int, p: int|
                0 <= k < g && 0 <= p < objects@.len() && tag_eq(objects@[p].1, all[k]) ==> (#[trigger] pool@[k]).objects@.contains(
                    #[trigger] objects@[p].0,
                ),
            forall|k: int, x: int|
                0 <= k < g && 0 <= x < pool@[k].objects@.len() ==> observed(
                    objects@,
                    (#[trigger] pool@[k].objects@[x]),
                    pool@[k].ty,
                ),
            forall|k: int| 0 <= k < g ==> (#[trigger] pool@[k]).objects@.no_duplicates(),
        decreases types@.len(),
    {
        let t = types.remove(0);
        let mut ids: Vec<MoveAddress> = Vec::new();
        let mut p: usize = 0;
        while p < objects.len()
            invariant
                p <= objects@.len(),
                t == all[g as int],
                forall|q: int| 0 <= q < p && tag_eq(objects@[q].1, t) ==> ids@.contains(#[trigger] objects@[q].0),
                forall|x: int| 0 <= x < ids@.len() ==> observed(objects@, #[trigger] ids@[x], t),
                ids@.no_duplicates(),
            decreases objects@.len() - p,
        {
            if tags_equal(&objects[p].1, &t) {
                let id = objects[p].0;
                if !address_in(&ids, id) {
                    let ghost before = ids@;
                    ids.push(id);
                    proof {
                        assert forall|q: int| 0 <= q <= p && tag_eq(objects@[q].1, t) implies ids@.contains(#[trigger] objects@[q].0) by {
                            if q < p {
                                let x = choose|x: int| 0 <= x < before.len() && before[x] == objects@[q].0;
                                assert(ids@[x] == objects@[q].0);
                            } else {
                                assert(ids@[before.len() as int] == id);
                            }
                        }
                        assert forall|x: int| 0 <= x < ids@.len() implies observed(objects@, #[trigger] ids@[x], t) by {
                            if x < before.len() {
                                assert(ids@[x] == before[x]);
                            } else {
                                assert(objects@[p as int].0 == ids@[x]);
                            }
                        }
                    }
                }
            }
            p = p + 1;
        }
        let ghost before_pool = pool@;
        pool.push(TypePoolEntry { ty: t, objects: ids });
        proof {
            assert forall|k: int, q: int|
                0 <= k < g + 1 && 0 <= q < objects@.len() && tag_eq(objects@[q].1, all[k]) implies (#[trigger] pool@[k]).objects@.contains(
                    #[trigger] objects@[q].0,
                ) by {
                if k < g {
                    assert(pool@[k] == before_pool[k]);
                }
            }
            assert forall|k: int, x: int|
                0 <= k < g + 1 && 0 <= x < pool@[k].objects@.len() implies observed(
                    objects@,
                    (#[trigger] pool@[k].objects@[x]),
                    pool@[k].ty,
                ) by {
                if k < g {
                    assert(pool@[k] == before_pool[k]);
                }
            }
            assert forall|k: int| 0 <= k < g + 1 implies (#[trigger] pool@[k]).objects@.no_duplicates() by {
                if k < g {
                    assert(pool@[k] == before_pool[k]);
                }
            }
            assert(types@ =~= all.subrange(g + 1, all.len() as int));
        }
        g = g + 1;
    }
    proof {
        assert forall|o: int| 0 <= o < objects@.len() implies pooled(pool@, (#[trigger] objects@[o]).0, objects@[o].1) by {
            let i = choose|i: int| 0 <= i < all.len() && tag_eq(objects@[o].1, #[trigger] all[i]);
            assert(pool@[i].objects@.contains(objects@[o].0));
        }
        assert forall|i: int, j: int|
            0 <= i < pool@.len() && 0 <= j < pool@.len() && i != j implies !tag_eq(
                #[trigger] pool@[i].ty,
                #[trigger] pool@[j].ty,
            ) by {
            assert(pool@[i].ty == all[i] && pool@[j].ty == all[j]);
        }
    }
    pool
}

/// Ability bits.
pub const ABILITY_COPY: u8 = 1;
pub const ABILITY_DROP: u8 = 2;
pub const ABILITY_STORE: u8 = 4;
pub const ABILITY_KEY: u8 = 8;
/// The abilities of primitive types: copy, drop and store.
pub const ABILITY_PRIMITIVES: u8 = 7;

/// The concrete types that have exactly some set of abilities.
pub struct AbilityEntry {
    pub abilities: u8,
    pub types: Vec<MoveTypeTag>,
}

/// Whether `t` is a type that the index knows to have abilities `ab` without any
/// package: the primitives and `vector<u8>` (copy, drop, store) and `signer` (drop).
pub open spec fn is_builtin(ab: u8, t: MoveTypeTag) -> bool {
    ||| (ab == ABILITY_PRIMITIVES && (t is Bool || t is Address || t is U8 || t is U16 || t is U32
        || t is U64 || t is U128 || t is U256 || (t is Vector && *t->Vector_0 is U8)))
    ||| (ab == ABILITY_DROP && t is Signer)
}

/// Whether `t` is the type of struct `s` of module `m`, without type arguments.
pub open spec fn is_struct_type(t: MoveTypeTag, m: MoveModuleAbi, s: MoveStructAbi) -> bool {
    &&& t is Struct
    &&& t->Struct_0.address == m.module_address
    &&& t->Struct_0.module@ == m.module_name@
    &&& t->Struct_0.name@ == s.struct_name@
    &&& t->Struct_0.tys@.len() == 0
}

/// Whether `t` is the type of a struct without type parameters and with abilities
/// `ab` that a module of `pkgs` declares.
pub open spec fn declared_with(pkgs: Seq<MovePackageAbi>, ab: u8, t: MoveTypeTag) -> bool {
    exists|k: int, i: int, j: int|
        0 <= k < pkgs.len() && 0 <= i < pkgs[k].modules@.len() && 0 <= j
            < pkgs[k].modules@[i].structs@.len() && {
            let s = #[trigger] pkgs[k].modules@[i].structs@[j];
            s.type_parameters == 0 && s.abilities == ab && is_struct_type(t, pkgs[k].modules@[i], s)
        }
}

/// Whether some entry for abilities `ab` lists `t`.
pub open spec fn ability_listed(map: Seq<AbilityEntry>, ab: u8, t: MoveTypeTag) -> bool {
    exists|e: int, x: int|
        0 <= e < map.len() && 0 <= x < map[e].types@.len() && map[e].abilities == ab && tag_eq(
            #[trigger] map[e].types@[x],
            t,
        )
}

/// Whether some entry for abilities `ab` holds exactly `t`.
pub open spec fn ability_has(map: Seq<AbilityEntry>, ab: u8, t: MoveTypeTag) -> bool {
    exists|e: int, x: int|
        0 <= e < map.len() && 0 <= x < map[e].types@.len() && map[e].abilities == ab && #[trigger] map[e].types@[x] == t
}

/// Whether some entry for abilities `ab` lists the type of struct `s` of module `m`.
pub open spec fn struct_listed(map: Seq<AbilityEntry>, m: MoveModuleAbi, s: MoveStructAbi) -> bool {
    exists|e: int, x: int|
        0 <= e < map.len() && 0 <= x < map[e].types@.len() && map[e].abilities == s.abilities
            && is_struct_type(#[trigger] map[e].types@[x], m, s)
}

/// `map` sends each set of abilities (once) to the concrete types that have it: the
/// built-in types and the structs without type parameters that `pkgs` declares.
pub open spec fn ability_map_of(pkgs: Seq<MovePackageAbi>, map: Seq<AbilityEntry>) -> bool {
    &&& lists_distinct(map)
    &&& forall|a: int, b: int|
        0 <= a < map.len() && 0 <= b < map.len() && a != b ==> (#[trigger] map[a]).abilities
            != (#[trigger] map[b]).abilities
    &&& forall|e: int, x: int|
        0 <= e < map.len() && 0 <= x < map[e].types@.len() ==> is_builtin(
            map[e].abilities,
            #[trigger] map[e].types@[x],
        ) || declared_with(pkgs, map[e].abilities, map[e].types@[x])
    &&& forall|t: MoveTypeTag, ab: u8| #[trigger] is_builtin(ab, t) ==> ability_listed(map, ab, t)
    &&& forall|k: int, i: int, j: int|
        0 <= k < pkgs.len() && 0 <= i < pkgs[k].modules@.len() && 0 <= j
            < pkgs[k].modules@[i].structs@.len() && (#[trigger] pkgs[k].modules@[i].structs@[j]).type_parameters
            == 0 ==> struct_listed(map, pkgs[k].modules@[i], pkgs[k].modules@[i].structs@[j])
}

/// Whether no entry lists two equal types.
pub open spec fn lists_distinct(map: Seq<AbilityEntry>) -> bool {
    forall|e: int, x: int, y: int|
        0 <= e < map.len() && 0 <= x < map[e].types@.len() && 0 <= y < map[e].types@.len() && x != y
            ==> !tag_eq(#[trigger] map[e].types@[x], #[trigger] map[e].types@[y])
}

/// Adds `t` under abilities `ab`, keeping one entry per set of abilities.
fn add_ability_type(map: &mut Vec<AbilityEntry>, ab: u8, t: MoveTypeTag)
    requires
        forall|a: int, b: int|
            0 <= a < old(map)@.len() && 0 <= b < old(map)@.len() && a != b ==> (#[trigger] old(map)@[a]).abilities
                != (#[trigger] old(map)@[b]).abilities,
        lists_distinct(old(map)@),
    ensures
        lists_distinct(final(map)@),
        forall|a: int, b: int|
            0 <= a < final(map)@.len() && 0 <= b < final(map)@.len() && a != b ==> (#[trigger] final(map)@[a]).abilities
                != (#[trigger] final(map)@[b]).abilities,
        ability_listed(final(map)@, ab, t),
        forall|e: int, x: int|
            0 <= e < final(map)@.len() && 0 <= x < final(map)@[e].types@.len() ==> ((final(map)@[e].abilities == ab
                && #[trigger] final(map)@[e].types@[x] == t) || ability_has(old(map)@, final(map)@[e].abilities, final(map)@[e].types@[x])),
        forall|ab2: u8, t2: MoveTypeTag| ability_has(old(map)@, ab2, t2) ==> #[trigger] ability_has(final(map)@, ab2, t2),
{
    let mut e: usize = 0;
    while e < map.len()
        invariant
            e <= map@.len(),
            forall|k: int| 0 <= k < e ==> (#[trigger] map@[k]).abilities != ab,
        ensures
            e <= map@.len(),
            forall|k: int| 0 <= k < e ==> (#[trigger] map@[k]).abilities != ab,
            e < map@.len() ==> map@[e as int].abilities == ab,
        decreases map@.len() - e,
    {
        if map[e].abilities == ab {
            break;
        }
        e = e + 1;
    }
    let ghost before = map@;
    if e < map.len() {
        let mut entry = map.remove(e);
        let ghost old_types = entry.types@;
        if tag_in(&entry.types, &t) {
            map.insert(e, entry);
            proof {
                let m = map@;
                assert forall|k: int| 0 <= k < m.len() implies #[trigger] m[k] == before[k] by {
                    if k < e {
                    } else if k > e {
                    } else {
                    }
                }
                assert(m =~= before);
                assert forall|e3: int, x: int|
                    0 <= e3 < m.len() && 0 <= x < m[e3].types@.len() implies ((m[e3].abilities == ab
                        && #[trigger] m[e3].types@[x] == t) || ability_has(before, m[e3].abilities, m[e3].types@[x])) by {
                }
                let x = choose|x: int| 0 <= x < old_types.len() && tag_eq(t, #[trigger] old_types[x]);
                lemma_tag_eq_symmetric(t, old_types[x]);
                assert(m[e as int].types@[x] == old_types[x]);
            }
            return;
        }
        entry.types.push(t);
        map.insert(e, entry);
        proof {
            let m = map@;
            assert(m.len() == before.len());
            assert forall|k: int| 0 <= k < m.len() && k != e implies #[trigger] m[k] == before[k] by {
                if k < e {
                } else {
                }
            }
            assert(m[e as int].types@ == old_types.push(t));
            assert(m[e as int].abilities == ab);
            assert(m[e as int].types@[old_types.len() as int] == t);
            crate::value::lemma_tag_eq_reflexive(t);
            assert(!tag_listed(old_types, t));
            assert(before[e as int].types@ == old_types);
            assert forall|e3: int, x: int, y: int|
                0 <= e3 < m.len() && 0 <= x < m[e3].types@.len() && 0 <= y < m[e3].types@.len() && x != y
                implies !tag_eq(#[trigger] m[e3].types@[x], #[trigger] m[e3].types@[y]) by {
                if e3 == e {
                    let n = old_types.len() as int;
                    if x < n && y < n {
                        assert(m[e3].types@[x] == old_types[x] && m[e3].types@[y] == old_types[y]);
                        assert(!tag_eq(before[e3].types@[x], before[e3].types@[y]));
                    } else if x == n {
                        assert(m[e3].types@[y] == old_types[y]);
                        assert(!tag_eq(t, old_types[y]));
                    } else {
                        assert(m[e3].types@[x] == old_types[x]);
                        assert(!tag_eq(t, old_types[x]));
                        if tag_eq(old_types[x], t) {
                            lemma_tag_eq_symmetric(old_types[x], t);
                        }
                    }
                } else {
                    assert(m[e3] == before[e3]);
                }
            }
            assert forall|ab2: u8, t2: MoveTypeTag| ability_has(before, ab2, t2) implies #[trigger] ability_has(m, ab2, t2) by {
                let (e2, x2) = choose|e2: int, x2: int| 0 <= e2 < before.len() && 0 <= x2 < before[e2].types@.len() && before[e2].abilities == ab2 && #[trigger] before[e2].types@[x2] == t2;
                if e2 == e {
                    assert(m[e2].types@[x2] == before[e2].types@[x2]);
                } else {
                    assert(m[e2] == before[e2]);
                }
            }
            assert forall|e3: int, x: int|
                0 <= e3 < m.len() && 0 <= x < m[e3].types@.len() implies ((m[e3].abilities == ab
                    && #[trigger] m[e3].types@[x] == t) || ability_has(before, m[e3].abilities, m[e3].types@[x])) by {
                if e3 == e {
                    if x < old_types.len() {
                        assert(m[e3].types@[x] == before[e3].types@[x]);
                    }
                } else {
                    assert(m[e3] == before[e3]);
                }
            }
            assert forall|a: int, b: int|
                0 <= a < m.len() && 0 <= b < m.len() && a != b implies (#[trigger] m[a]).abilities
                    != (#[trigger] m[b]).abilities by {
                assert(m[a].abilities == before[a].abilities);
                assert(m[b].abilities == before[b].abilities);
            }
        }
    } else {
        let mut types: Vec<MoveTypeTag> = Vec::new();
        types.push(t);
        map.push(AbilityEntry { abilities: ab, types });
        proof {
            let m = map@;
            assert(m[before.len() as int].types@[0] == t);
            assert forall|e3: int, x: int, y: int|
                0 <= e3 < m.len() && 0 <= x < m[e3].types@.len() && 0 <= y < m[e3].types@.len() && x != y
                implies !tag_eq(#[trigger] m[e3].types@[x], #[trigger] m[e3].types@[y]) by {
                if e3 < before.len() {
                    assert(m[e3] == before[e3]);
                }
            }
            crate::value::lemma_tag_eq_reflexive(t);
            assert forall|ab2: u8, t2: MoveTypeTag| ability_has(before, ab2, t2) implies #[trigger] ability_has(m, ab2, t2) by {
                let (e2, x2) = choose|e2: int, x2: int| 0 <= e2 < before.len() && 0 <= x2 < before[e2].types@.len() && before[e2].abilities == ab2 && #[trigger] before[e2].types@[x2] == t2;
                assert(m[e2] == before[e2]);
            }
            assert forall|e3: int, x: int|
                0 <= e3 < m.len() && 0 <= x < m[e3].types@.len() implies ((m[e3].abilities == ab
                    && #[trigger] m[e3].types@[x] == t) || ability_has(before, m[e3].abilities, m[e3].types@[x])) by {
                if e3 < before.len() {
                    assert(m[e3] == before[e3]);
                }
            }
        }
    }
}

/// Whether struct `jj` of module `ii` of package `kk` comes before position
/// `(k, i, j)` in declaration order.
spec fn struct_before(k: int, i: int, j: int, kk: int, ii: int, jj: int) -> bool {
    kk < k || (kk == k && ii < i) || (kk == k && ii == i && jj < j)
}

spec fn ability_sound(pkgs: Seq<MovePackageAbi>, map: Seq<AbilityEntry>) -> bool {
    &&& lists_distinct(map)
    &&& forall|a: int, b: int|
        0 <= a < map.len() && 0 <= b < map.len() && a != b ==> (#[trigger] map[a]).abilities
            != (#[trigger] map[b]).abilities
    &&& forall|e: int, x: int|
        0 <= e < map.len() && 0 <= x < map[e].types@.len() ==> is_builtin(
            map[e].abilities,
            #[trigger] map[e].types@[x],
        ) || declared_with(pkgs, map[e].abilities, map[e].types@[x])
}

spec fn ability_inv(pkgs: Seq<MovePackageAbi>, map: Seq<AbilityEntry>, k: int, i: int, j: int) -> bool {
    &&& lists_distinct(map)
    &&& forall|a: int, b: int|
        0 <= a < map.len() && 0 <= b < map.len() && a != b ==> (#[trigger] map[a]).abilities
            != (#[trigger] map[b]).abilities
    &&& forall|e: int, x: int|
        0 <= e < map.len() && 0 <= x < map[e].types@.len() ==> is_builtin(
            map[e].abilities,
            #[trigger] map[e].types@[x],
        ) || declared_with(pkgs, map[e].abilities, map[e].types@[x])
    &&& forall|t: MoveTypeTag, ab: u8| #[trigger] is_builtin(ab, t) ==> ability_listed(map, ab, t)
    &&& forall|kk: int, ii: int, jj: int|
        0 <= kk < pkgs.len() && 0 <= ii < pkgs[kk].modules@.len() && 0 <= jj
            < pkgs[kk].modules@[ii].structs@.len() && struct_before(k, i, j, kk, ii, jj)
            && (#[trigger] pkgs[kk].modules@[ii].structs@[jj]).type_parameters == 0
            ==> struct_listed(map, pkgs[kk].modules@[ii], pkgs[kk].modules@[ii].structs@[jj])
}

proof fn lemma_struct_type_transfer(y: MoveTypeTag, t: MoveTypeTag, m: MoveModuleAbi, s: MoveStructAbi)
    requires
        tag_eq(y, t),
        is_struct_type(t, m, s),
    ensures
        is_struct_type(y, m, s),
{
}

/// After an addition that keeps every exact entry, what was listed stays listed.
proof fn lemma_listing_kept(pkgs: Seq<MovePackageAbi>, before: Seq<AbilityEntry>, after: Seq<AbilityEntry>)
    requires
        forall|ab2: u8, t2: MoveTypeTag| ability_has(before, ab2, t2) ==> #[trigger] ability_has(after, ab2, t2),
    ensures
        forall|ab: u8, t: MoveTypeTag| ability_listed(before, ab, t) ==> #[trigger] ability_listed(after, ab, t),
        forall|m: MoveModuleAbi, s: MoveStructAbi| struct_listed(before, m, s) ==> #[trigger] struct_listed(after, m, s),
{
    assert forall|ab: u8, t: MoveTypeTag| ability_listed(before, ab, t) implies #[trigger] ability_listed(after, ab, t) by {
        let (e, x) = choose|e: int, x: int| 0 <= e < before.len() && 0 <= x < before[e].types@.len() && before[e].abilities == ab && tag_eq(#[trigger] before[e].types@[x], t);
        let y = before[e].types@[x];
        assert(ability_has(before, ab, y));
        assert(ability_has(after, ab, y));
        let (e2, x2) = choose|e2: int, x2: int| 0 <= e2 < after.len() && 0 <= x2 < after[e2].types@.len() && after[e2].abilities == ab && #[trigger] after[e2].types@[x2] == y;
        assert(tag_eq(after[e2].types@[x2], t));
    }
    assert forall|m: MoveModuleAbi, s: MoveStructAbi| struct_listed(before, m, s) implies #[trigger] struct_listed(after, m, s) by {
        let (e, x) = choose|e: int, x: int| 0 <= e < before.len() && 0 <= x < before[e].types@.len() && before[e].abilities == s.abilities && is_struct_type(#[trigger] before[e].types@[x], m, s);
        let y = before[e].types@[x];
        assert(ability_has(before, s.abilities, y));
        assert(ability_has(after, s.abilities, y));
        let (e2, x2) = choose|e2: int, x2: int| 0 <= e2 < after.len() && 0 <= x2 < after[e2].types@.len() && after[e2].abilities == s.abilities && #[trigger] after[e2].types@[x2] == y;
        assert(is_struct_type(after[e2].types@[x2], m, s));
    }
}

/// Adds a type that is built in or declared, keeping the index's invariant.
fn add_known_type(map: &mut Vec<AbilityEntry>, ab: u8, t: MoveTypeTag, Ghost(pkgs): Ghost<Seq<MovePackageAbi>>)
    requires
        ability_sound(pkgs, old(map)@),
        is_builtin(ab, t) || declared_with(pkgs, ab, t),
    ensures
        ability_sound(pkgs, final(map)@),
        ability_listed(final(map)@, ab, t),
        forall|ab2: u8, t2: MoveTypeTag| ability_listed(old(map)@, ab2, t2) ==> #[trigger] ability_listed(final(map)@, ab2, t2),
        forall|m: MoveModuleAbi, s: MoveStructAbi| struct_listed(old(map)@, m, s) ==> #[trigger] struct_listed(final(map)@, m, s),
{
    let ghost before = map@;
    add_ability_type(map, ab, t);
    proof {
        lemma_listing_kept(pkgs, before, map@);
        assert forall|e: int, x: int|
            0 <= e < map@.len() && 0 <= x < map@[e].types@.len() implies is_builtin(
                map@[e].abilities,
                #[trigger] map@[e].types@[x],
            ) || declared_with(pkgs, map@[e].abilities, map@[e].types@[x]) by {
            if !(map@[e].abilities == ab && map@[e].types@[x] == t) {
                let (e2, x2) = choose|e2: int, x2: int| 0 <= e2 < before.len() && 0 <= x2 < before[e2].types@.len() && before[e2].abilities == map@[e].abilities && #[trigger] before[e2].types@[x2] == map@[e].types@[x];
            }
        }
    }
}

/// For each set of abilities, the concrete types that have it: the built-in types
/// and the structs without type parameters that `packages` declare.
pub fn build_ability_map(packages: &Vec<MovePackageAbi>) -> (r: Vec<AbilityEntry>)
    ensures
        ability_map_of(packages@, r@),
{
    let ghost pkgs = packages@;
    let mut map: Vec<AbilityEntry> = Vec::new();
    add_known_type(&mut map, ABILITY_PRIMITIVES, MoveTypeTag::Bool, Ghost(pkgs));
    add_known_type(&mut map, ABILITY_PRIMITIVES, MoveTypeTag::Address, Ghost(pkgs));
    add_known_type(&mut map, ABILITY_PRIMITIVES, MoveTypeTag::U8, Ghost(pkgs));
    add_known_type(&mut map, ABILITY_PRIMITIVES, MoveTypeTag::U16, Ghost(pkgs));
    add_known_type(&mut map, ABILITY_PRIMITIVES, MoveTypeTag::U32, Ghost(pkgs));
    add_known_type(&mut map, ABILITY_PRIMITIVES, MoveTypeTag::U64, Ghost(pkgs));
    add_known_type(&mut map, ABILITY_PRIMITIVES, MoveTypeTag::U128, Ghost(pkgs));
    add_known_type(&mut map, ABILITY_PRIMITIVES, MoveTypeTag::U256, Ghost(pkgs));
    add_known_type(&mut map, ABILITY_PRIMITIVES, MoveTypeTag::Vector(Box::new(MoveTypeTag::U8)), Ghost(pkgs));
    add_known_type(&mut map, ABILITY_DROP, MoveTypeTag::Signer, Ghost(pkgs));
    proof {
        assert forall|t: MoveTypeTag, ab: u8| #[trigger] is_builtin(ab, t) implies ability_listed(map@, ab, t) by {
            if t is Vector {
                assert(t == MoveTypeTag::Vector(Box::new(MoveTypeTag::U8)));
            }
        }
        assert(ability_inv(pkgs, map@, 0, 0, 0));
    }
    let mut k: usize = 0;
    while k < packages.len()
        invariant
            k <= pkgs.len(),
            pkgs == packages@,
            ability_inv(pkgs, map@, k as int, 0, 0),
        decreases pkgs.len() - k,
    {
        let pkg = &packages[k];
        let mut i: usize = 0;
        while i < pkg.modules.len()
            invariant
                k < pkgs.len(),
                i <= pkg.modules@.len(),
                pkgs == packages@,
                *pkg == pkgs[k as int],
                ability_inv(pkgs, map@, k as int, i as int, 0),
            decreases pkg.modules@.len() - i,
        {
            let m = &pkg.modules[i];
            let mut j: usize = 0;
            while j < m.structs.len()
                invariant
                    k < pkgs.len(),
                    i < pkg.modules@.len(),
                    j <= m.structs@.len(),
                    pkgs == packages@,
                    *pkg == pkgs[k as int],
                    *m == pkgs[k as int].modules@[i as int],
                    ability_inv(pkgs, map@, k as int, i as int, j as int),
                decreases m.structs@.len() - j,
            {
                let st = &m.structs[j];
                let ghost before = map@;
                if st.type_parameters == 0 {
                    let tag = MoveTypeTag::Struct(
                        Box::new(
                            MoveStructTag {
                                address: m.module_address,
                                module: m.module_name.clone(),
                                name: st.struct_name.clone(),
                                tys: Vec::new(),
                            },
                        ),
                    );
                    proof {
                        assert(is_struct_type(tag, *m, *st));
                        assert(pkgs[k as int].modules@[i as int].structs@[j as int] == *st);
                        assert(declared_with(pkgs, st.abilities, tag));
                    }
                    add_known_type(&mut map, st.abilities, tag, Ghost(pkgs));
                    proof {
                        let (e, x) = choose|e: int, x: int| 0 <= e < map@.len() && 0 <= x < map@[e].types@.len() && map@[e].abilities == st.abilities && tag_eq(#[trigger] map@[e].types@[x], tag);
                        lemma_struct_type_transfer(map@[e].types@[x], tag, *m, *st);
                        assert(struct_listed(map@, *m, *st));
                    }
                }
                proof {
                    assert forall|t: MoveTypeTag, ab: u8| #[trigger] is_builtin(ab, t) implies ability_listed(map@, ab, t) by {
                        assert(ability_listed(before, ab, t));
                    }
                    assert forall|kk: int, ii: int, jj: int|
                        0 <= kk < pkgs.len() && 0 <= ii < pkgs[kk].modules@.len() && 0 <= jj
                            < pkgs[kk].modules@[ii].structs@.len() && struct_before(k as int, i as int, j + 1, kk, ii, jj)
                            && (#[trigger] pkgs[kk].modules@[ii].structs@[jj]).type_parameters == 0
                        implies struct_listed(map@, pkgs[kk].modules@[ii], pkgs[kk].modules@[ii].structs@[jj]) by {
                        if struct_before(k as int, i as int, j as int, kk, ii, jj) {
                            assert(struct_listed(before, pkgs[kk].modules@[ii], pkgs[kk].modules@[ii].structs@[jj]));
                        }
                    }
                }
                j = j + 1;
            }
            proof {
                assert forall|kk: int, ii: int, jj: int|
                    0 <= kk < pkgs.len() && 0 <= ii < pkgs[kk].modules@.len() && 0 <= jj
                        < pkgs[kk].modules@[ii].structs@.len() && struct_before(k as int, i + 1, 0, kk, ii, jj)
                        && (#[trigger] pkgs[kk].modules@[ii].structs@[jj]).type_parameters == 0
                    implies struct_listed(map@, pkgs[kk].modules@[ii], pkgs[kk].modules@[ii].structs@[jj]) by {
                    assert(struct_before(k as int, i as int, m.structs@.len() as int, kk, ii, jj));
                }
            }
            i = i + 1;
        }
        proof {
            assert forall|kk: int, ii: int, jj: int|
                0 <= kk < pkgs.len() && 0 <= ii < pkgs[kk].modules@.len() && 0 <= jj
                    < pkgs[kk].modules@[ii].structs@.len() && struct_before(k + 1, 0, 0, kk, ii, jj)
                    && (#[trigger] pkgs[kk].modules@[ii].structs@[jj]).type_parameters == 0
                implies struct_listed(map@, pkgs[kk].modules@[ii], pkgs[kk].modules@[ii].structs@[jj]) by {
                assert(struct_before(k as int, pkg.modules@.len() as int, 0, kk, ii, jj));
            }
        }
        k = k + 1;
    }
    proof {
        let n = pkgs.len() as int;
        assert forall|kk: int, ii: int, jj: int|
            0 <= kk < pkgs.len() && 0 <= ii < pkgs[kk].modules@.len() && 0 <= jj
                < pkgs[kk].modules@[ii].structs@.len() && (#[trigger] pkgs[kk].modules@[ii].structs@[jj]).type_parameters
                == 0 implies struct_listed(map@, pkgs[kk].modules@[ii], pkgs[kk].modules@[ii].structs@[jj]) by {
            assert(struct_before(n, 0, 0, kk, ii, jj));
        }
    }
    map
}

/// A function by identity: module address, module name, function name.
#[derive(Debug, PartialEq, Eq)]
pub struct FunctionIdent {
    pub module_address: MoveAddress,
    pub module_name: String,
    pub name: String,
}

/// Whether `id` names function `f` of module `m`.
pub open spec fn names_function(id: FunctionIdent, m: MoveModuleAbi, f: FunctionAbi) -> bool {
    id.module_address == m.module_address && id.module_name@ == m.module_name@ && id.name@ == f.name@
}

/// Whether `index` lists, under its name, an identity of function `f` of module `m`.
pub open spec fn function_indexed(index: Seq<(String, Vec<FunctionIdent>)>, m: MoveModuleAbi, f: FunctionAbi) -> bool {
    exists|e: int, x: int|
        0 <= e < index.len() && 0 <= x < index[e].1@.len() && index[e].0@ == f.name@
            && names_function(#[trigger] index[e].1@[x], m, f)
}

/// Whether `id` names some function that a module of `pkgs` declares.
pub open spec fn declares_function(pkgs: Seq<MovePackageAbi>, id: FunctionIdent) -> bool {
    exists|k: int, i: int, j: int|
        0 <= k < pkgs.len() && 0 <= i < pkgs[k].modules@.len() && 0 <= j
            < pkgs[k].modules@[i].functions@.len() && names_function(
            id,
            pkgs[k].modules@[i],
            #[trigger] pkgs[k].modules@[i].functions@[j],
        )
}

/// `index` sends each function name (once) to the identities of the functions of
/// `pkgs` with that name.
pub open spec fn function_index_of(pkgs: Seq<MovePackageAbi>, index: Seq<(String, Vec<FunctionIdent>)>) -> bool {
    &&& forall|a: int, b: int|
        0 <= a < index.len() && 0 <= b < index.len() && a != b ==> (#[trigger] index[a]).0@
            != (#[trigger] index[b]).0@
    &&& forall|e: int, x: int|
        0 <= e < index.len() && 0 <= x < index[e].1@.len() ==> (#[trigger] index[e].1@[x]).name@
            == index[e].0@ && declares_function(pkgs, index[e].1@[x])
    &&& forall|k: int, i: int, j: int|
        0 <= k < pkgs.len() && 0 <= i < pkgs[k].modules@.len() && 0 <= j
            < pkgs[k].modules@[i].functions@.len() ==> function_indexed(
            index,
            pkgs[k].modules@[i],
            #[trigger] pkgs[k].modules@[i].functions@[j],
        )
}

/// Whether `index` lists exactly `id` under the name `key`.
spec fn ident_listed(index: Seq<(String, Vec<FunctionIdent>)>, key: Seq<char>, id: FunctionIdent) -> bool {
    exists|e: int, x: int|
        0 <= e < index.len() && 0 <= x < index[e].1@.len() && index[e].0@ == key && #[trigger] index[e].1@[x] == id
}

spec fn function_index_sound(pkgs: Seq<MovePackageAbi>, index: Seq<(String, Vec<FunctionIdent>)>) -> bool {
    &&& forall|a: int, b: int|
        0 <= a < index.len() && 0 <= b < index.len() && a != b ==> (#[trigger] index[a]).0@
            != (#[trigger] index[b]).0@
    &&& forall|e: int, x: int|
        0 <= e < index.len() && 0 <= x < index[e].1@.len() ==> (#[trigger] index[e].1@[x]).name@
            == index[e].0@ && declares_function(pkgs, index[e].1@[x])
}

/// Adds `id` under its name, keeping one entry per name and every identity
/// already listed.
fn add_function_ident(index: &mut Vec<(String, Vec<FunctionIdent>)>, id: FunctionIdent, Ghost(pkgs): Ghost<Seq<MovePackageAbi>>)
    requires
        function_index_sound(pkgs, old(index)@),
        declares_function(pkgs, id),
    ensures
        function_index_sound(pkgs, final(index)@),
        ident_listed(final(index)@, id.name@, id),
        forall|e: int, x: int|
            0 <= e < old(index)@.len() && 0 <= x < old(index)@[e].1@.len() ==> ident_listed(
                final(index)@,
                old(index)@[e].0@,
                #[trigger] old(index)@[e].1@[x],
            ),
{
    let mut e: usize = 0;
    while e < index.len()
        invariant
            e <= index@.len(),
            forall|k: int| 0 <= k < e ==> (#[trigger] index@[k]).0@ != id.name@,
        ensures
            e <= index@.len(),
            forall|k: int| 0 <= k < e ==> (#[trigger] index@[k]).0@ != id.name@,
            e < index@.len() ==> index@[e as int].0@ == id.name@,
        decreases index@.len() - e,
    {
        if index[e].0 == id.name {
            break;
        }
        e = e + 1;
    }
    let ghost before = index@;
    let ghost idg = id;
    if e < index.len() {
        let mut entry = index.remove(e);
        let ghost old_ids = entry.1@;
        entry.1.push(id);
        index.insert(e, entry);
        proof {
            let m = index@;
            assert forall|k: int| 0 <= k < m.len() && k != e implies #[trigger] m[k] == before[k] by {}
            assert(m[e as int].1@ == old_ids.push(idg));
            assert(m[e as int].1@[old_ids.len() as int] == idg);
            assert forall|e3: int, x: int|
                0 <= e3 < before.len() && 0 <= x < before[e3].1@.len() implies ident_listed(
                    m,
                    before[e3].0@,
                    #[trigger] before[e3].1@[x],
                ) by {
                if e3 == e {
                    assert(m[e3].1@[x] == before[e3].1@[x]);
                } else {
                    assert(m[e3] == before[e3]);
                }
            }
            assert forall|e3: int, x: int|
                0 <= e3 < m.len() && 0 <= x < m[e3].1@.len() implies (#[trigger] m[e3].1@[x]).name@
                    == m[e3].0@ && declares_function(pkgs, m[e3].1@[x]) by {
                if e3 == e {
                    if x < old_ids.len() {
                        assert(m[e3].1@[x] == before[e3].1@[x]);
                    }
                } else {
                    assert(m[e3] == before[e3]);
                }
            }
            assert forall|a: int, b: int|
                0 <= a < m.len() && 0 <= b < m.len() && a != b implies (#[trigger] m[a]).0@
                    != (#[trigger] m[b]).0@ by {
                assert(m[a].0@ == before[a].0@);
                assert(m[b].0@ == before[b].0@);
            }
        }
    } else {
        let name = id.name.clone();
        let mut ids: Vec<FunctionIdent> = Vec::new();
        ids.push(id);
        index.push((name, ids));
        proof {
            let m = index@;
            assert(m[before.len() as int].1@[0] == idg);
            assert forall|e3: int, x: int|
                0 <= e3 < before.len() && 0 <= x < before[e3].1@.len() implies ident_listed(
                    m,
                    before[e3].0@,
                    #[trigger] before[e3].1@[x],
                ) by {
                assert(m[e3] == before[e3]);
            }
            assert forall|e3: int, x: int|
                0 <= e3 < m.len() && 0 <= x < m[e3].1@.len() implies (#[trigger] m[e3].1@[x]).name@
                    == m[e3].0@ && declares_function(pkgs, m[e3].1@[x]) by {
                if e3 < before.len() {
                    assert(m[e3] == before[e3]);
                }
            }
        }
    }
}

proof fn lemma_indexed_kept(
    before: Seq<(String, Vec<FunctionIdent>)>,
    after: Seq<(String, Vec<FunctionIdent>)>,
    m: MoveModuleAbi,
    f: FunctionAbi,
)
    requires
        function_indexed(before, m, f),
        forall|e: int, x: int|
            0 <= e < before.len() && 0 <= x < before[e].1@.len() ==> ident_listed(
                after,
                before[e].0@,
                #[trigger] before[e].1@[x],
            ),
    ensures
        function_indexed(after, m, f),
{
    let (e, x) = choose|e: int, x: int|
        0 <= e < before.len() && 0 <= x < before[e].1@.len() && before[e].0@ == f.name@
            && names_function(#[trigger] before[e].1@[x], m, f);
    assert(ident_listed(after, before[e].0@, before[e].1@[x]));
    let (e2, x2) = choose|e2: int, x2: int|
        0 <= e2 < after.len() && 0 <= x2 < after[e2].1@.len() && after[e2].0@ == before[e].0@ && #[trigger] after[e2].1@[x2] == before[e].1@[x];
    assert(names_function(after[e2].1@[x2], m, f));
}

spec fn fn_before(k: int, i: int, j: int, kk: int, ii: int, jj: int) -> bool {
    kk < k || (kk == k && ii < i) || (kk == k && ii == i && jj < j)
}

spec fn function_index_inv(pkgs: Seq<MovePackageAbi>, index: Seq<(String, Vec<FunctionIdent>)>, k: int, i: int, j: int) -> bool {
    &&& function_index_sound(pkgs, index)
    &&& forall|kk: int, ii: int, jj: int|
        0 <= kk < pkgs.len() && 0 <= ii < pkgs[kk].modules@.len() && 0 <= jj
            < pkgs[kk].modules@[ii].functions@.len() && fn_before(k, i, j, kk, ii, jj)
            ==> function_indexed(index, pkgs[kk].modules@[ii], #[trigger] pkgs[kk].modules@[ii].functions@[jj])
}

/// For each function name, the identities of the functions of `packages` that have
/// it, in declaration order.
pub fn build_function_index(packages: &Vec<MovePackageAbi>) -> (r: Vec<(String, Vec<FunctionIdent>)>)
    ensures
        function_index_of(packages@, r@),
{
    let ghost pkgs = packages@;
    let mut index: Vec<(String, Vec<FunctionIdent>)> = Vec::new();
    let mut k: usize = 0;
    while k < packages.len()
        invariant
            k <= pkgs.len(),
            pkgs == packages@,
            function_index_inv(pkgs, index@, k as int, 0, 0),
        decreases pkgs.len() - k,
    {
        let pkg = &packages[k];
        let mut i: usize = 0;
        while i < pkg.modules.len()
            invariant
                k < pkgs.len(),
                i <= pkg.modules@.len(),
                pkgs == packages@,
                *pkg == pkgs[k as int],
                function_index_inv(pkgs, index@, k as int, i as int, 0),
            decreases pkg.modules@.len() - i,
        {
            let m = &pkg.modules[i];
            let mut j: usize = 0;
            while j < m.functions.len()
                invariant
                    k < pkgs.len(),
                    i < pkg.modules@.len(),
                    j <= m.functions@.len(),
                    pkgs == packages@,
                    *pkg == pkgs[k as int],
                    *m == pkgs[k as int].modules@[i as int],
                    function_index_inv(pkgs, index@, k as int, i as int, j as int),
                decreases m.functions@.len() - j,
            {
                let f = &m.functions[j];
                let ghost before = index@;
                let id = FunctionIdent {
                    module_address: m.module_address,
                    module_name: m.module_name.clone(),
                    name: f.name.clone(),
                };
                proof {
                    assert(names_function(id, *m, *f));
                    assert(pkgs[k as int].modules@[i as int].functions@[j as int] == *f);
                    assert(declares_function(pkgs, id));
                }
                let ghost idg = id;
                add_function_ident(&mut index, id, Ghost(pkgs));
                proof {
                    let (e, x) = choose|e: int, x: int| 0 <= e < index@.len() && 0 <= x < index@[e].1@.len() && index@[e].0@ == idg.name@ && #[trigger] index@[e].1@[x] == idg;
                    assert(function_indexed(index@, *m, *f));
                    assert forall|kk: int, ii: int, jj: int|
                        0 <= kk < pkgs.len() && 0 <= ii < pkgs[kk].modules@.len() && 0 <= jj
                            < pkgs[kk].modules@[ii].functions@.len() && fn_before(k as int, i as int, j + 1, kk, ii, jj)
                        implies function_indexed(index@, pkgs[kk].modules@[ii], #[trigger] pkgs[kk].modules@[ii].functions@[jj]) by {
                        if fn_before(k as int, i as int, j as int, kk, ii, jj) {
                            lemma_indexed_kept(before, index@, pkgs[kk].modules@[ii], pkgs[kk].modules@[ii].functions@[jj]);
                        }
                    }
                }
                j = j + 1;
            }
            proof {
                assert forall|kk: int, ii: int, jj: int|
                    0 <= kk < pkgs.len() && 0 <= ii < pkgs[kk].modules@.len() && 0 <= jj
                        < pkgs[kk].modules@[ii].functions@.len() && fn_before(k as int, i + 1, 0, kk, ii, jj)
                    implies function_indexed(index@, pkgs[kk].modules@[ii], #[trigger] pkgs[kk].modules@[ii].functions@[jj]) by {
                    assert(fn_before(k as int, i as int, m.functions@.len() as int, kk, ii, jj));
                }
            }
            i = i + 1;
        }
        proof {
            assert forall|kk: int, ii: int, jj: int|
                0 <= kk < pkgs.len() && 0 <= ii < pkgs[kk].modules@.len() && 0 <= jj
                    < pkgs[kk].modules@[ii].functions@.len() && fn_before(k + 1, 0, 0, kk, ii, jj)
                implies function_indexed(index@, pkgs[kk].modules@[ii], #[trigger] pkgs[kk].modules@[ii].functions@[jj]) by {
                assert(fn_before(k as int, pkg.modules@.len() as int, 0, kk, ii, jj));
            }
        }
        k = k + 1;
    }
    proof {
        let n = pkgs.len() as int;
        assert forall|kk: int, ii: int, jj: int|
            0 <= kk < pkgs.len() && 0 <= ii < pkgs[kk].modules@.len() && 0 <= jj
                < pkgs[kk].modules@[ii].functions@.len() implies function_indexed(
                index@,
                pkgs[kk].modules@[ii],
                #[trigger] pkgs[kk].modules@[ii].functions@[jj],
            ) by {
            assert(fn_before(n, 0, 0, kk, ii, jj));
        }
    }
    index
}

/// The index built once before fuzzing and only read afterwards.
pub struct Metadata {
    pub abis: Vec<MovePackageAbi>,
    pub types_pool: Vec<TypePoolEntry>,
    pub module_address_to_package: Vec<(MoveAddress, MoveAddress)>,
    pub ability_to_type_tag: Vec<AbilityEntry>,
    pub function_name_to_idents: Vec<(String, Vec<FunctionIdent>)>,
}

/// Whether some package of `pkgs` has id `id`.
pub open spec fn has_package(pkgs: Seq<MovePackageAbi>, id: MoveAddress) -> bool {
    exists|k: int| 0 <= k < pkgs.len() && (#[trigger] pkgs[k]).package_id == id
}

/// `testing` with each package of `local` in place of the one with its id.
pub fn merge_abis(testing: Vec<MovePackageAbi>, local: Vec<MovePackageAbi>) -> (r: Vec<MovePackageAbi>)
    ensures
        forall|k: int| 0 <= k < r@.len() ==> testing@.contains(#[trigger] r@[k]) || local@.contains(r@[k]),
        forall|k: int| 0 <= k < testing@.len() && !has_package(local@, testing@[k].package_id) ==> r@.contains(#[trigger] testing@[k]),
        forall|k: int| 0 <= k < local@.len() ==> has_package(r@, (#[trigger] local@[k]).package_id),
{
    let ghost t0 = testing@;
    let ghost l0 = local@;
    let mut abis = testing;
    let mut rest = local;
    let ghost taken: Seq<MovePackageAbi> = seq![];
    while rest.len() > 0
        invariant
            l0 == taken + rest@,
            forall|k: int| 0 <= k < abis@.len() ==> t0.contains(#[trigger] abis@[k]) || l0.contains(abis@[k]),
            forall|k: int| 0 <= k < t0.len() && !has_package(taken, t0[k].package_id) ==> abis@.contains(#[trigger] t0[k]),
            forall|k: int| 0 <= k < taken.len() ==> has_package(abis@, (#[trigger] taken[k]).package_id),
        decreases rest@.len(),
    {
        let ghost before = abis@;
        let ghost rest0 = rest@;
        let pkg = rest.remove(0);
        let ghost pkg_g = pkg;
        let id = pkg.package_id;
        let mut k: usize = 0;
        let mut found = false;
        while k < abis.len()
            invariant_except_break
                !found,
            invariant
                k <= abis@.len(),
                abis@ == before,
                forall|j: int| 0 <= j < k ==> (#[trigger] abis@[j]).package_id != id,
            ensures
                abis@ == before,
                found ==> k < abis@.len() && abis@[k as int].package_id == id,
                !found ==> forall|j: int| 0 <= j < abis@.len() ==> (#[trigger] abis@[j]).package_id != id,
            decreases abis@.len() - k,
        {
            if abis[k].package_id == id {
                found = true;
                break;
            }
            k = k + 1;
        }
        proof {
            assert(rest0[0] == pkg_g);
            assert(l0.contains(pkg_g)) by {
                assert(l0[taken.len() as int] == pkg_g);
            }
        }
        if found && k < abis.len() {
            let ghost old_k = abis@[k as int];
            abis.set(k, pkg);
            proof {
                assert forall|j: int| 0 <= j < t0.len() && !has_package(taken.push(pkg_g), t0[j].package_id) implies abis@.contains(#[trigger] t0[j]) by {
                    assert(!has_package(taken, t0[j].package_id)) by {
                        if has_package(taken, t0[j].package_id) {
                            let w = choose|w: int| 0 <= w < taken.len() && (#[trigger] taken[w]).package_id == t0[j].package_id;
                            assert(taken.push(pkg_g)[w] == taken[w]);
                        }
                    }
                    let w = choose|w: int| 0 <= w < before.len() && before[w] == t0[j];
                    if w == k {
                        assert(taken.push(pkg_g)[taken.len() as int] == pkg_g);
                        assert(pkg_g.package_id == id);
                        assert(has_package(taken.push(pkg_g), t0[j].package_id));
                    } else {
                        assert(abis@[w] == t0[j]);
                    }
                }
                assert forall|j: int| 0 <= j < taken.push(pkg_g).len() implies has_package(abis@, (#[trigger] taken.push(pkg_g)[j]).package_id) by {
                    if j < taken.len() {
                        assert(taken.push(pkg_g)[j] == taken[j]);
                        let w = choose|w: int| 0 <= w < before.len() && (#[trigger] before[w]).package_id == taken[j].package_id;
                        if w == k {
                            assert(pkg_g.package_id == id);
                            assert(abis@[k as int].package_id == taken[j].package_id);
                        } else {
                            assert(abis@[w] == before[w]);
                        }
                    } else {
                        assert(abis@[k as int] == pkg_g);
                    }
                }
                assert forall|j: int| 0 <= j < abis@.len() implies t0.contains(#[trigger] abis@[j]) || l0.contains(abis@[j]) by {
                    if j != k {
                        assert(abis@[j] == before[j]);
                    }
                }
            }
        } else {
            abis.push(pkg);
            proof {
                assert forall|j: int| 0 <= j < t0.len() && !has_package(taken.push(pkg_g), t0[j].package_id) implies abis@.contains(#[trigger] t0[j]) by {
                    assert(!has_package(taken, t0[j].package_id)) by {
                        if has_package(taken, t0[j].package_id) {
                            let w = choose|w: int| 0 <= w < taken.len() && (#[trigger] taken[w]).package_id == t0[j].package_id;
                            assert(taken.push(pkg_g)[w] == taken[w]);
                        }
                    }
                    let w = choose|w: int| 0 <= w < before.len() && before[w] == t0[j];
                    assert(abis@[w] == t0[j]);
                }
                assert forall|j: int| 0 <= j < taken.push(pkg_g).len() implies has_package(abis@, (#[trigger] taken.push(pkg_g)[j]).package_id) by {
                    if j < taken.len() {
                        assert(taken.push(pkg_g)[j] == taken[j]);
                        let w = choose|w: int| 0 <= w < before.len() && (#[trigger] before[w]).package_id == taken[j].package_id;
                        assert(abis@[w] == before[w]);
                    } else {
                        assert(abis@[before.len() as int] == pkg_g);
                    }
                }
                assert forall|j: int| 0 <= j < abis@.len() implies t0.contains(#[trigger] abis@[j]) || l0.contains(abis@[j]) by {
                    if j < before.len() {
                        assert(abis@[j] == before[j]);
                    }
                }
            }
        }
        proof {
            taken = taken.push(pkg_g);
            assert(l0 =~= taken + rest@);
        }
    }
    proof {
        assert(taken =~= l0);
    }
    abis
}

impl Metadata {
    /// Builds the index from the packages of the testing environment, local
    /// packages that replace those with their ids, and the objects `(id, type)` that
    /// exist: module addresses resolve to their newest package, each set of
    /// abilities lists its concrete types, each function name of the testing packages
    /// lists the functions that have it, and the types pool groups the objects by
    /// type, then keeps the types in `include_types` and not in `exclude_types`.
    pub fn build(
        testing_abis: Vec<MovePackageAbi>,
        local_abis: Vec<MovePackageAbi>,
        objects: &Vec<(MoveAddress, MoveTypeTag)>,
        include_types: Option<&Vec<MoveTypeTag>>,
        exclude_types: Option<&Vec<MoveTypeTag>>,
    ) -> (r: Metadata)
        ensures
            forall|k: int| 0 <= k < r.abis@.len() ==> testing_abis@.contains(#[trigger] r.abis@[k]) || local_abis@.contains(r.abis@[k]),
            forall|k: int| 0 <= k < testing_abis@.len() && !has_package(local_abis@, testing_abis@[k].package_id) ==> r.abis@.contains(#[trigger] testing_abis@[k]),
            forall|k: int| 0 <= k < local_abis@.len() ==> has_package(r.abis@, (#[trigger] local_abis@[k]).package_id),
            module_map_of(r.abis@, r.module_address_to_package@),
            ability_map_of(r.abis@, r.ability_to_type_tag@),
            function_index_of(testing_abis@, r.function_name_to_idents@),
            exists|pool: Seq<TypePoolEntry>| pool_of(objects@, pool) && r.types_pool@ == pool_kept(
                pool,
                match include_types {
                    Some(v) => Some(v@),
                    None => None,
                },
                match exclude_types {
                    Some(v) => Some(v@),
                    None => None,
                },
            ),
    {
        let function_name_to_idents = build_function_index(&testing_abis);
        let abis = merge_abis(testing_abis, local_abis);
        let module_address_to_package = resolve_module_packages(&abis);
        let ability_to_type_tag = build_ability_map(&abis);
        let pool = build_types_pool(objects);
        let ghost pool_g = pool@;
        let types_pool = filter_types_pool(pool, include_types, exclude_types);
        Metadata { abis, types_pool, module_address_to_package, ability_to_type_tag, function_name_to_idents }
    }

    /// The first package of `abis` whose id is the one that `package_id` resolves to
    /// through the module map (itself when it has no entry there).
    pub fn get_package_metadata(&self, package_id: &MoveAddress) -> (r: Option<&MovePackageAbi>)
        requires
            keys_unique(self.module_address_to_package@),
        ensures
            r is None <==> forall|k: int|
                0 <= k < self.abis@.len() ==> (#[trigger] self.abis@[k]).package_id != resolved_package(
                    self.module_address_to_package@,
                    *package_id,
                ),
            r is Some ==> exists|k: int|
                0 <= k < self.abis@.len() && self.abis@[k] == *r->Some_0 && self.abis@[k].package_id
                    == resolved_package(self.module_address_to_package@, *package_id) && forall|j: int|
                    0 <= j < k ==> (#[trigger] self.abis@[j]).package_id != resolved_package(
                        self.module_address_to_package@,
                        *package_id,
                    ),
    {
        let r = get_package_metadata(&self.abis, &self.module_address_to_package, *package_id);
        proof {
            if r is Some {
                let k = choose|k: int| 0 <= k < self.abis@.len() && self.abis@[k] == *r->Some_0 && self.abis@[k].package_id == resolved_package(self.module_address_to_package@, *package_id) && forall|j: int| 0 <= j < k ==> (#[trigger] self.abis@[j]).package_id != resolved_package(self.module_address_to_package@, *package_id);
            }
        }
        r
    }
}

} // verus!
