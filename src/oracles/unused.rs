//! Static checks over a module's definitions: constants, structs and enums, and
//! private or friend functions that nothing uses.

use super::finding::{OracleFinding, Severity};
use crate::value::MoveAddress;
use vstd::prelude::*;

verus! {

/// Visibility of a function definition.
#[derive(Clone, Copy, Debug, PartialEq, Eq, Structural)]
pub enum Visibility {
    Private,
    Public,
    Friend,
}

/// One instruction of a compiled function, as far as these checks read it; indices
/// point into the module's tables.
#[derive(Clone, Copy, Debug, PartialEq, Eq, Structural)]
pub enum FileBytecode {
    LdConst(u16),
    Call(u16),
    CallGeneric(u16),
    Pack(u16),
    PackGeneric(u16),
    PackVariant(u16),
    PackVariantGeneric(u16),
    Other,
}

/// A function that a module can call: its module and name.
#[derive(Debug, PartialEq, Eq)]
pub struct FunctionHandle {
    pub module_address: MoveAddress,
    pub module_name: String,
    pub name: String,
}

/// A function definition: its handle, visibility, entry flag, the datatype handles
/// of its parameters, and its code unless it is native.
#[derive(Debug, PartialEq, Eq)]
pub struct FileFunction {
    pub handle: u16,
    pub visibility: Visibility,
    pub is_entry: bool,
    pub parameter_datatypes: Vec<u16>,
    pub code: Option<Vec<FileBytecode>>,
}

/// A compiled module, as far as these checks read it.
#[derive(Debug, PartialEq, Eq)]
pub struct FileModule {
    pub address: MoveAddress,
    pub name: String,
    /// Each constant, rendered as text.
    pub constants: Vec<String>,
    /// For each struct definition, its datatype handle.
    pub struct_defs: Vec<u16>,
    pub enum_count: usize,
    pub function_handles: Vec<FunctionHandle>,
    /// For each generic function instantiation, its function handle.
    pub function_instantiations: Vec<u16>,
    /// For each generic struct instantiation, its struct definition.
    pub struct_instantiations: Vec<u16>,
    /// For each variant handle, its enum definition.
    pub variant_handles: Vec<u16>,
    /// For each generic variant instantiation handle, its enum definition.
    pub variant_instantiations: Vec<u16>,
    pub functions: Vec<FileFunction>,
}

/// Whether instruction `o` of function `f` of `m` loads constant `i`.
pub open spec fn loads_const(m: FileModule, f: int, o: int, i: int) -> bool {
    &&& 0 <= f < m.functions@.len()
    &&& m.functions@[f].code is Some
    &&& 0 <= o < m.functions@[f].code->Some_0@.len()
    &&& m.functions@[f].code->Some_0@[o] == FileBytecode::LdConst(i as u16)
    &&& 0 <= i < 0x10000
}

/// Whether some instruction of `m` loads constant `i`.
pub open spec fn const_used(m: FileModule, i: int) -> bool {
    exists|f: int, o: int| #[trigger] loads_const(m, f, o, i)
}

/// The positions of the constants of `m` that no instruction loads, in order.
pub fn unused_constants(m: &FileModule) -> (r: Vec<usize>)
    requires
        m.constants@.len() <= 0x10000,
    ensures
        r@.map_values(|i: usize| i as int) == unused_below(|i: int| const_used(*m, i), m.constants@.len() as int),
{
    let n = m.constants.len();
    let mut visited: Vec<bool> = Vec::new();
    while visited.len() < n
        invariant
            visited@.len() <= n,
            forall|i: int| 0 <= i < visited@.len() ==> !visited@[i],
        decreases n - visited@.len(),
    {
        visited.push(false);
    }
    let mut f: usize = 0;
    while f < m.functions.len()
        invariant
            f <= m.functions@.len(),
            visited@.len() == n,
            n == m.constants@.len(),
            n <= 0x10000,
            forall|i: int|
                0 <= i < n ==> (visited@[i] <==> exists|ff: int, o: int| ff < f && #[trigger] loads_const(*m, ff, o, i)),
        decreases m.functions@.len() - f,
    {
        match &m.functions[f].code {
            Some(code) => {
                let mut o: usize = 0;
                while o < code.len()
                    invariant
                        f < m.functions@.len(),
                        m.functions@[f as int].code == Some(*code),
                        o <= code@.len(),
                        visited@.len() == n,
                        n == m.constants@.len(),
                        n <= 0x10000,
                        forall|i: int|
                            0 <= i < n ==> (visited@[i] <==> (exists|ff: int, oo: int| ff < f && #[trigger] loads_const(*m, ff, oo, i))
                                || exists|oo: int| oo < o && #[trigger] loads_const(*m, f as int, oo, i)),
                    decreases code@.len() - o,
                {
                    let ghost before = visited@;
                    match code[o] {
                        FileBytecode::LdConst(idx) => {
                            if (idx as usize) < n {
                                visited.set(idx as usize, true);
                            }
                        },
                        _ => {},
                    }
                    proof {
                        assert forall|i: int| 0 <= i < n implies (visited@[i] <==> (exists|ff: int, oo: int| ff < f && #[trigger] loads_const(*m, ff, oo, i))
                            || exists|oo: int| oo < o + 1 && #[trigger] loads_const(*m, f as int, oo, i)) by {
                            if loads_const(*m, f as int, o as int, i) {
                                assert(code@[o as int] == FileBytecode::LdConst(i as u16));
                            }
                            if exists|oo: int| oo < o + 1 && #[trigger] loads_const(*m, f as int, oo, i) {
                                let oo = choose|oo: int| oo < o + 1 && #[trigger] loads_const(*m, f as int, oo, i);
                                if oo < o {
                                    assert(before[i]);
                                }
                            }
                        }
                    }
                    o = o + 1;
                }
                proof {
                    assert forall|i: int| 0 <= i < n implies (visited@[i] <==> exists|ff: int, oo: int| ff < f + 1 && #[trigger] loads_const(*m, ff, oo, i)) by {
                        if exists|ff: int, oo: int| ff < f + 1 && #[trigger] loads_const(*m, ff, oo, i) {
                            let (ff, oo) = choose|ff: int, oo: int| ff < f + 1 && #[trigger] loads_const(*m, ff, oo, i);
                            if ff == f {
                                assert(oo < o);
                            }
                        }
                    }
                }
            },
            None => {
                proof {
                    assert forall|i: int| 0 <= i < n implies (visited@[i] <==> exists|ff: int, oo: int| ff < f + 1 && #[trigger] loads_const(*m, ff, oo, i)) by {
                        if exists|ff: int, oo: int| ff < f + 1 && #[trigger] loads_const(*m, ff, oo, i) {
                            let (ff, oo) = choose|ff: int, oo: int| ff < f + 1 && #[trigger] loads_const(*m, ff, oo, i);
                        }
                    }
                }
            },
        }
        f = f + 1;
    }
    let mut out: Vec<usize> = Vec::new();
    let mut i: usize = 0;
    while i < n
        invariant
            i <= n,
            visited@.len() == n,
            n == m.constants@.len(),
            forall|k: int| 0 <= k < n ==> (visited@[k] <==> const_used(*m, k)),
            out@.map_values(|x: usize| x as int) == unused_below(|i: int| const_used(*m, i), i as int),
        decreases n - i,
    {
        let ghost prev = out@;
        if !visited[i] {
            out.push(i);
            proof {
                assert(out@.map_values(|x: usize| x as int) =~= prev.map_values(|x: usize| x as int).push(i as int));
            }
        }
        i = i + 1;
    }
    out
}

/// Whether parameter `p` of function `f` has the type of struct definition `i`
/// (the first definition with that handle).
pub open spec fn param_marks(m: FileModule, f: int, p: int, i: int) -> bool {
    &&& 0 <= f < m.functions@.len()
    &&& 0 <= p < m.functions@[f].parameter_datatypes@.len()
    &&& 0 <= i < m.struct_defs@.len()
    &&& m.functions@[f].parameter_datatypes@[p] == m.struct_defs@[i]
    &&& forall|k: int| 0 <= k < i ==> #[trigger] m.struct_defs@[k] != m.struct_defs@[i]
}

/// Whether instruction `o` of function `f` packs struct definition `i`.
pub open spec fn packs_struct(m: FileModule, f: int, o: int, i: int) -> bool {
    &&& 0 <= f < m.functions@.len()
    &&& m.functions@[f].code is Some
    &&& 0 <= o < m.functions@[f].code->Some_0@.len()
    &&& 0 <= i < m.struct_defs@.len()
    &&& match m.functions@[f].code->Some_0@[o] {
        FileBytecode::Pack(idx) => idx == i,
        FileBytecode::PackGeneric(idx) => idx < m.struct_instantiations@.len()
            && m.struct_instantiations@[idx as int] == i,
        _ => false,
    }
}

/// Whether instruction `o` of function `f` packs a variant of enum definition `i`.
pub open spec fn packs_enum(m: FileModule, f: int, o: int, i: int) -> bool {
    &&& 0 <= f < m.functions@.len()
    &&& m.functions@[f].code is Some
    &&& 0 <= o < m.functions@[f].code->Some_0@.len()
    &&& 0 <= i < m.enum_count
    &&& match m.functions@[f].code->Some_0@[o] {
        FileBytecode::PackVariant(idx) => idx < m.variant_handles@.len()
            && m.variant_handles@[idx as int] == i,
        FileBytecode::PackVariantGeneric(idx) => idx < m.variant_instantiations@.len()
            && m.variant_instantiations@[idx as int] == i,
        _ => false,
    }
}

/// Whether function `f` uses struct definition `i`: as a parameter type or by
/// packing it.
pub open spec fn fn_uses_struct(m: FileModule, f: int, i: int) -> bool {
    (exists|p: int| #[trigger] param_marks(m, f, p, i)) || (exists|o: int| #[trigger] packs_struct(m, f, o, i))
}

/// Whether function `f` packs a variant of enum definition `i`.
pub open spec fn fn_uses_enum(m: FileModule, f: int, i: int) -> bool {
    exists|o: int| #[trigger] packs_enum(m, f, o, i)
}

/// Every position that `unused_below` lists is below `n`.
pub proof fn lemma_unused_below_bounds(used: spec_fn(int) -> bool, n: int)
    ensures
        forall|k: int| 0 <= k < unused_below(used, n).len() ==> 0 <= #[trigger] unused_below(used, n)[k] < n,
    decreases n,
{
    if n > 0 {
        lemma_unused_below_bounds(used, n - 1);
        let prev = unused_below(used, n - 1);
        if !used(n - 1) {
            assert forall|k: int| 0 <= k < unused_below(used, n).len() implies 0 <= #[trigger] unused_below(used, n)[k] < n by {
                if k < prev.len() {
                    assert(unused_below(used, n)[k] == prev[k]);
                }
            }
        }
    }
}

/// The positions below `n` that `used` does not hold of, in order.
pub open spec fn unused_below(used: spec_fn(int) -> bool, n: int) -> Seq<int>
    decreases n,
{
    if n <= 0 {
        seq![]
    } else if used(n - 1) {
        unused_below(used, n - 1)
    } else {
        unused_below(used, n - 1).push(n - 1)
    }
}

/// Whether some function of `m` uses struct definition `i`.
pub open spec fn struct_used(m: FileModule, i: int) -> bool {
    exists|f: int| 0 <= f < m.functions@.len() && #[trigger] fn_uses_struct(m, f, i)
}

/// Whether some function of `m` packs a variant of enum definition `i`.
pub open spec fn enum_used(m: FileModule, i: int) -> bool {
    exists|f: int| 0 <= f < m.functions@.len() && #[trigger] fn_uses_enum(m, f, i)
}

/// The positions below `n` at which `flags` is false, in order.
fn collect_unmarked(flags: &Vec<bool>, Ghost(used): Ghost<spec_fn(int) -> bool>) -> (r: Vec<usize>)
    requires
        forall|k: int| 0 <= k < flags@.len() ==> (flags@[k] <==> used(k)),
    ensures
        r@.map_values(|x: usize| x as int) == unused_below(used, flags@.len() as int),
{
    let mut out: Vec<usize> = Vec::new();
    let mut i: usize = 0;
    while i < flags.len()
        invariant
            i <= flags@.len(),
            forall|k: int| 0 <= k < flags@.len() ==> (flags@[k] <==> used(k)),
            out@.map_values(|x: usize| x as int) == unused_below(used, i as int),
        decreases flags@.len() - i,
    {
        let ghost prev = out@;
        if !flags[i] {
            out.push(i);
            proof {
                assert(out@.map_values(|x: usize| x as int) =~= prev.map_values(|x: usize| x as int).push(i as int));
            }
        }
        i = i + 1;
    }
    out
}

fn falses(n: usize) -> (r: Vec<bool>)
    ensures
        r@.len() == n,
        forall|i: int| 0 <= i < n ==> !r@[i],
{
    let mut v: Vec<bool> = Vec::new();
    while v.len() < n
        invariant
            v@.len() <= n,
            forall|i: int| 0 <= i < v@.len() ==> !v@[i],
        decreases n - v@.len(),
    {
        v.push(false);
    }
    v
}

/// The first struct definition of `m` with datatype handle `h`.
fn struct_def_of_handle(m: &FileModule, h: u16) -> (r: Option<usize>)
    ensures
        r is Some ==> r->Some_0 < m.struct_defs@.len() && m.struct_defs@[r->Some_0 as int] == h
            && forall|k: int| 0 <= k < r->Some_0 ==> #[trigger] m.struct_defs@[k] != h,
        r is None ==> forall|k: int| 0 <= k < m.struct_defs@.len() ==> #[trigger] m.struct_defs@[k] != h,
{
    let mut k: usize = 0;
    while k < m.struct_defs.len()
        invariant
            k <= m.struct_defs@.len(),
            forall|j: int| 0 <= j < k ==> #[trigger] m.struct_defs@[j] != h,
        decreases m.struct_defs@.len() - k,
    {
        if m.struct_defs[k] == h {
            return Some(k);
        }
        k = k + 1;
    }
    None
}

/// The struct definitions and the enum definitions of `m` that no function uses:
/// a struct is used when it is a parameter type or is packed, an enum when one of
/// its variants is packed.
#[verifier::spinoff_prover]
pub fn unused_datatypes(m: &FileModule) -> (r: (Vec<usize>, Vec<usize>))
    ensures
        r.0@.map_values(|x: usize| x as int) == unused_below(|i: int| struct_used(*m, i), m.struct_defs@.len() as int),
        r.1@.map_values(|x: usize| x as int) == unused_below(|i: int| enum_used(*m, i), m.enum_count as int),
{
    let ns = m.struct_defs.len();
    let ne = m.enum_count;
    let mut structs = falses(ns);
    let mut enums = falses(ne);
    let mut f: usize = 0;
    while f < m.functions.len()
        invariant
            f <= m.functions@.len(),
            structs@.len() == ns == m.struct_defs@.len(),
            enums@.len() == ne == m.enum_count,
            forall|i: int| 0 <= i < ns ==> (structs@[i] <==> exists|ff: int| 0 <= ff < f && #[trigger] fn_uses_struct(*m, ff, i)),
            forall|i: int| 0 <= i < ne ==> (enums@[i] <==> exists|ff: int| 0 <= ff < f && #[trigger] fn_uses_enum(*m, ff, i)),
        decreases m.functions@.len() - f,
    {
        let fun = &m.functions[f];
        let ghost s0 = structs@;
        let mut p: usize = 0;
        while p < fun.parameter_datatypes.len()
            invariant
                f < m.functions@.len(),
                *fun == m.functions@[f as int],
                p <= fun.parameter_datatypes@.len(),
                structs@.len() == ns == m.struct_defs@.len(),
                s0.len() == ns,
                forall|i: int| 0 <= i < ns ==> (structs@[i] <==> (s0[i] || exists|pp: int| pp < p && #[trigger] param_marks(*m, f as int, pp, i))),
            decreases fun.parameter_datatypes@.len() - p,
        {
            let ghost before = structs@;
            assert(forall|i: int| 0 <= i < ns ==> (before[i] <==> (s0[i] || exists|pp: int| pp < p && #[trigger] param_marks(*m, f as int, pp, i))));
            match struct_def_of_handle(m, fun.parameter_datatypes[p]) {
                Some(sid) => {
                    structs.set(sid, true);
                },
                None => {},
            }
            proof {
                assert forall|i: int| 0 <= i < ns implies (structs@[i] <==> (s0[i] || exists|pp: int| pp < p + 1 && #[trigger] param_marks(*m, f as int, pp, i))) by {
                    if exists|pp: int| pp < p + 1 && #[trigger] param_marks(*m, f as int, pp, i) {
                        let pp = choose|pp: int| pp < p + 1 && #[trigger] param_marks(*m, f as int, pp, i);
                        if pp == p {
                            assert(m.struct_defs@[i] == fun.parameter_datatypes@[p as int]);
                        } else {
                            assert(exists|q: int| q < p && #[trigger] param_marks(*m, f as int, q, i));
                            assert(before[i]);
                        }
                    }
                    if structs@[i] && !before[i] {
                        assert(param_marks(*m, f as int, p as int, i));
                    }
                }
            }
            p = p + 1;
        }
        let ghost s1 = structs@;
        let ghost e0 = enums@;
        assert(forall|i: int| 0 <= i < ns ==> (s1[i] <==> (s0[i] || exists|pp: int| pp < fun.parameter_datatypes@.len() && #[trigger] param_marks(*m, f as int, pp, i))));
        assert(forall|i: int| 0 <= i < ne ==> (e0[i] <==> exists|ff: int| 0 <= ff < f && #[trigger] fn_uses_enum(*m, ff, i)));
        assert(forall|i: int| 0 <= i < ns ==> (s0[i] <==> exists|ff: int| 0 <= ff < f && #[trigger] fn_uses_struct(*m, ff, i)));
        match &fun.code {
            Some(code) => {
                let mut o: usize = 0;
                while o < code.len()
                    invariant
                        f < m.functions@.len(),
                        *fun == m.functions@[f as int],
                        fun.code == Some(*code),
                        o <= code@.len(),
                        structs@.len() == ns == m.struct_defs@.len(),
                        enums@.len() == ne == m.enum_count,
                        s1.len() == ns,
                        e0.len() == ne,
                        forall|i: int| 0 <= i < ns ==> (structs@[i] <==> (s1[i] || exists|oo: int| oo < o && #[trigger] packs_struct(*m, f as int, oo, i))),
                        forall|i: int| 0 <= i < ne ==> (enums@[i] <==> (e0[i] || exists|oo: int| oo < o && #[trigger] packs_enum(*m, f as int, oo, i))),
                    decreases code@.len() - o,
                {
                    let ghost sb = structs@;
                    let ghost eb = enums@;
                    assert(forall|i: int| 0 <= i < ns ==> (sb[i] <==> (s1[i] || exists|oo: int| oo < o && #[trigger] packs_struct(*m, f as int, oo, i))));
                    assert(forall|i: int| 0 <= i < ne ==> (eb[i] <==> (e0[i] || exists|oo: int| oo < o && #[trigger] packs_enum(*m, f as int, oo, i))));
                    let ghost op = code@[o as int];
                    match code[o] {
                        FileBytecode::Pack(idx) => {
                            if (idx as usize) < ns {
                                structs.set(idx as usize, true);
                            }
                        },
                        FileBytecode::PackGeneric(idx) => {
                            if (idx as usize) < m.struct_instantiations.len() {
                                let d = m.struct_instantiations[idx as usize] as usize;
                                if d < ns {
                                    structs.set(d, true);
                                }
                            }
                        },
                        FileBytecode::PackVariant(idx) => {
                            if (idx as usize) < m.variant_handles.len() {
                                let d = m.variant_handles[idx as usize] as usize;
                                if d < ne {
                                    enums.set(d, true);
                                }
                            }
                        },
                        FileBytecode::PackVariantGeneric(idx) => {
                            if (idx as usize) < m.variant_instantiations.len() {
                                let d = m.variant_instantiations[idx as usize] as usize;
                                if d < ne {
                                    enums.set(d, true);
                                }
                            }
                        },
                        _ => {},
                    }
                    proof {
                        assert forall|i: int| 0 <= i < ns implies (structs@[i] <==> (s1[i] || exists|oo: int| oo < o + 1 && #[trigger] packs_struct(*m, f as int, oo, i))) by {
                            if exists|oo: int| oo < o + 1 && #[trigger] packs_struct(*m, f as int, oo, i) {
                                let oo = choose|oo: int| oo < o + 1 && #[trigger] packs_struct(*m, f as int, oo, i);
                                if oo < o {
                                    assert(exists|q: int| q < o && #[trigger] packs_struct(*m, f as int, q, i));
                                    assert(sb[i]);
                                }
                            }
                            if structs@[i] && !sb[i] {
                                assert(packs_struct(*m, f as int, o as int, i));
                            }
                        }
                        assert forall|i: int| 0 <= i < ne implies (enums@[i] <==> (e0[i] || exists|oo: int| oo < o + 1 && #[trigger] packs_enum(*m, f as int, oo, i))) by {
                            if exists|oo: int| oo < o + 1 && #[trigger] packs_enum(*m, f as int, oo, i) {
                                let oo = choose|oo: int| oo < o + 1 && #[trigger] packs_enum(*m, f as int, oo, i);
                                if oo < o {
                                    assert(exists|q: int| q < o && #[trigger] packs_enum(*m, f as int, q, i));
                                    assert(eb[i]);
                                }
                            }
                            if enums@[i] && !eb[i] {
                                assert(packs_enum(*m, f as int, o as int, i));
                            }
                        }
                    }
                    o = o + 1;
                }
                assert forall|i: int| 0 <= i < ne implies (enums@[i] <==> (e0[i] || exists|oo: int| #[trigger] packs_enum(*m, f as int, oo, i))) by {
                    assert(enums@[i] <==> (e0[i] || exists|q: int| q < o && #[trigger] packs_enum(*m, f as int, q, i)));
                    if exists|oo: int| #[trigger] packs_enum(*m, f as int, oo, i) {
                        let oo = choose|oo: int| #[trigger] packs_enum(*m, f as int, oo, i);
                        assert(oo < code@.len());
                        assert(exists|q: int| q < o && #[trigger] packs_enum(*m, f as int, q, i));
                    }
                    if enums@[i] && !e0[i] {
                        let q = choose|q: int| q < o && #[trigger] packs_enum(*m, f as int, q, i);
                    }
                }
            },
            None => {
                assert forall|i: int| 0 <= i < ne implies (enums@[i] <==> (e0[i] || exists|oo: int| #[trigger] packs_enum(*m, f as int, oo, i))) by {
                    if exists|oo: int| #[trigger] packs_enum(*m, f as int, oo, i) {
                        let oo = choose|oo: int| #[trigger] packs_enum(*m, f as int, oo, i);
                    }
                }
            },
        }
        let ghost e2 = enums@;
        proof {
            assert forall|i: int| 0 <= i < ns implies (structs@[i] <==> exists|ff: int| 0 <= ff < f + 1 && #[trigger] fn_uses_struct(*m, ff, i)) by {
                if exists|ff: int| 0 <= ff < f + 1 && #[trigger] fn_uses_struct(*m, ff, i) {
                    let ff = choose|ff: int| 0 <= ff < f + 1 && #[trigger] fn_uses_struct(*m, ff, i);
                    if ff == f {
                        if exists|pp: int| #[trigger] param_marks(*m, f as int, pp, i) {
                            let pp = choose|pp: int| #[trigger] param_marks(*m, f as int, pp, i);
                            assert(pp < fun.parameter_datatypes@.len());
                            assert(exists|q: int| q < fun.parameter_datatypes@.len() && #[trigger] param_marks(*m, f as int, q, i));
                            assert(s1[i]);
                        } else {
                            let oo = choose|oo: int| #[trigger] packs_struct(*m, f as int, oo, i);
                            assert(exists|q: int| q < fun.code->Some_0@.len() && #[trigger] packs_struct(*m, f as int, q, i));
                        }
                    } else {
                        assert(exists|q: int| 0 <= q < f && #[trigger] fn_uses_struct(*m, q, i));
                        assert(s0[i]);
                    }
                }
                if structs@[i] {
                    if !s1[i] {
                        let oo = choose|oo: int| #[trigger] packs_struct(*m, f as int, oo, i);
                        assert(fn_uses_struct(*m, f as int, i));
                    } else if !s0[i] {
                        let pp = choose|pp: int| #[trigger] param_marks(*m, f as int, pp, i);
                        assert(fn_uses_struct(*m, f as int, i));
                    }
                }
            }
            assert forall|i: int| 0 <= i < ne implies (enums@[i] <==> exists|ff: int| 0 <= ff < f + 1 && #[trigger] fn_uses_enum(*m, ff, i)) by {
                assert(e2[i] <==> (e0[i] || exists|oo: int| #[trigger] packs_enum(*m, f as int, oo, i)));
                if exists|ff: int| 0 <= ff < f + 1 && #[trigger] fn_uses_enum(*m, ff, i) {
                    let ff = choose|ff: int| 0 <= ff < f + 1 && #[trigger] fn_uses_enum(*m, ff, i);
                    if ff == f {
                        let oo = choose|oo: int| #[trigger] packs_enum(*m, f as int, oo, i);
                    } else {
                        assert(exists|q: int| 0 <= q < f && #[trigger] fn_uses_enum(*m, q, i));
                        assert(e0[i]);
                    }
                }
                if enums@[i] && !e0[i] {
                    let oo = choose|oo: int| #[trigger] packs_enum(*m, f as int, oo, i);
                    assert(fn_uses_enum(*m, f as int, i));
                }
            }
        }
        f = f + 1;
    }
    let unused_structs = collect_unmarked(&structs, Ghost(|i: int| struct_used(*m, i)));
    let unused_enums = collect_unmarked(&enums, Ghost(|i: int| enum_used(*m, i)));
    (unused_structs, unused_enums)
}

/// The function handle that instruction `op` calls, if it is a call.
pub open spec fn call_target(m: FileModule, op: FileBytecode) -> Option<int> {
    match op {
        FileBytecode::Call(h) => if h < m.function_handles@.len() {
            Some(h as int)
        } else {
            None
        },
        FileBytecode::CallGeneric(i) => if i < m.function_instantiations@.len()
            && m.function_instantiations@[i as int] < m.function_handles@.len() {
            Some(m.function_instantiations@[i as int] as int)
        } else {
            None
        },
        _ => None,
    }
}

/// Whether instruction `o` of function `f` of `m` calls function `name` of module
/// `module` at `addr`.
pub open spec fn calls_at(m: FileModule, f: int, o: int, addr: MoveAddress, module: Seq<char>, name: Seq<char>) -> bool {
    &&& 0 <= f < m.functions@.len()
    &&& m.functions@[f].code is Some
    &&& 0 <= o < m.functions@[f].code->Some_0@.len()
    &&& match call_target(m, m.functions@[f].code->Some_0@[o]) {
        Some(h) => m.function_handles@[h].module_address == addr && m.function_handles@[h].module_name@
            == module && m.function_handles@[h].name@ == name,
        None => false,
    }
}

/// Whether some instruction of `m` calls function `name` of module `module` at
/// `addr`.
pub open spec fn called_in(m: FileModule, addr: MoveAddress, module: Seq<char>, name: Seq<char>) -> bool {
    exists|f: int, o: int| #[trigger] calls_at(m, f, o, addr, module, name)
}

/// The name of function definition `f` of `m`.
pub open spec fn def_name(m: FileModule, f: int) -> Seq<char> {
    let h = m.functions@[f].handle as int;
    if 0 <= h < m.function_handles@.len() {
        m.function_handles@[h].name@
    } else {
        seq![]
    }
}

/// Whether definition `f` of `m` is private, not an entry and not `init`.
pub open spec fn private_candidate(m: FileModule, f: int) -> bool {
    &&& m.functions@[f].visibility == Visibility::Private
    &&& !m.functions@[f].is_entry
    &&& (m.functions@[f].handle as int) < m.function_handles@.len()
    &&& def_name(m, f) != "init"@
}

/// Whether definition `f` of `m` is a friend function and not an entry.
pub open spec fn friend_candidate(m: FileModule, f: int) -> bool {
    &&& m.functions@[f].visibility == Visibility::Friend
    &&& !m.functions@[f].is_entry
    &&& (m.functions@[f].handle as int) < m.function_handles@.len()
}

/// Whether some instruction of `m` calls the function `name` of module `module` at
/// `addr`.
pub fn is_called(m: &FileModule, addr: MoveAddress, module: &String, name: &String) -> (r: bool)
    ensures
        r == called_in(*m, addr, module@, name@),
{
    let mut f: usize = 0;
    while f < m.functions.len()
        invariant
            f <= m.functions@.len(),
            forall|ff: int, o: int| ff < f ==> !#[trigger] calls_at(*m, ff, o, addr, module@, name@),
        decreases m.functions@.len() - f,
    {
        match &m.functions[f].code {
            Some(code) => {
                let mut o: usize = 0;
                while o < code.len()
                    invariant
                        f < m.functions@.len(),
                        m.functions@[f as int].code == Some(*code),
                        o <= code@.len(),
                        forall|ff: int, oo: int| ff < f ==> !#[trigger] calls_at(*m, ff, oo, addr, module@, name@),
                        forall|oo: int| oo < o ==> !#[trigger] calls_at(*m, f as int, oo, addr, module@, name@),
                    decreases code@.len() - o,
                {
                    let h: Option<usize> = match code[o] {
                        FileBytecode::Call(h) => if (h as usize) < m.function_handles.len() {
                            Some(h as usize)
                        } else {
                            None
                        },
                        FileBytecode::CallGeneric(i) => if (i as usize) < m.function_instantiations.len()
                            && (m.function_instantiations[i as usize] as usize) < m.function_handles.len() {
                            Some(m.function_instantiations[i as usize] as usize)
                        } else {
                            None
                        },
                        _ => None,
                    };
                    match h {
                        Some(h) => {
                            let fh = &m.function_handles[h];
                            if fh.module_address == addr && fh.module_name == *module && fh.name == *name {
                                assert(calls_at(*m, f as int, o as int, addr, module@, name@));
                                return true;
                            }
                        },
                        None => {},
                    }
                    o = o + 1;
                }
            },
            None => {},
        }
        f = f + 1;
    }
    false
}

/// The name of function definition `f` of `m`.
pub(crate) fn def_name_of(m: &FileModule, f: usize) -> (r: Option<&String>)
    requires
        f < m.functions@.len(),
    ensures
        r is Some <==> (m.functions@[f as int].handle as int) < m.function_handles@.len(),
        r is Some ==> r->Some_0@ == def_name(*m, f as int),
{
    let h = m.functions[f].handle as usize;
    if h < m.function_handles.len() {
        Some(&m.function_handles[h].name)
    } else {
        None
    }
}

/// The private functions of `m`, other than entries and `init`, that no function of
/// `m` calls, in definition order.
pub fn unused_private_functions(m: &FileModule) -> (r: Vec<usize>)
    ensures
        r@.map_values(|x: usize| x as int) == unused_below(
            |f: int| !(private_candidate(*m, f) && !called_in(*m, m.address, m.name@, def_name(*m, f))),
            m.functions@.len() as int,
        ),
{
    let ghost used = |f: int| !(private_candidate(*m, f) && !called_in(*m, m.address, m.name@, def_name(*m, f)));
    let mut out: Vec<usize> = Vec::new();
    let mut f: usize = 0;
    let init = "init".to_owned();
    proof {
        reveal_strlit("init");
    }
    while f < m.functions.len()
        invariant
            f <= m.functions@.len(),
            init@ == "init"@,
            used == (|f: int| !(private_candidate(*m, f) && !called_in(*m, m.address, m.name@, def_name(*m, f)))),
            out@.map_values(|x: usize| x as int) == unused_below(used, f as int),
        decreases m.functions@.len() - f,
    {
        let ghost prev = out@;
        let fun = &m.functions[f];
        let keep = match def_name_of(m, f) {
            Some(name) => {
                let candidate = fun.visibility == Visibility::Private && !fun.is_entry && *name != init;
                candidate && !is_called(m, m.address, &m.name, name)
            },
            None => false,
        };
        if keep {
            out.push(f);
            proof {
                assert(out@.map_values(|x: usize| x as int) =~= prev.map_values(|x: usize| x as int).push(f as int));
            }
        }
        f = f + 1;
    }
    out
}

/// A package: its id and its modules.
#[derive(Debug, PartialEq, Eq)]
pub struct FilePackage {
    pub id: MoveAddress,
    pub modules: Vec<FileModule>,
}

/// Whether some module of `pkg` calls function `name` of module `module` at `addr`.
pub open spec fn called_in_package(pkg: FilePackage, addr: MoveAddress, module: Seq<char>, name: Seq<char>) -> bool {
    exists|j: int| 0 <= j < pkg.modules@.len() && #[trigger] called_in(pkg.modules@[j], addr, module, name)
}

/// Whether definition `f` of module `i` of `pkg` is a friend function, not an entry,
/// that no module of the package calls.
pub open spec fn unused_friend(pkg: FilePackage, i: int, f: int) -> bool {
    let m = pkg.modules@[i];
    friend_candidate(m, f) && !called_in_package(pkg, m.address, m.name@, def_name(m, f))
}

/// The (module, definition) positions of the unused friend functions of the first
/// `i` modules of `pkg`, in order.
pub open spec fn unused_friends_below(pkg: FilePackage, i: int) -> Seq<(int, int)>
    decreases i,
{
    if i <= 0 {
        seq![]
    } else {
        unused_friends_below(pkg, i - 1) + unused_below(
            |f: int| !unused_friend(pkg, i - 1, f),
            pkg.modules@[i - 1].functions@.len() as int,
        ).map_values(|f: int| (i - 1, f))
    }
}

fn is_called_in_package(pkg: &FilePackage, addr: MoveAddress, module: &String, name: &String) -> (r: bool)
    ensures
        r == called_in_package(*pkg, addr, module@, name@),
{
    let mut j: usize = 0;
    while j < pkg.modules.len()
        invariant
            j <= pkg.modules@.len(),
            forall|jj: int| 0 <= jj < j ==> !#[trigger] called_in(pkg.modules@[jj], addr, module@, name@),
        decreases pkg.modules@.len() - j,
    {
        if is_called(&pkg.modules[j], addr, module, name) {
            return true;
        }
        j = j + 1;
    }
    false
}

/// The friend functions of `pkg`, other than entries, that no module of the package
/// calls, as (module, definition) positions in order.
pub fn unused_friend_functions(pkg: &FilePackage) -> (r: Vec<(usize, usize)>)
    ensures
        r@.map_values(|p: (usize, usize)| (p.0 as int, p.1 as int)) == unused_friends_below(
            *pkg,
            pkg.modules@.len() as int,
        ),
{
    let mut out: Vec<(usize, usize)> = Vec::new();
    let mut i: usize = 0;
    while i < pkg.modules.len()
        invariant
            i <= pkg.modules@.len(),
            out@.map_values(|p: (usize, usize)| (p.0 as int, p.1 as int)) == unused_friends_below(*pkg, i as int),
        decreases pkg.modules@.len() - i,
    {
        let m = &pkg.modules[i];
        let ghost base = out@.map_values(|p: (usize, usize)| (p.0 as int, p.1 as int));
        let ghost used = |f: int| !unused_friend(*pkg, i as int, f);
        let mut f: usize = 0;
        while f < m.functions.len()
            invariant
                i < pkg.modules@.len(),
                *m == pkg.modules@[i as int],
                f <= m.functions@.len(),
                base == unused_friends_below(*pkg, i as int),
                used == (|f: int| !unused_friend(*pkg, i as int, f)),
                out@.map_values(|p: (usize, usize)| (p.0 as int, p.1 as int)) == base + unused_below(used, f as int).map_values(|g: int| (i as int, g)),
            decreases m.functions@.len() - f,
        {
            let ghost prev = out@;
            let fun = &m.functions[f];
            let keep = match def_name_of(m, f) {
                Some(name) => fun.visibility == Visibility::Friend && !fun.is_entry && !is_called_in_package(pkg, m.address, &m.name, name),
                None => false,
            };
            if keep {
                out.push((i, f));
                proof {
                    let conv = |p: (usize, usize)| (p.0 as int, p.1 as int);
                    let tag = |g: int| (i as int, g);
                    assert(unused_below(used, f + 1) == unused_below(used, f as int).push(f as int));
                    assert(out@ == prev.push((i, f)));
                    assert(out@.map_values(conv) =~= prev.map_values(conv).push((i as int, f as int)));
                    assert(unused_below(used, f + 1).map_values(tag) =~= unused_below(used, f as int).map_values(tag).push((i as int, f as int)));
                    assert(out@.map_values(conv) =~= base + unused_below(used, f + 1).map_values(tag));
                }
            } else {
                proof {
                    assert(unused_below(used, f + 1) == unused_below(used, f as int));
                }
            }
            f = f + 1;
        }
        proof {
            assert(unused_friends_below(*pkg, i + 1) == base + unused_below(used, m.functions@.len() as int).map_values(|g: int| (i as int, g)));
        }
        i = i + 1;
    }
    out
}

} // verus!
