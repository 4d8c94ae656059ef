//! Function signatures of the target modules, and substitution of type parameters.

use crate::value::{clone_tag, clone_tags, tag_eq, MoveAddress, MoveStructTag, MoveTypeTag};
use vstd::prelude::*;

verus! {

/// A type in a function signature: a concrete type, or an expression over the
/// function's type parameters.
#[derive(Debug, PartialEq, Eq)]
pub enum MoveAbiSignatureToken {
    Bool,
    Address,
    Signer,
    U8,
    U16,
    U32,
    U64,
    U128,
    U256,
    Vector(Box<MoveAbiSignatureToken>),
    Struct(Box<MoveStructTag>),
    StructInstantiation(Box<MoveStructTag>, Vec<MoveAbiSignatureToken>),
    TypeParameter(u16),
    Reference(Box<MoveAbiSignatureToken>),
    MutableReference(Box<MoveAbiSignatureToken>),
}

/// The signature of a function of a target module.
pub struct FunctionAbi {
    pub module_id: MoveAddress,
    pub module_name: String,
    pub name: String,
    pub return_types: Vec<MoveAbiSignatureToken>,
}

/// Whether every type parameter in `tok` is below `n` and `tok` holds no reference,
/// so that `n` type arguments turn it into a concrete type.
pub open spec fn substitutable(tok: MoveAbiSignatureToken, n: nat) -> bool
    decreases tok,
{
    match tok {
        MoveAbiSignatureToken::Vector(x) => substitutable(*x, n),
        MoveAbiSignatureToken::StructInstantiation(_, ts) => forall|i: int|
            0 <= i < ts@.len() ==> substitutable(#[trigger] ts@[i], n),
        MoveAbiSignatureToken::TypeParameter(j) => j < n,
        MoveAbiSignatureToken::Reference(_) => false,
        MoveAbiSignatureToken::MutableReference(_) => false,
        _ => true,
    }
}

/// `r` is `tok` with each type parameter `j` replaced by `args[j]`.
pub open spec fn subst_rel(tok: MoveAbiSignatureToken, args: Seq<MoveTypeTag>, r: MoveTypeTag) -> bool
    decreases tok,
{
    match tok {
        MoveAbiSignatureToken::Bool => r == MoveTypeTag::Bool,
        MoveAbiSignatureToken::Address => r == MoveTypeTag::Address,
        MoveAbiSignatureToken::Signer => r == MoveTypeTag::Signer,
        MoveAbiSignatureToken::U8 => r == MoveTypeTag::U8,
        MoveAbiSignatureToken::U16 => r == MoveTypeTag::U16,
        MoveAbiSignatureToken::U32 => r == MoveTypeTag::U32,
        MoveAbiSignatureToken::U64 => r == MoveTypeTag::U64,
        MoveAbiSignatureToken::U128 => r == MoveTypeTag::U128,
        MoveAbiSignatureToken::U256 => r == MoveTypeTag::U256,
        MoveAbiSignatureToken::Vector(x) => r is Vector && subst_rel(*x, args, *r->Vector_0),
        MoveAbiSignatureToken::Struct(s) => tag_eq(r, MoveTypeTag::Struct(s)),
        MoveAbiSignatureToken::StructInstantiation(s, ts) => match r {
            MoveTypeTag::Struct(rs) => {
                &&& rs.address == s.address
                &&& rs.module@ == s.module@
                &&& rs.name@ == s.name@
                &&& rs.tys@.len() == ts@.len()
                &&& forall|i: int|
                    0 <= i < ts@.len() ==> subst_rel(#[trigger] ts@[i], args, rs.tys@[i])
            },
            _ => false,
        },
        MoveAbiSignatureToken::TypeParameter(j) => j < args.len() && tag_eq(r, args[j as int]),
        _ => false,
    }
}

impl MoveAbiSignatureToken {
    /// The concrete type that `self` stands for under the type arguments `args`;
    /// `None` when a type parameter has no argument or a reference occurs.
    pub fn subst(&self, args: &Vec<MoveTypeTag>) -> (r: Option<MoveTypeTag>)
        ensures
            r is Some <==> substitutable(*self, args@.len()),
            r is Some ==> subst_rel(*self, args@, r->Some_0),
        decreases self,
    {
        match self {
            MoveAbiSignatureToken::Bool => Some(MoveTypeTag::Bool),
            MoveAbiSignatureToken::Address => Some(MoveTypeTag::Address),
            MoveAbiSignatureToken::Signer => Some(MoveTypeTag::Signer),
            MoveAbiSignatureToken::U8 => Some(MoveTypeTag::U8),
            MoveAbiSignatureToken::U16 => Some(MoveTypeTag::U16),
            MoveAbiSignatureToken::U32 => Some(MoveTypeTag::U32),
            MoveAbiSignatureToken::U64 => Some(MoveTypeTag::U64),
            MoveAbiSignatureToken::U128 => Some(MoveTypeTag::U128),
            MoveAbiSignatureToken::U256 => Some(MoveTypeTag::U256),
            MoveAbiSignatureToken::Vector(x) => match x.subst(args) {
                Some(t) => Some(MoveTypeTag::Vector(Box::new(t))),
                None => None,
            },
            MoveAbiSignatureToken::Struct(s) => Some(
                MoveTypeTag::Struct(
                    Box::new(
                        MoveStructTag {
                            address: s.address,
                            module: s.module.clone(),
                            name: s.name.clone(),
                            tys: clone_tags(&s.tys),
                        },
                    ),
                ),
            ),
            MoveAbiSignatureToken::StructInstantiation(s, ts) => {
                let mut tys: Vec<MoveTypeTag> = Vec::new();
                let mut i: usize = 0;
                while i < ts.len()
                    invariant
                        i <= ts@.len(),
                        tys@.len() == i,
                        *self == MoveAbiSignatureToken::StructInstantiation(*s, *ts),
                        forall|k: int| 0 <= k < i ==> substitutable(#[trigger] ts@[k], args@.len()),
                        forall|k: int| 0 <= k < i ==> subst_rel(#[trigger] ts@[k], args@, tys@[k]),
                    decreases ts@.len() - i,
                {
                    proof {
                        assert(decreases_to!(*self => self->StructInstantiation_1));
                        assert(decreases_to!(self->StructInstantiation_1 => self->StructInstantiation_1@));
                        assert(decreases_to!(self->StructInstantiation_1@ => self->StructInstantiation_1@[i as int]));
                    }
                    match ts[i].subst(args) {
                        Some(t) => tys.push(t),
                        None => return None,
                    }
                    i = i + 1;
                }
                Some(
                    MoveTypeTag::Struct(
                        Box::new(
                            MoveStructTag {
                                address: s.address,
                                module: s.module.clone(),
                                name: s.name.clone(),
                                tys,
                            },
                        ),
                    ),
                )
            },
            MoveAbiSignatureToken::TypeParameter(j) => {
                if (*j as usize) < args.len() {
                    Some(clone_tag(&args[*j as usize]))
                } else {
                    None
                }
            },
            MoveAbiSignatureToken::Reference(_) => None,
            MoveAbiSignatureToken::MutableReference(_) => None,
        }
    }
}

} // verus!
