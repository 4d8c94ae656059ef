//! Flash-loan sources that an attacker sequence may borrow from.

use crate::text::{
    address_string, address_text, decimal_text, push_decimal, push_struct_tag, push_tag, tag_text,
};
use crate::value::{MoveAddress, MoveStructTag, MoveTypeTag};
use vstd::prelude::*;
use vstd::string::StringExecFns;

verus! {

/// A shared or owned object passed to a call, at a known version.
#[derive(Clone, Copy, Debug, PartialEq, Eq, Structural, Hash)]
pub struct ObjectInput {
    pub id: MoveAddress,
    pub version: u64,
    pub mutable: bool,
}

/// A pool that lends coins within one transaction.
#[derive(Debug, PartialEq, Eq, Hash)]
pub enum FlashProvider {
    Cetus {
        package: MoveAddress,
        coin_a: MoveTypeTag,
        coin_b: MoveTypeTag,
        global_config: ObjectInput,
        pool: ObjectInput,
        clock: ObjectInput,
    },
    Nemo {
        package: MoveAddress,
        coin: MoveTypeTag,
        version: ObjectInput,
        py_state: ObjectInput,
        clock: ObjectInput,
    },
}

/// A flash loan: where it comes from, the coin borrowed and the amount.
#[derive(Debug, PartialEq, Eq, Hash)]
pub struct FlashWrapper {
    pub provider: FlashProvider,
    pub flash_coin: MoveStructTag,
    pub initial_flash_amount: u64,
}

impl FlashProvider {
    /// The package that implements the lending pool.
    pub fn package(&self) -> (r: MoveAddress)
        ensures
            self is Cetus ==> r == self->Cetus_package,
            self is Nemo ==> r == self->Nemo_package,
    {
        match self {
            FlashProvider::Cetus { package, .. } => *package,
            FlashProvider::Nemo { package, .. } => *package,
        }
    }
}

/// The text of a provider: its kind, package, coins and the objects that name its
/// pool.
pub open spec fn provider_text(p: FlashProvider) -> Seq<char> {
    match p {
        FlashProvider::Cetus { package, coin_a, coin_b, global_config, pool, .. } => "Cetus(package="@
            + address_text(package) + ", coins="@ + tag_text(coin_a) + "/"@ + tag_text(coin_b)
            + ", config="@ + address_text(global_config.id) + ", pool="@ + address_text(pool.id)
            + ")"@,
        FlashProvider::Nemo { package, coin, version, py_state, .. } => "Nemo(package="@
            + address_text(package) + ", coin="@ + tag_text(coin) + ", version="@ + address_text(
            version.id,
        ) + ", py_state="@ + address_text(py_state.id) + ")"@,
    }
}

/// The text of a flash loan: its provider, coin and amount.
pub open spec fn flash_text(w: FlashWrapper) -> Seq<char> {
    "Flash(source="@ + provider_text(w.provider) + ", coin="@ + tag_text(
        MoveTypeTag::Struct(Box::new(w.flash_coin)),
    ) + ", initial_amount="@ + decimal_text(w.initial_flash_amount as nat) + ")"@
}

fn push_address(out: &mut String, a: &MoveAddress)
    ensures
        final(out)@ == old(out)@ + address_text(*a),
{
    let s = address_string(a);
    out.append(s.as_str());
}

impl FlashProvider {
    /// The provider as text.
    pub fn describe(&self) -> (r: String)
        ensures
            r@ == provider_text(*self),
    {
        proof {
            reveal_strlit("Cetus(package=");
            reveal_strlit(", coins=");
            reveal_strlit("/");
            reveal_strlit(", config=");
            reveal_strlit(", pool=");
            reveal_strlit(")");
            reveal_strlit("Nemo(package=");
            reveal_strlit(", coin=");
            reveal_strlit(", version=");
            reveal_strlit(", py_state=");
        }
        let mut out = String::new();
        match self {
            FlashProvider::Cetus { package, coin_a, coin_b, global_config, pool, .. } => {
                out.append("Cetus(package=");
                push_address(&mut out, package);
                out.append(", coins=");
                push_tag(&mut out, coin_a);
                out.append("/");
                push_tag(&mut out, coin_b);
                out.append(", config=");
                push_address(&mut out, &global_config.id);
                out.append(", pool=");
                push_address(&mut out, &pool.id);
                out.append(")");
            },
            FlashProvider::Nemo { package, coin, version, py_state, .. } => {
                out.append("Nemo(package=");
                push_address(&mut out, package);
                out.append(", coin=");
                push_tag(&mut out, coin);
                out.append(", version=");
                push_address(&mut out, &version.id);
                out.append(", py_state=");
                push_address(&mut out, &py_state.id);
                out.append(")");
            },
        }
        assert(out@ =~= provider_text(*self));
        out
    }
}

impl FlashWrapper {
    /// The flash loan as text.
    pub fn describe(&self) -> (r: String)
        ensures
            r@ == flash_text(*self),
    {
        proof {
            reveal_strlit("Flash(source=");
            reveal_strlit(", coin=");
            reveal_strlit(", initial_amount=");
            reveal_strlit(")");
        }
        let mut out = String::new();
        out.append("Flash(source=");
        let p = self.provider.describe();
        out.append(p.as_str());
        out.append(", coin=");
        push_struct_tag(&mut out, &self.flash_coin);
        out.append(", initial_amount=");
        push_decimal(&mut out, self.initial_flash_amount);
        out.append(")");
        assert(out@ =~= flash_text(*self));
        out
    }
}

} // verus!
