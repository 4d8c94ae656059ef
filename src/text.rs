//! Text forms of addresses and signature types, as graph labels show them.

use crate::abi::MoveAbiSignatureToken;
use crate::value::{MoveAddress, MoveStructTag, MoveTypeTag};
use vstd::prelude::*;
use vstd::string::StringExecFns;

verus! {

/// The lowercase hexadecimal digit of `d` (below 16).
pub open spec fn hex_digit(d: nat) -> char {
    if d < 10 {
        ('0' as nat + d) as char
    } else {
        ('a' as nat + d - 10) as char
    }
}

/// The `n` lowercase hexadecimal digits of `v`, most significant first.
pub open spec fn hex_text(v: nat, n: nat) -> Seq<char>
    decreases n,
{
    if n == 0 {
        seq![]
    } else {
        hex_text(v / 16, (n - 1) as nat).push(hex_digit(v % 16))
    }
}

/// `0x` and the 64 hexadecimal digits of an address.
pub open spec fn address_text(a: MoveAddress) -> Seq<char> {
    "0x"@ + hex_text(a.0.hi as nat, 32) + hex_text(a.0.lo as nat, 32)
}

/// The decimal digits of `v`.
pub open spec fn decimal_text(v: nat) -> Seq<char>
    decreases v,
{
    if v < 10 {
        seq![hex_digit(v)]
    } else {
        decimal_text(v / 10).push(hex_digit(v % 10))
    }
}

fn digit_str(d: u8) -> (r: &'static str)
    requires
        d < 16,
    ensures
        r@ == seq![hex_digit(d as nat)],
{
    proof {
        reveal_strlit("0");
        reveal_strlit("1");
        reveal_strlit("2");
        reveal_strlit("3");
        reveal_strlit("4");
        reveal_strlit("5");
        reveal_strlit("6");
        reveal_strlit("7");
        reveal_strlit("8");
        reveal_strlit("9");
        reveal_strlit("a");
        reveal_strlit("b");
        reveal_strlit("c");
        reveal_strlit("d");
        reveal_strlit("e");
        reveal_strlit("f");
    }
    let r = match d {
        0 => "0",
        1 => "1",
        2 => "2",
        3 => "3",
        4 => "4",
        5 => "5",
        6 => "6",
        7 => "7",
        8 => "8",
        9 => "9",
        10 => "a",
        11 => "b",
        12 => "c",
        13 => "d",
        14 => "e",
        _ => "f",
    };
    assert(r@ =~= seq![hex_digit(d as nat)]);
    r
}

/// Appends the `n` hexadecimal digits of `v` to `out`.
fn push_hex(out: &mut String, v: u128, n: usize)
    ensures
        final(out)@ == old(out)@ + hex_text(v as nat, n as nat),
    decreases n,
{
    if n > 0 {
        push_hex(out, v / 16, n - 1);
        out.append(digit_str((v % 16) as u8));
    }
}

/// `0x` and the 64 hexadecimal digits of `a`.
pub fn address_string(a: &MoveAddress) -> (r: String)
    ensures
        r@ == address_text(*a),
{
    let mut s = String::new();
    s.append("0x");
    push_hex(&mut s, a.0.hi, 32);
    push_hex(&mut s, a.0.lo, 32);
    proof {
        reveal_strlit("0x");
        assert(s@ =~= address_text(*a));
    }
    s
}

/// Appends the decimal digits of `v` to `out`.
pub fn push_decimal(out: &mut String, v: u64)
    ensures
        final(out)@ == old(out)@ + decimal_text(v as nat),
    decreases v,
{
    if v >= 10 {
        push_decimal(out, v / 10);
    }
    out.append(digit_str((v % 10) as u8));
    proof {
        if v < 10 {
            assert(v % 10 == v);
        }
    }
}

/// The text of a signature type: `u64`, `vector<T>`, `0x..::module::Name<T, ..>`,
/// `T0`, `&T`, `&mut T`.
pub open spec fn token_text(t: MoveAbiSignatureToken) -> Seq<char>
    decreases t,
{
    match t {
        MoveAbiSignatureToken::Bool => "bool"@,
        MoveAbiSignatureToken::Address => "address"@,
        MoveAbiSignatureToken::Signer => "signer"@,
        MoveAbiSignatureToken::U8 => "u8"@,
        MoveAbiSignatureToken::U16 => "u16"@,
        MoveAbiSignatureToken::U32 => "u32"@,
        MoveAbiSignatureToken::U64 => "u64"@,
        MoveAbiSignatureToken::U128 => "u128"@,
        MoveAbiSignatureToken::U256 => "u256"@,
        MoveAbiSignatureToken::Vector(x) => "vector<"@ + token_text(*x) + ">"@,
        MoveAbiSignatureToken::Struct(s) => struct_path_text(*s),
        MoveAbiSignatureToken::StructInstantiation(s, ts) => struct_path_text(*s) + "<"@
            + tokens_text(ts@, ts@.len() as int) + ">"@,
        MoveAbiSignatureToken::TypeParameter(j) => "T"@ + decimal_text(j as nat),
        MoveAbiSignatureToken::Reference(x) => "&"@ + token_text(*x),
        MoveAbiSignatureToken::MutableReference(x) => "&mut "@ + token_text(*x),
    }
}

/// `address::module::name` of a struct.
pub open spec fn struct_path_text(s: MoveStructTag) -> Seq<char> {
    address_text(s.address) + "::"@ + s.module@ + "::"@ + s.name@
}

/// The texts of the first `n` tokens of `ts`, separated by `, `.
pub open spec fn tokens_text(ts: Seq<MoveAbiSignatureToken>, n: int) -> Seq<char>
    decreases ts, n,
{
    if n <= 0 || n > ts.len() {
        seq![]
    } else if n == 1 {
        token_text(ts[0])
    } else {
        tokens_text(ts, n - 1) + ", "@ + token_text(ts[n - 1])
    }
}

fn push_struct_path(out: &mut String, s: &MoveStructTag)
    ensures
        final(out)@ == old(out)@ + struct_path_text(*s),
{
    let a = address_string(&s.address);
    out.append(a.as_str());
    out.append("::");
    out.append(s.module.as_str());
    out.append("::");
    out.append(s.name.as_str());
    proof {
        reveal_strlit("::");
        assert(final(out)@ =~= old(out)@ + struct_path_text(*s));
    }
}

/// Appends the text of `t` to `out`.
pub fn push_token(out: &mut String, t: &MoveAbiSignatureToken)
    ensures
        final(out)@ == old(out)@ + token_text(*t),
    decreases t, 1nat,
{
    proof {
        reveal_strlit("bool");
        reveal_strlit("address");
        reveal_strlit("signer");
        reveal_strlit("u8");
        reveal_strlit("u16");
        reveal_strlit("u32");
        reveal_strlit("u64");
        reveal_strlit("u128");
        reveal_strlit("u256");
        reveal_strlit("vector<");
        reveal_strlit(">");
        reveal_strlit("<");
        reveal_strlit("T");
        reveal_strlit("&");
        reveal_strlit("&mut ");
    }
    let ghost start = out@;
    match t {
        MoveAbiSignatureToken::Bool => out.append("bool"),
        MoveAbiSignatureToken::Address => out.append("address"),
        MoveAbiSignatureToken::Signer => out.append("signer"),
        MoveAbiSignatureToken::U8 => out.append("u8"),
        MoveAbiSignatureToken::U16 => out.append("u16"),
        MoveAbiSignatureToken::U32 => out.append("u32"),
        MoveAbiSignatureToken::U64 => out.append("u64"),
        MoveAbiSignatureToken::U128 => out.append("u128"),
        MoveAbiSignatureToken::U256 => out.append("u256"),
        MoveAbiSignatureToken::Vector(x) => {
            out.append("vector<");
            push_token(out, x);
            out.append(">");
            assert(out@ =~= start + token_text(*t));
        },
        MoveAbiSignatureToken::Struct(s) => push_struct_path(out, s),
        MoveAbiSignatureToken::StructInstantiation(s, ts) => {
            push_struct_path(out, s);
            out.append("<");
            push_tokens(out, ts, ts.len());
            out.append(">");
            assert(out@ =~= start + token_text(*t));
        },
        MoveAbiSignatureToken::TypeParameter(j) => {
            out.append("T");
            push_decimal(out, *j as u64);
            assert(out@ =~= start + token_text(*t));
        },
        MoveAbiSignatureToken::Reference(x) => {
            out.append("&");
            push_token(out, x);
            assert(out@ =~= start + token_text(*t));
        },
        MoveAbiSignatureToken::MutableReference(x) => {
            out.append("&mut ");
            push_token(out, x);
            assert(out@ =~= start + token_text(*t));
        },
    }
}

/// Appends the texts of the first `n` tokens of `ts`, separated by `, `.
pub fn push_tokens(out: &mut String, ts: &Vec<MoveAbiSignatureToken>, n: usize)
    requires
        n <= ts@.len(),
    ensures
        final(out)@ == old(out)@ + tokens_text(ts@, n as int),
    decreases ts@, n,
{
    proof {
        reveal_strlit(", ");
    }
    let ghost start = out@;
    if n == 1 {
        proof {
            assert(decreases_to!(ts@ => ts@[0]));
        }
        push_token(out, &ts[0]);
    } else if n > 1 {
        push_tokens(out, ts, n - 1);
        out.append(", ");
        proof {
            assert(decreases_to!(ts@ => ts@[n - 1]));
        }
        push_token(out, &ts[n - 1]);
        assert(out@ =~= start + tokens_text(ts@, n as int));
    } else {
        assert(out@ =~= start + tokens_text(ts@, n as int));
    }
}

/// The text of a type: `u64`, `vector<T>`, `0x..::module::Name` with its type
/// arguments in `<..>` when it has any.
pub open spec fn tag_text(t: MoveTypeTag) -> Seq<char>
    decreases t,
{
    match t {
        MoveTypeTag::Bool => "bool"@,
        MoveTypeTag::Address => "address"@,
        MoveTypeTag::Signer => "signer"@,
        MoveTypeTag::U8 => "u8"@,
        MoveTypeTag::U16 => "u16"@,
        MoveTypeTag::U32 => "u32"@,
        MoveTypeTag::U64 => "u64"@,
        MoveTypeTag::U128 => "u128"@,
        MoveTypeTag::U256 => "u256"@,
        MoveTypeTag::Vector(x) => "vector<"@ + tag_text(*x) + ">"@,
        MoveTypeTag::Struct(s) => if s.tys@.len() == 0 {
            struct_path_text(*s)
        } else {
            struct_path_text(*s) + "<"@ + tags_text(s.tys@, s.tys@.len() as int) + ">"@
        },
    }
}

/// The texts of the first `n` types of `ts`, separated by `, `.
pub open spec fn tags_text(ts: Seq<MoveTypeTag>, n: int) -> Seq<char>
    decreases ts, n,
{
    if n <= 0 || n > ts.len() {
        seq![]
    } else if n == 1 {
        tag_text(ts[0])
    } else {
        tags_text(ts, n - 1) + ", "@ + tag_text(ts[n - 1])
    }
}

/// Appends the text of `t` to `out`.
pub fn push_tag(out: &mut String, t: &MoveTypeTag)
    ensures
        final(out)@ == old(out)@ + tag_text(*t),
    decreases t, 1nat,
{
    proof {
        reveal_strlit("bool");
        reveal_strlit("address");
        reveal_strlit("signer");
        reveal_strlit("u8");
        reveal_strlit("u16");
        reveal_strlit("u32");
        reveal_strlit("u64");
        reveal_strlit("u128");
        reveal_strlit("u256");
        reveal_strlit("vector<");
        reveal_strlit(">");
        reveal_strlit("<");
    }
    let ghost start = out@;
    match t {
        MoveTypeTag::Bool => out.append("bool"),
        MoveTypeTag::Address => out.append("address"),
        MoveTypeTag::Signer => out.append("signer"),
        MoveTypeTag::U8 => out.append("u8"),
        MoveTypeTag::U16 => out.append("u16"),
        MoveTypeTag::U32 => out.append("u32"),
        MoveTypeTag::U64 => out.append("u64"),
        MoveTypeTag::U128 => out.append("u128"),
        MoveTypeTag::U256 => out.append("u256"),
        MoveTypeTag::Vector(x) => {
            out.append("vector<");
            push_tag(out, x);
            out.append(">");
            assert(out@ =~= start + tag_text(*t));
        },
        MoveTypeTag::Struct(s) => {
            push_struct_path(out, s);
            if s.tys.len() > 0 {
                out.append("<");
                proof {
                    let ghost st = t->Struct_0;
                    assert(decreases_to!(*t => st));
                    assert(decreases_to!(st => st.tys));
                }
                push_tags(out, &s.tys, s.tys.len());
                out.append(">");
                assert(out@ =~= start + tag_text(*t));
            }
        },
    }
}

/// Appends the texts of the first `n` types of `ts`, separated by `, `.
pub fn push_tags(out: &mut String, ts: &Vec<MoveTypeTag>, n: usize)
    requires
        n <= ts@.len(),
    ensures
        final(out)@ == old(out)@ + tags_text(ts@, n as int),
    decreases ts, n,
{
    proof {
        reveal_strlit(", ");
    }
    let ghost start = out@;
    if n == 1 {
        proof {
            assert(decreases_to!(ts => ts@));
            assert(decreases_to!(ts@ => ts@[0]));
        }
        push_tag(out, &ts[0]);
    } else if n > 1 {
        push_tags(out, ts, n - 1);
        out.append(", ");
        proof {
            assert(decreases_to!(ts => ts@));
            assert(decreases_to!(ts@ => ts@[n - 1]));
        }
        push_tag(out, &ts[n - 1]);
        assert(out@ =~= start + tags_text(ts@, n as int));
    } else {
        assert(out@ =~= start + tags_text(ts@, n as int));
    }
}

/// Appends the text of the struct type `s` to `out`.
pub fn push_struct_tag(out: &mut String, s: &MoveStructTag)
    ensures
        final(out)@ == old(out)@ + tag_text(MoveTypeTag::Struct(Box::new(*s))),
{
    proof {
        reveal_strlit(">");
        reveal_strlit("<");
    }
    let ghost start = out@;
    push_struct_path(out, s);
    if s.tys.len() > 0 {
        out.append("<");
        push_tags(out, &s.tys, s.tys.len());
        out.append(">");
        assert(out@ =~= start + tag_text(MoveTypeTag::Struct(Box::new(*s))));
    }
}

} // verus!
