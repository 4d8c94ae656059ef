//! Text that locates a finding in the code.

use crate::call_graph::MoveModuleId;
use crate::text::{address_string, address_text, decimal_text, push_decimal};
use vstd::prelude::*;
use vstd::string::StringExecFns;

verus! {

/// `base`, then `location=address::module::function` when a function is known, then
/// `pc=N` when an offset is known, separated by ` | `.
pub open spec fn vulnerability_text(base: Seq<char>, current: Option<(MoveModuleId, String)>, pc: Option<u16>) -> Seq<char> {
    let with_location = match current {
        Some(c) => base + " | location="@ + address_text(c.0.module_address) + "::"@ + c.0.module_name@
            + "::"@ + c.1@,
        None => base,
    };
    match pc {
        Some(p) => with_location + " | pc="@ + decimal_text(p as nat),
        None => with_location,
    }
}

/// Describes where a finding occurred.
pub fn format_vulnerability_info(base: &str, current_function: Option<&(MoveModuleId, String)>, pc: Option<u16>) -> (r: String)
    ensures
        r@ == vulnerability_text(
            base@,
            match current_function {
                Some(c) => Some(*c),
                None => None,
            },
            pc,
        ),
{
    proof {
        reveal_strlit(" | location=");
        reveal_strlit("::");
        reveal_strlit(" | pc=");
    }
    let mut out = base.to_owned();
    match current_function {
        Some(c) => {
            out.append(" | location=");
            let a = address_string(&c.0.module_address);
            out.append(a.as_str());
            out.append("::");
            out.append(c.0.module_name.as_str());
            out.append("::");
            out.append(c.1.as_str());
        },
        None => {},
    }
    let ghost located = out@;
    match pc {
        Some(p) => {
            out.append(" | pc=");
            push_decimal(&mut out, p as u64);
        },
        None => {},
    }
    proof {
        let cur = match current_function {
            Some(c) => Some(*c),
            None => None,
        };
        let expected_loc = match cur {
            Some(c) => base@ + " | location="@ + address_text(c.0.module_address) + "::"@ + c.0.module_name@
                + "::"@ + c.1@,
            None => base@,
        };
        assert(located =~= expected_loc);
        assert(out@ =~= vulnerability_text(base@, cur, pc));
    }
    out
}

} // verus!
