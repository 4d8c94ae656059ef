//! Reversible post-processing of sequences: routing objects that need custody to an
//! actor, and turning raw balances into spendable coins.

use crate::abi::{substitutable, subst_rel, FunctionAbi, MoveAbiSignatureToken};
use crate::sequence::{
    all_refer_back, arg_refers_back, command_args, result_refers_back, results_refer_back, command_refers_back, lemma_refers_back_mono, sequence_wf,
    MoveCall, MoveSequence, MoveSequenceCall, SequenceArgument, SequenceView,
};
use crate::value::{clone_tag, tag_eq, InputArgument, MoveAddress, MoveTypeTag, U256};
use vstd::prelude::*;

verus! {

/// Whether `c` hands objects over to an input slot: the shape that key-store
/// post-processing appends.
pub open spec fn is_route_to_actor(c: MoveSequenceCall) -> bool {
    c is TransferObjects && c->TransferObjects_1 is Input
}

/// Whether the last command of `s` hands objects over to an input slot.
pub open spec fn ends_with_route(s: SequenceView) -> bool {
    s.commands.len() > 0 && is_route_to_actor(s.commands.last())
}

/// `t` is `s` after key-store post-processing with `objs` and `attacker`: unchanged
/// when there is nothing to route, else with the attacker's address as a new input
/// and a command that hands `objs` to it.
pub open spec fn key_store_applied(
    s: SequenceView,
    objs: Vec<SequenceArgument>,
    attacker: MoveAddress,
    t: SequenceView,
) -> bool {
    if objs@.len() == 0 {
        t == s
    } else {
        &&& t.inputs == s.inputs.push(InputArgument::Address(attacker))
        &&& t.commands == s.commands.push(
            MoveSequenceCall::TransferObjects(objs, SequenceArgument::Input(s.inputs.len() as u16)),
        )
    }
}

/// `t` is `s` with a trailing route-to-actor command and its input slot taken off;
/// `s` itself when it does not end in that shape.
pub open spec fn key_store_removed(s: SequenceView, t: SequenceView) -> bool {
    if ends_with_route(s) {
        &&& t.commands == s.commands.drop_last()
        &&& t.inputs == if s.inputs.len() > 0 {
            s.inputs.drop_last()
        } else {
            s.inputs
        }
    } else {
        t == s
    }
}

/// Appends, when `key_store_objects` is not empty, the attacker's address as an
/// input and a command that hands those objects to it.
pub fn process_key_store(ptb: &mut MoveSequence, key_store_objects: Vec<SequenceArgument>, attacker: MoveAddress)
    requires
        old(ptb)@.inputs.len() < 0xFFFF,
    ensures
        key_store_applied(old(ptb)@, key_store_objects, attacker, final(ptb)@),
        sequence_wf(old(ptb)@) && all_refer_back(
            key_store_objects@,
            old(ptb)@.commands.len() as int,
            old(ptb)@.inputs.len() as int,
        ) ==> sequence_wf(final(ptb)@),
        results_refer_back(old(ptb)@) && (forall|k: int|
            0 <= k < key_store_objects@.len() ==> result_refers_back(
                #[trigger] key_store_objects@[k],
                old(ptb)@.commands.len() as int,
            )) ==> results_refer_back(final(ptb)@),
{
    if key_store_objects.len() > 0 {
        let slot = ptb.push_input(InputArgument::Address(attacker));
        let ghost objs = key_store_objects;
        let cmd = MoveSequenceCall::TransferObjects(key_store_objects, SequenceArgument::Input(slot));
        proof {
            let s = SequenceView { inputs: ptb.inputs@, commands: ptb.commands@ };
            if sequence_wf(old(ptb)@) && all_refer_back(objs@, old(ptb)@.commands.len() as int, old(ptb)@.inputs.len() as int) {
                let args = objs@.push(SequenceArgument::Input(slot));
                assert forall|j: int| 0 <= j < args.len() implies arg_refers_back(
                    #[trigger] args[j],
                    s.commands.len() as int,
                    s.inputs.len() as int,
                ) by {
                    if j < objs@.len() {
                        assert(args[j] == objs@[j]);
                        assert(arg_refers_back(objs@[j], old(ptb)@.commands.len() as int, old(ptb)@.inputs.len() as int));
                    }
                }
                assert(command_refers_back(cmd, s.commands.len() as int, s.inputs.len() as int));
            }
        }
        ptb.commands.push(cmd);
        proof {
            let f = ptb@;
            let o = old(ptb)@;
            if results_refer_back(o) && (forall|k: int| 0 <= k < objs@.len() ==> result_refers_back(#[trigger] objs@[k], o.commands.len() as int)) {
                assert forall|c: int, j: int|
                    0 <= c < f.commands.len() && 0 <= j < command_args(f.commands[c]).len() implies result_refers_back(
                        #[trigger] command_args(f.commands[c])[j],
                        c,
                    ) by {
                    if c < o.commands.len() {
                        assert(f.commands[c] == o.commands[c]);
                    } else {
                        let args = command_args(f.commands[c]);
                        assert(args == objs@.push(SequenceArgument::Input(slot)));
                        if j < objs@.len() {
                            assert(args[j] == objs@[j]);
                        }
                    }
                }
            }
        }
        proof {
            let t = SequenceView { inputs: ptb.inputs@, commands: ptb.commands@ };
            if sequence_wf(old(ptb)@) && all_refer_back(objs@, old(ptb)@.commands.len() as int, old(ptb)@.inputs.len() as int) {
                assert forall|i: int| 0 <= i < t.commands.len() implies command_refers_back(
                    #[trigger] t.commands[i],
                    i,
                    t.inputs.len() as int,
                ) by {
                    if i < old(ptb)@.commands.len() {
                        assert(t.commands[i] == old(ptb)@.commands[i]);
                        assert(command_refers_back(old(ptb)@.commands[i], i, old(ptb)@.inputs.len() as int));
                        lemma_refers_back_mono(t.commands[i], i, old(ptb)@.inputs.len() as int, i, t.inputs.len() as int);
                    }
                }
            }
        }
    }
}

/// Takes off a trailing route-to-actor command together with the last input slot.
pub fn remove_process_key_store(ptb: &mut MoveSequence)
    ensures
        key_store_removed(old(ptb)@, final(ptb)@),
{
    let ends = match ptb.commands.last() {
        Some(MoveSequenceCall::TransferObjects(_, SequenceArgument::Input(_))) => true,
        _ => false,
    };
    if ends {
        ptb.commands.pop();
        ptb.inputs.pop();
    }
}

/// Removing key-store post-processing undoes applying it, on a sequence that does
/// not already end in a route-to-actor command.
pub proof fn lemma_key_store_round_trip(
    s: SequenceView,
    objs: Vec<SequenceArgument>,
    attacker: MoveAddress,
    applied: SequenceView,
    removed: SequenceView,
)
    requires
        !ends_with_route(s),
        key_store_applied(s, objs, attacker, applied),
        key_store_removed(applied, removed),
    ensures
        removed == s,
{
    if objs@.len() > 0 {
        assert(applied.commands.drop_last() =~= s.commands);
        assert(applied.inputs.drop_last() =~= s.inputs);
    }
}

/// Whether `c` converts a balance into a coin: a call of `0x2::coin::from_balance`.
pub open spec fn is_from_balance(c: MoveSequenceCall) -> bool {
    &&& c is Call
    &&& c->Call_0.module_id == MoveAddress(U256 { lo: 2, hi: 0 })
    &&& c->Call_0.module_name@ == "coin"@
    &&& c->Call_0.function@ == "from_balance"@
}

/// Where the run of balance conversions at the end of `cmds` begins.
pub open spec fn trailing_start(cmds: Seq<MoveSequenceCall>) -> int
    decreases cmds.len(),
{
    if cmds.len() == 0 {
        0
    } else if is_from_balance(cmds.last()) {
        trailing_start(cmds.drop_last())
    } else {
        cmds.len() as int
    }
}

/// `t` is `s` with the run of balance conversions at its end taken off.
pub open spec fn balance_removed(s: SequenceView, t: SequenceView) -> bool {
    t.inputs == s.inputs && t.commands == s.commands.take(trailing_start(s.commands))
}

/// The command position and result position that a balance argument names.
pub open spec fn balance_site(b: SequenceArgument) -> (int, int) {
    match b {
        SequenceArgument::Result(i) => (i as int, 0),
        SequenceArgument::NestedResult(i, j) => (i as int, j as int),
        SequenceArgument::Input(_) => (-1, 0),
    }
}

/// Whether the signature `f` is the one of the function that `c` calls.
pub open spec fn abi_matches(f: FunctionAbi, c: MoveCall) -> bool {
    f.module_id == c.module_id && f.module_name@ == c.module_name@ && f.name@ == c.function@
}

/// `k` is the first signature in `fns` of the function that `c` calls.
pub open spec fn first_match(fns: Seq<FunctionAbi>, c: MoveCall, k: int) -> bool {
    &&& 0 <= k < fns.len()
    &&& abi_matches(fns[k], c)
    &&& forall|j: int| 0 <= j < k ==> !abi_matches(#[trigger] fns[j], c)
}

/// The call that produces the balance `b`, when `b` names an earlier call.
pub open spec fn producing_call(cmds: Seq<MoveSequenceCall>, b: SequenceArgument) -> Option<MoveCall> {
    let i = balance_site(b).0;
    if 0 <= i < cmds.len() && cmds[i] is Call {
        Some(cmds[i]->Call_0)
    } else {
        None
    }
}

/// The first type argument of the declared type of result `ri` of `c`, when that
/// type is a generic struct instantiation.
pub open spec fn balance_token(fns: Seq<FunctionAbi>, c: MoveCall, ri: int) -> Option<MoveAbiSignatureToken> {
    if exists|k: int| first_match(fns, c, k) {
        let k = choose|k: int| first_match(fns, c, k);
        let rets = fns[k].return_types@;
        if 0 <= ri < rets.len() && rets[ri] is StructInstantiation
            && rets[ri]->StructInstantiation_1@.len() > 0 {
            Some(rets[ri]->StructInstantiation_1@[0])
        } else {
            None
        }
    } else {
        None
    }
}

/// Whether the coin type of the balance `b` can be worked out: from the producing
/// call's own type arguments, or from a concrete first type argument.
pub open spec fn balance_resolvable(cmds: Seq<MoveSequenceCall>, fns: Seq<FunctionAbi>, b: SequenceArgument) -> bool {
    match producing_call(cmds, b) {
        Some(c) => match balance_token(fns, c, balance_site(b).1) {
            Some(tok) => match tok {
                MoveAbiSignatureToken::TypeParameter(j) => j < c.type_arguments@.len(),
                _ => substitutable(tok, 0),
            },
            None => false,
        },
        None => false,
    }
}

/// `ty` is the coin type of the balance `b`.
pub open spec fn balance_type(
    cmds: Seq<MoveSequenceCall>,
    fns: Seq<FunctionAbi>,
    b: SequenceArgument,
    ty: MoveTypeTag,
) -> bool {
    match producing_call(cmds, b) {
        Some(c) => match balance_token(fns, c, balance_site(b).1) {
            Some(tok) => match tok {
                MoveAbiSignatureToken::TypeParameter(j) => j < c.type_arguments@.len() && tag_eq(
                    ty,
                    c.type_arguments@[j as int],
                ),
                _ => subst_rel(tok, seq![], ty),
            },
            None => false,
        },
        None => false,
    }
}

/// `cmd` converts the balance `b` of `cmds` into a coin of its type.
pub open spec fn converts_balance(
    cmd: MoveSequenceCall,
    cmds: Seq<MoveSequenceCall>,
    fns: Seq<FunctionAbi>,
    b: SequenceArgument,
) -> bool {
    &&& is_from_balance(cmd)
    &&& cmd->Call_0.arguments@ == seq![b]
    &&& cmd->Call_0.type_arguments@.len() == 1
    &&& balance_type(cmds, fns, b, cmd->Call_0.type_arguments@[0])
}

/// `t` is `s` with one conversion appended for each of `balances`, in order.
pub open spec fn balance_applied(
    s: SequenceView,
    balances: Seq<SequenceArgument>,
    fns: Seq<FunctionAbi>,
    t: SequenceView,
) -> bool {
    &&& t.inputs == s.inputs
    &&& t.commands.len() == s.commands.len() + balances.len()
    &&& t.commands.take(s.commands.len() as int) == s.commands
    &&& forall|k: int|
        0 <= k < balances.len() ==> converts_balance(
            #[trigger] t.commands[s.commands.len() + k],
            s.commands,
            fns,
            balances[k],
        )
}

proof fn lemma_first_match_unique(fns: Seq<FunctionAbi>, c: MoveCall, k1: int, k2: int)
    requires
        first_match(fns, c, k1),
        first_match(fns, c, k2),
    ensures
        k1 == k2,
{
    if k1 < k2 {
        assert(!abi_matches(fns[k1], c));
    } else if k2 < k1 {
        assert(!abi_matches(fns[k2], c));
    }
}

/// The first signature in `functions` of the function that `c` calls.
fn find_function(functions: &Vec<FunctionAbi>, c: &MoveCall) -> (r: Option<usize>)
    ensures
        r is Some ==> first_match(functions@, *c, r->Some_0 as int),
        r is None ==> !exists|k: int| first_match(functions@, *c, k),
{
    let mut i: usize = 0;
    while i < functions.len()
        invariant
            i <= functions@.len(),
            forall|j: int| 0 <= j < i ==> !abi_matches(#[trigger] functions@[j], *c),
        decreases functions@.len() - i,
    {
        let f = &functions[i];
        if f.module_id == c.module_id && f.module_name == c.module_name && f.name == c.function {
            return Some(i);
        }
        i = i + 1;
    }
    None
}

/// The coin type of the balance `b`, when it can be worked out.
fn resolve_balance(cmds: &Vec<MoveSequenceCall>, functions: &Vec<FunctionAbi>, b: SequenceArgument) -> (r: Option<MoveTypeTag>)
    ensures
        r is Some <==> balance_resolvable(cmds@, functions@, b),
        r is Some ==> balance_type(cmds@, functions@, b, r->Some_0),
{
    let (i, ri) = match b {
        SequenceArgument::Result(i) => (i, 0u16),
        SequenceArgument::NestedResult(i, j) => (i, j),
        SequenceArgument::Input(_) => return None,
    };
    if i as usize >= cmds.len() {
        return None;
    }
    let c = match &cmds[i as usize] {
        MoveSequenceCall::Call(c) => c,
        _ => return None,
    };
    let k = match find_function(functions, c) {
        Some(k) => k,
        None => return None,
    };
    proof {
        let kk = choose|kk: int| first_match(functions@, *c, kk);
        lemma_first_match_unique(functions@, *c, k as int, kk);
    }
    let rets = &functions[k].return_types;
    if ri as usize >= rets.len() {
        return None;
    }
    match &rets[ri as usize] {
        MoveAbiSignatureToken::StructInstantiation(_, targs) => {
            if targs.len() == 0 {
                return None;
            }
            match &targs[0] {
                MoveAbiSignatureToken::TypeParameter(j) => {
                    if (*j as usize) < c.type_arguments.len() {
                        Some(clone_tag(&c.type_arguments[*j as usize]))
                    } else {
                        None
                    }
                },
                tok => tok.subst(&Vec::new()),
            }
        },
        _ => None,
    }
}

/// A call of `0x2::coin::from_balance<ty>` on `b`.
fn from_balance_call(ty: MoveTypeTag, b: SequenceArgument) -> (r: MoveSequenceCall)
    ensures
        is_from_balance(r),
        r->Call_0.arguments@ == seq![b],
        r->Call_0.type_arguments@ == seq![ty],
{
    let mut type_arguments: Vec<MoveTypeTag> = Vec::new();
    type_arguments.push(ty);
    let mut arguments: Vec<SequenceArgument> = Vec::new();
    arguments.push(b);
    let r = MoveSequenceCall::Call(
        MoveCall {
            module_id: MoveAddress::two(),
            module_name: "coin".to_owned(),
            function: "from_balance".to_owned(),
            type_arguments,
            arguments,
        },
    );
    proof {
        reveal_strlit("coin");
        reveal_strlit("from_balance");
        assert(r->Call_0.arguments@ =~= seq![b]);
        assert(r->Call_0.type_arguments@ =~= seq![ty]);
    }
    r
}

/// Appends, for each of `balances` in order, a call that converts that raw balance
/// into a coin of its type. When the type of one cannot be worked out, returns the
/// position of the first such balance and leaves the sequence as it was.
pub fn process_balance(ptb: &mut MoveSequence, balances: &Vec<SequenceArgument>, functions: &Vec<FunctionAbi>) -> (r: Result<(), usize>)
    ensures
        r is Ok <==> forall|k: int|
            0 <= k < balances@.len() ==> balance_resolvable(
                old(ptb)@.commands,
                functions@,
                #[trigger] balances@[k],
            ),
        r is Ok ==> balance_applied(old(ptb)@, balances@, functions@, final(ptb)@),
        r is Err ==> final(ptb)@ == old(ptb)@ && r->Err_0 < balances@.len()
            && !balance_resolvable(old(ptb)@.commands, functions@, balances@[r->Err_0 as int])
            && forall|k: int| 0 <= k < r->Err_0 ==> balance_resolvable(
                old(ptb)@.commands,
                functions@,
                #[trigger] balances@[k],
            ),
        r is Ok && sequence_wf(old(ptb)@) ==> sequence_wf(final(ptb)@),
        r is Ok && results_refer_back(old(ptb)@) ==> results_refer_back(final(ptb)@),
{
    let mut tys: Vec<MoveTypeTag> = Vec::new();
    let mut i: usize = 0;
    while i < balances.len()
        invariant
            i <= balances@.len(),
            tys@.len() == i,
            forall|k: int| 0 <= k < i ==> balance_resolvable(ptb.commands@, functions@, #[trigger] balances@[k]),
            forall|k: int| 0 <= k < i ==> balance_type(ptb.commands@, functions@, balances@[k], #[trigger] tys@[k]),
        decreases balances@.len() - i,
    {
        match resolve_balance(&ptb.commands, functions, balances[i]) {
            Some(t) => tys.push(t),
            None => return Err(i),
        }
        i = i + 1;
    }
    let ghost n = ptb.commands@.len();
    let ghost old_cmds = ptb.commands@;
    let mut j: usize = 0;
    let ghost all_tys = tys@;
    let mut rest = tys;
    assert(rest@ =~= all_tys.subrange(0, all_tys.len() as int));
    while j < balances.len()
        invariant
            j <= balances@.len(),
            all_tys.len() == balances@.len(),
            rest@ == all_tys.subrange(j as int, all_tys.len() as int),
            ptb.inputs@ == old(ptb).inputs@,
            ptb.commands@.len() == n + j,
            ptb.commands@.take(n as int) == old_cmds,
            old_cmds == old(ptb).commands@,
            forall|k: int| 0 <= k < balances@.len() ==> balance_type(old_cmds, functions@, balances@[k], #[trigger] all_tys[k]),
            forall|k: int| 0 <= k < j ==> converts_balance(#[trigger] ptb.commands@[n + k], old_cmds, functions@, balances@[k]),
            sequence_wf(old(ptb)@) ==> sequence_wf(ptb@),
            results_refer_back(old(ptb)@) ==> results_refer_back(ptb@),
        decreases balances@.len() - j,
    {
        let t = rest.remove(0);
        proof {
            assert(t == all_tys[j as int]);
            assert(rest@ =~= all_tys.subrange(j + 1, all_tys.len() as int));
        }
        let cmd = from_balance_call(t, balances[j]);
        let ghost before = ptb@;
        proof {
            let b = balances@[j as int];
            assert(balance_type(old_cmds, functions@, b, all_tys[j as int]));
            assert(producing_call(old_cmds, b) is Some);
            assert(command_args(cmd) == seq![b]);
            assert(arg_refers_back(command_args(cmd)[0], (n + j) as int, before.inputs.len() as int));
            assert(command_refers_back(cmd, (n + j) as int, before.inputs.len() as int));
        }
        ptb.commands.push(cmd);
        proof {
            assert(ptb.commands@.take(n as int) =~= old_cmds);
            if results_refer_back(old(ptb)@) {
                let t = ptb@;
                assert forall|c: int, jj: int|
                    0 <= c < t.commands.len() && 0 <= jj < command_args(t.commands[c]).len() implies result_refers_back(
                        #[trigger] command_args(t.commands[c])[jj],
                        c,
                    ) by {
                    if c < before.commands.len() {
                        assert(t.commands[c] == before.commands[c]);
                    } else {
                        assert(t.commands[c] == cmd);
                        assert(command_args(cmd)[0] == balances@[j as int]);
                    }
                }
            }
            if sequence_wf(old(ptb)@) {
                let t = ptb@;
                assert forall|i: int| 0 <= i < t.commands.len() implies command_refers_back(
                    #[trigger] t.commands[i],
                    i,
                    t.inputs.len() as int,
                ) by {
                    if i < before.commands.len() {
                        assert(t.commands[i] == before.commands[i]);
                    }
                }
            }
        }
        j = j + 1;
    }
    Ok(())
}

/// Takes off the balance conversions at the end of the sequence, stopping at the
/// first command that is not one.
pub fn remove_process_balance(ptb: &mut MoveSequence)
    ensures
        balance_removed(old(ptb)@, final(ptb)@),
{
    while ptb.commands.len() > 0
        invariant
            ptb.inputs@ == old(ptb).inputs@,
            ptb.commands@ == old(ptb).commands@.take(ptb.commands@.len() as int),
            ptb.commands@.len() <= old(ptb).commands@.len(),
            trailing_start(ptb.commands@) == trailing_start(old(ptb).commands@),
        ensures
            ptb.inputs@ == old(ptb).inputs@,
            ptb.commands@ == old(ptb).commands@.take(ptb.commands@.len() as int),
            trailing_start(ptb.commands@) == trailing_start(old(ptb).commands@),
            trailing_start(ptb.commands@) == ptb.commands@.len(),
        decreases ptb.commands@.len(),
    {
        if !ends_with_from_balance(&ptb.commands) {
            assert(trailing_start(ptb.commands@) == ptb.commands@.len());
            break;
        }
        ptb.commands.pop();
        proof {
            assert(ptb.commands@ =~= old(ptb).commands@.take(ptb.commands@.len() as int));
        }
    }

}

proof fn lemma_trailing_start_at(cmds: Seq<MoveSequenceCall>, n: int)
    requires
        0 <= n <= cmds.len(),
        forall|k: int| n <= k < cmds.len() ==> is_from_balance(#[trigger] cmds[k]),
        n == 0 || !is_from_balance(cmds[n - 1]),
    ensures
        trailing_start(cmds) == n,
    decreases cmds.len(),
{
    if cmds.len() > n {
        let init = cmds.drop_last();
        assert(is_from_balance(cmds[cmds.len() - 1]));
        assert forall|k: int| n <= k < init.len() implies is_from_balance(#[trigger] init[k]) by {
            assert(init[k] == cmds[k]);
        }
        if n > 0 {
            assert(init[n - 1] == cmds[n - 1]);
        }
        lemma_trailing_start_at(init, n);
    }
}

/// Removing balance post-processing undoes applying it, on a sequence whose last
/// command is not itself a balance conversion.
pub proof fn lemma_balance_round_trip(
    s: SequenceView,
    balances: Seq<SequenceArgument>,
    fns: Seq<FunctionAbi>,
    applied: SequenceView,
    removed: SequenceView,
)
    requires
        s.commands.len() == 0 || !is_from_balance(s.commands.last()),
        balance_applied(s, balances, fns, applied),
        balance_removed(applied, removed),
    ensures
        removed == s,
{
    let n = s.commands.len() as int;
    let cmds = applied.commands;
    assert forall|k: int| n <= k < cmds.len() implies is_from_balance(#[trigger] cmds[k]) by {
        assert(converts_balance(cmds[n + (k - n)], s.commands, fns, balances[k - n]));
    }
    if n > 0 {
        assert(cmds.take(n)[n - 1] == cmds[n - 1]);
    }
    lemma_trailing_start_at(cmds, n);
    assert(removed.commands =~= s.commands);
}

/// Whether the last command is a balance conversion.
fn ends_with_from_balance(cmds: &Vec<MoveSequenceCall>) -> (r: bool)
    requires
        cmds@.len() > 0,
    ensures
        r == is_from_balance(cmds@.last()),
{
    match &cmds[cmds.len() - 1] {
        MoveSequenceCall::Call(c) => {
            let coin = "coin".to_owned();
            let from_balance = "from_balance".to_owned();
            proof {
                reveal_strlit("coin");
                reveal_strlit("from_balance");
            }
            c.module_id == MoveAddress::two() && c.module_name == coin && c.function == from_balance
        },
        _ => false,
    }
}

} // verus!
