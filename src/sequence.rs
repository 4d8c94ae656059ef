//! Call sequences (one simulated transaction) and the rule that keeps their
//! argument references pointing backwards.

use crate::value::{InputArgument, MoveAddress, MoveTypeTag};
use vstd::prelude::*;

verus! {

/// Where an argument of a command comes from.
#[derive(Clone, Copy, Debug, PartialEq, Eq, Structural, PartialOrd, Ord, Hash)]
pub enum SequenceArgument {
    /// An input slot of the sequence.
    Input(u16),
    /// The result of an earlier command.
    Result(u16),
    /// One result of an earlier command that returns several.
    NestedResult(u16, u16),
}

/// A resolved call of a Move function.
#[derive(Debug, PartialEq, Eq)]
pub struct MoveCall {
    pub module_id: MoveAddress,
    pub module_name: String,
    pub function: String,
    pub type_arguments: Vec<MoveTypeTag>,
    pub arguments: Vec<SequenceArgument>,
}

/// One command of a sequence.
#[derive(Debug, PartialEq, Eq)]
pub enum MoveSequenceCall {
    Call(MoveCall),
    /// Hands the listed objects over to an address.
    TransferObjects(Vec<SequenceArgument>, SequenceArgument),
    SplitCoins(SequenceArgument, Vec<SequenceArgument>),
    MergeCoins(SequenceArgument, Vec<SequenceArgument>),
    MakeMoveVec(Option<MoveTypeTag>, Vec<SequenceArgument>),
}

/// A transaction: input values and the commands that use them.
#[derive(Debug, PartialEq, Eq)]
pub struct MoveSequence {
    pub inputs: Vec<InputArgument>,
    pub commands: Vec<MoveSequenceCall>,
}

/// Inputs and commands, as sequences.
pub struct SequenceView {
    pub inputs: Seq<InputArgument>,
    pub commands: Seq<MoveSequenceCall>,
}

impl View for MoveSequence {
    type V = SequenceView;

    open spec fn view(&self) -> SequenceView {
        SequenceView { inputs: self.inputs@, commands: self.commands@ }
    }
}

/// The arguments that a command reads, in order.
pub open spec fn command_args(c: MoveSequenceCall) -> Seq<SequenceArgument> {
    match c {
        MoveSequenceCall::Call(m) => m.arguments@,
        MoveSequenceCall::TransferObjects(objs, to) => objs@.push(to),
        MoveSequenceCall::SplitCoins(coin, amounts) => seq![coin] + amounts@,
        MoveSequenceCall::MergeCoins(dst, srcs) => seq![dst] + srcs@,
        MoveSequenceCall::MakeMoveVec(_, elems) => elems@,
    }
}

/// Whether `a`, read by the command at position `at`, names an existing input slot
/// or a command strictly before `at`.
pub open spec fn arg_refers_back(a: SequenceArgument, at: int, n_inputs: int) -> bool {
    match a {
        SequenceArgument::Input(k) => k < n_inputs,
        SequenceArgument::Result(i) => i < at,
        SequenceArgument::NestedResult(i, _) => i < at,
    }
}

/// Whether every argument in `args`, read at position `at`, refers back.
pub open spec fn all_refer_back(args: Seq<SequenceArgument>, at: int, n_inputs: int) -> bool {
    forall|j: int| 0 <= j < args.len() ==> arg_refers_back(#[trigger] args[j], at, n_inputs)
}

/// Whether every argument of `c`, standing at position `at`, refers back.
pub open spec fn command_refers_back(c: MoveSequenceCall, at: int, n_inputs: int) -> bool {
    all_refer_back(command_args(c), at, n_inputs)
}

/// Whether `a`, read by the command at position `at`, names no result of a command
/// at or after `at` (input slots are not checked).
pub open spec fn result_refers_back(a: SequenceArgument, at: int) -> bool {
    match a {
        SequenceArgument::Input(_) => true,
        SequenceArgument::Result(i) => i < at,
        SequenceArgument::NestedResult(i, _) => i < at,
    }
}

/// Whether every result that a command reads comes from an earlier command.
pub open spec fn results_refer_back(s: SequenceView) -> bool {
    forall|c: int, j: int|
        0 <= c < s.commands.len() && 0 <= j < command_args(s.commands[c]).len() ==> result_refers_back(
            #[trigger] command_args(s.commands[c])[j],
            c,
        )
}

/// Whether every command reads only input slots that exist and results of earlier
/// commands.
pub open spec fn sequence_wf(s: SequenceView) -> bool {
    forall|i: int|
        0 <= i < s.commands.len() ==> command_refers_back(
            #[trigger] s.commands[i],
            i,
            s.inputs.len() as int,
        )
}

/// A command that refers back at one position still does at a later one, or with
/// more input slots.
pub proof fn lemma_refers_back_mono(c: MoveSequenceCall, at: int, n: int, at2: int, n2: int)
    requires
        command_refers_back(c, at, n),
        at <= at2,
        n <= n2,
    ensures
        command_refers_back(c, at2, n2),
{
    assert forall|j: int| 0 <= j < command_args(c).len() implies arg_refers_back(
        #[trigger] command_args(c)[j],
        at2,
        n2,
    ) by {
        assert(arg_refers_back(command_args(c)[j], at, n));
    }
}

fn args_refer_back(args: &Vec<SequenceArgument>, at: usize, n_inputs: usize) -> (r: bool)
    ensures
        r == all_refer_back(args@, at as int, n_inputs as int),
{
    let mut i: usize = 0;
    while i < args.len()
        invariant
            i <= args@.len(),
            forall|j: int| 0 <= j < i ==> arg_refers_back(#[trigger] args@[j], at as int, n_inputs as int),
        decreases args@.len() - i,
    {
        if !arg_back(&args[i], at, n_inputs) {
            return false;
        }
        i = i + 1;
    }
    true
}

fn arg_back(a: &SequenceArgument, at: usize, n_inputs: usize) -> (r: bool)
    ensures
        r == arg_refers_back(*a, at as int, n_inputs as int),
{
    match a {
        SequenceArgument::Input(k) => (*k as usize) < n_inputs,
        SequenceArgument::Result(i) => (*i as usize) < at,
        SequenceArgument::NestedResult(i, _) => (*i as usize) < at,
    }
}

/// Whether every argument of `c`, placed at position `at` of a sequence with
/// `n_inputs` input slots, refers back.
pub fn check_command(c: &MoveSequenceCall, at: usize, n_inputs: usize) -> (r: bool)
    ensures
        r == command_refers_back(*c, at as int, n_inputs as int),
{
    match c {
        MoveSequenceCall::Call(m) => {
            args_refer_back(&m.arguments, at, n_inputs)
        },
        MoveSequenceCall::TransferObjects(objs, to) => {
            let a = args_refer_back(objs, at, n_inputs);
            let b = arg_back(to, at, n_inputs);
            proof {
                let args = command_args(*c);
                assert(args == objs@.push(*to));
                assert(forall|j: int| 0 <= j < objs@.len() ==> args[j] == objs@[j]);
                assert(args[objs@.len() as int] == *to);
                if !a {
                    let j = choose|j: int| 0 <= j < objs@.len() && !arg_refers_back(#[trigger] objs@[j], at as int, n_inputs as int);
                    assert(args[j] == objs@[j]);
                }
            }
            a && b
        },
        MoveSequenceCall::SplitCoins(first, rest) | MoveSequenceCall::MergeCoins(first, rest) => {
            let a = arg_back(first, at, n_inputs);
            let b = args_refer_back(rest, at, n_inputs);
            proof {
                let args = command_args(*c);
                assert(args == seq![*first] + rest@);
                assert(args[0] == *first);
                assert(forall|j: int| 0 <= j < rest@.len() ==> args[j + 1] == rest@[j]);
                if !b {
                    let j = choose|j: int| 0 <= j < rest@.len() && !arg_refers_back(#[trigger] rest@[j], at as int, n_inputs as int);
                    assert(args[j + 1] == rest@[j]);
                }
                if a && b {
                    assert forall|j: int| 0 <= j < args.len() implies arg_refers_back(#[trigger] args[j], at as int, n_inputs as int) by {
                        if j > 0 {
                            assert(args[j] == rest@[j - 1]);
                        }
                    }
                }
            }
            a && b
        },
        MoveSequenceCall::MakeMoveVec(_, elems) => {
            args_refer_back(elems, at, n_inputs)
        },
    }
}

impl MoveSequence {
    /// A sequence with no inputs and no commands.
    pub fn new() -> (r: MoveSequence)
        ensures
            r@.inputs.len() == 0,
            r@.commands.len() == 0,
            sequence_wf(r@),
    {
        MoveSequence { inputs: Vec::new(), commands: Vec::new() }
    }

    /// Whether every command reads only existing inputs and earlier results.
    pub fn is_well_formed(&self) -> (r: bool)
        ensures
            r == sequence_wf(self@),
    {
        let mut i: usize = 0;
        while i < self.commands.len()
            invariant
                i <= self.commands@.len(),
                forall|k: int| 0 <= k < i ==> command_refers_back(
                    #[trigger] self.commands@[k],
                    k,
                    self.inputs@.len() as int,
                ),
            decreases self.commands@.len() - i,
        {
            proof {
                assert(self@.commands == self.commands@);
            }
            if !check_command(&self.commands[i], i, self.inputs.len()) {
                assert(self@.commands[i as int] == self.commands@[i as int]);
                return false;
            }
            i = i + 1;
        }
        true
    }

    /// Adds an input slot and returns its index.
    pub fn push_input(&mut self, value: InputArgument) -> (r: u16)
        requires
            old(self).inputs@.len() < 0xFFFF,
        ensures
            final(self)@.inputs == old(self)@.inputs.push(value),
            final(self)@.commands == old(self)@.commands,
            r == old(self)@.inputs.len(),
            sequence_wf(old(self)@) ==> sequence_wf(final(self)@),
    {
        let r = self.inputs.len() as u16;
        self.inputs.push(value);
        proof {
            let s = final(self)@;
            if sequence_wf(old(self)@) {
                assert forall|i: int| 0 <= i < s.commands.len() implies command_refers_back(
                    #[trigger] s.commands[i],
                    i,
                    s.inputs.len() as int,
                ) by {
                    assert(command_refers_back(old(self)@.commands[i], i, old(self)@.inputs.len() as int));
                    lemma_refers_back_mono(s.commands[i], i, old(self)@.inputs.len() as int, i, s.inputs.len() as int);
                }
            }
        }
        r
    }

    /// Appends `cmd` when all its arguments refer back; otherwise leaves the
    /// sequence as it was and returns false.
    pub fn push_command(&mut self, cmd: MoveSequenceCall) -> (r: bool)
        ensures
            r == command_refers_back(cmd, old(self)@.commands.len() as int, old(self)@.inputs.len() as int),
            r ==> final(self)@.commands == old(self)@.commands.push(cmd),
            !r ==> final(self)@.commands == old(self)@.commands,
            final(self)@.inputs == old(self)@.inputs,
            sequence_wf(old(self)@) ==> sequence_wf(final(self)@),
    {
        if check_command(&cmd, self.commands.len(), self.inputs.len()) {
            self.commands.push(cmd);
            proof {
                let s = final(self)@;
                if sequence_wf(old(self)@) {
                    assert forall|i: int| 0 <= i < s.commands.len() implies command_refers_back(
                        #[trigger] s.commands[i],
                        i,
                        s.inputs.len() as int,
                    ) by {
                        if i < old(self)@.commands.len() {
                            assert(command_refers_back(old(self)@.commands[i], i, s.inputs.len() as int));
                        } else {
                            assert(s.commands[i] == cmd);
                        }
                    }
                }
            }
            true
        } else {
            false
        }
    }
}

/// Whether `a` reads the result of the command at `idx`.
pub open spec fn refers_to(a: SequenceArgument, idx: int) -> bool {
    match a {
        SequenceArgument::Input(_) => false,
        SequenceArgument::Result(i) => i == idx,
        SequenceArgument::NestedResult(i, _) => i == idx,
    }
}

/// Whether none of `args` reads the result of the command at `idx`.
pub open spec fn free_of(args: Seq<SequenceArgument>, idx: int) -> bool {
    forall|j: int| 0 <= j < args.len() ==> !refers_to(#[trigger] args[j], idx)
}

/// `a` after the command at `idx` is taken out: references to later commands move
/// down by one.
pub open spec fn shift_down(a: SequenceArgument, idx: int) -> SequenceArgument {
    match a {
        SequenceArgument::Result(i) => if i > idx {
            SequenceArgument::Result((i - 1) as u16)
        } else {
            a
        },
        SequenceArgument::NestedResult(i, j) => if i > idx {
            SequenceArgument::NestedResult((i - 1) as u16, j)
        } else {
            a
        },
        SequenceArgument::Input(_) => a,
    }
}

/// Each of `args` shifted down past `idx`.
pub open spec fn shift_all(args: Seq<SequenceArgument>, idx: int) -> Seq<SequenceArgument> {
    args.map_values(|a: SequenceArgument| shift_down(a, idx))
}

/// `r` is the command `c` with its arguments shifted down past `idx`, all else kept.
pub open spec fn shifted(c: MoveSequenceCall, r: MoveSequenceCall, idx: int) -> bool {
    match c {
        MoveSequenceCall::Call(m) => {
            &&& r is Call
            &&& r->Call_0.module_id == m.module_id
            &&& r->Call_0.module_name == m.module_name
            &&& r->Call_0.function == m.function
            &&& r->Call_0.type_arguments == m.type_arguments
            &&& r->Call_0.arguments@ == shift_all(m.arguments@, idx)
        },
        MoveSequenceCall::TransferObjects(objs, to) => {
            &&& r is TransferObjects
            &&& r->TransferObjects_0@ == shift_all(objs@, idx)
            &&& r->TransferObjects_1 == shift_down(to, idx)
        },
        MoveSequenceCall::SplitCoins(coin, amounts) => {
            &&& r is SplitCoins
            &&& r->SplitCoins_0 == shift_down(coin, idx)
            &&& r->SplitCoins_1@ == shift_all(amounts@, idx)
        },
        MoveSequenceCall::MergeCoins(dst, srcs) => {
            &&& r is MergeCoins
            &&& r->MergeCoins_0 == shift_down(dst, idx)
            &&& r->MergeCoins_1@ == shift_all(srcs@, idx)
        },
        MoveSequenceCall::MakeMoveVec(t, elems) => {
            &&& r is MakeMoveVec
            &&& r->MakeMoveVec_0 == t
            &&& r->MakeMoveVec_1@ == shift_all(elems@, idx)
        },
    }
}

proof fn lemma_shifted_args(c: MoveSequenceCall, r: MoveSequenceCall, idx: int)
    requires
        shifted(c, r, idx),
    ensures
        command_args(r) == shift_all(command_args(c), idx),
{
    match c {
        MoveSequenceCall::Call(m) => {},
        MoveSequenceCall::TransferObjects(objs, to) => {
            assert(command_args(r) =~= shift_all(command_args(c), idx));
        },
        MoveSequenceCall::SplitCoins(coin, amounts) => {
            assert(command_args(r) =~= shift_all(command_args(c), idx));
        },
        MoveSequenceCall::MergeCoins(dst, srcs) => {
            assert(command_args(r) =~= shift_all(command_args(c), idx));
        },
        MoveSequenceCall::MakeMoveVec(t, elems) => {},
    }
}

/// A command that stood at `at + 1` and does not read `idx` <= `at` still refers
/// back at `at` once shifted.
proof fn lemma_shifted_refers_back(c: MoveSequenceCall, r: MoveSequenceCall, idx: int, at: int, n: int)
    requires
        shifted(c, r, idx),
        0 <= idx <= at,
        command_refers_back(c, at + 1, n),
        free_of(command_args(c), idx),
    ensures
        command_refers_back(r, at, n),
{
    lemma_shifted_args(c, r, idx);
    assert forall|j: int| 0 <= j < command_args(r).len() implies arg_refers_back(#[trigger] command_args(r)[j], at, n) by {
        let a = command_args(c)[j];
        assert(arg_refers_back(a, at + 1, n));
        assert(!refers_to(a, idx));
    }
}

fn shift_arg(a: SequenceArgument, idx: u16) -> (r: SequenceArgument)
    ensures
        r == shift_down(a, idx as int),
{
    match a {
        SequenceArgument::Result(i) => if i > idx {
            SequenceArgument::Result(i - 1)
        } else {
            a
        },
        SequenceArgument::NestedResult(i, j) => if i > idx {
            SequenceArgument::NestedResult(i - 1, j)
        } else {
            a
        },
        SequenceArgument::Input(_) => a,
    }
}

fn shift_args(args: &Vec<SequenceArgument>, idx: u16) -> (r: Vec<SequenceArgument>)
    ensures
        r@ == shift_all(args@, idx as int),
{
    let mut out: Vec<SequenceArgument> = Vec::new();
    let mut i: usize = 0;
    while i < args.len()
        invariant
            i <= args@.len(),
            out@ == shift_all(args@.take(i as int), idx as int),
        decreases args@.len() - i,
    {
        out.push(shift_arg(args[i], idx));
        proof {
            assert(shift_all(args@.take(i + 1), idx as int) =~= shift_all(args@.take(i as int), idx as int).push(shift_down(args@[i as int], idx as int)));
        }
        i = i + 1;
    }
    assert(args@.take(i as int) =~= args@);
    out
}

fn shift_command(c: MoveSequenceCall, idx: u16) -> (r: MoveSequenceCall)
    ensures
        shifted(c, r, idx as int),
{
    match c {
        MoveSequenceCall::Call(m) => {
            let arguments = shift_args(&m.arguments, idx);
            MoveSequenceCall::Call(
                MoveCall {
                    module_id: m.module_id,
                    module_name: m.module_name,
                    function: m.function,
                    type_arguments: m.type_arguments,
                    arguments,
                },
            )
        },
        MoveSequenceCall::TransferObjects(objs, to) => MoveSequenceCall::TransferObjects(
            shift_args(&objs, idx),
            shift_arg(to, idx),
        ),
        MoveSequenceCall::SplitCoins(coin, amounts) => MoveSequenceCall::SplitCoins(
            shift_arg(coin, idx),
            shift_args(&amounts, idx),
        ),
        MoveSequenceCall::MergeCoins(dst, srcs) => MoveSequenceCall::MergeCoins(
            shift_arg(dst, idx),
            shift_args(&srcs, idx),
        ),
        MoveSequenceCall::MakeMoveVec(t, elems) => MoveSequenceCall::MakeMoveVec(
            t,
            shift_args(&elems, idx),
        ),
    }
}

fn args_free_of(args: &Vec<SequenceArgument>, idx: u16) -> (r: bool)
    ensures
        r == free_of(args@, idx as int),
{
    let mut i: usize = 0;
    while i < args.len()
        invariant
            i <= args@.len(),
            forall|j: int| 0 <= j < i ==> !refers_to(#[trigger] args@[j], idx as int),
        decreases args@.len() - i,
    {
        let hit = match args[i] {
            SequenceArgument::Result(k) => k == idx,
            SequenceArgument::NestedResult(k, _) => k == idx,
            SequenceArgument::Input(_) => false,
        };
        if hit {
            return false;
        }
        i = i + 1;
    }
    true
}

/// Whether no argument of `c` reads the result of the command at `idx`.
fn command_free_of(c: &MoveSequenceCall, idx: u16) -> (r: bool)
    ensures
        r == free_of(command_args(*c), idx as int),
{
    let one = |a: SequenceArgument| -> (b: bool)
        ensures
            b == !refers_to(a, idx as int),
        {
            match a {
                SequenceArgument::Result(k) => k != idx,
                SequenceArgument::NestedResult(k, _) => k != idx,
                SequenceArgument::Input(_) => true,
            }
        };
    match c {
        MoveSequenceCall::Call(m) => args_free_of(&m.arguments, idx),
        MoveSequenceCall::TransferObjects(objs, to) => {
            let a = args_free_of(objs, idx);
            let b = one(*to);
            proof {
                let args = command_args(*c);
                assert(args == objs@.push(*to));
                assert(forall|j: int| 0 <= j < objs@.len() ==> args[j] == objs@[j]);
                assert(args[objs@.len() as int] == *to);
                if !a {
                    let j = choose|j: int| 0 <= j < objs@.len() && refers_to(#[trigger] objs@[j], idx as int);
                    assert(args[j] == objs@[j]);
                }
            }
            a && b
        },
        MoveSequenceCall::SplitCoins(first, rest) | MoveSequenceCall::MergeCoins(first, rest) => {
            let a = one(*first);
            let b = args_free_of(rest, idx);
            proof {
                let args = command_args(*c);
                assert(args == seq![*first] + rest@);
                assert(args[0] == *first);
                assert(forall|j: int| 0 <= j < rest@.len() ==> args[j + 1] == rest@[j]);
                if !b {
                    let j = choose|j: int| 0 <= j < rest@.len() && refers_to(#[trigger] rest@[j], idx as int);
                    assert(args[j + 1] == rest@[j]);
                }
                if a && b {
                    assert forall|j: int| 0 <= j < args.len() implies !refers_to(#[trigger] args[j], idx as int) by {
                        if j > 0 {
                            assert(args[j] == rest@[j - 1]);
                        }
                    }
                }
            }
            a && b
        },
        MoveSequenceCall::MakeMoveVec(_, elems) => args_free_of(elems, idx),
    }
}

impl MoveSequence {
    /// Takes out the command at `idx` when no later command reads its result; later
    /// references to commands after it move down by one. Otherwise leaves the
    /// sequence as it was and returns false.
    pub fn remove_command(&mut self, idx: usize) -> (r: bool)
        requires
            old(self)@.commands.len() <= 0xFFFF,
        ensures
            r == (idx < old(self)@.commands.len() && forall|k: int|
                idx < k < old(self)@.commands.len() ==> free_of(
                    command_args(#[trigger] old(self)@.commands[k]),
                    idx as int,
                )),
            !r ==> final(self)@ == old(self)@,
            r ==> final(self)@.inputs == old(self)@.inputs,
            r ==> final(self)@.commands.len() == old(self)@.commands.len() - 1,
            r ==> forall|k: int| 0 <= k < idx ==> #[trigger] final(self)@.commands[k] == old(self)@.commands[k],
            r ==> forall|k: int|
                idx <= k < final(self)@.commands.len() ==> shifted(
                    old(self)@.commands[k + 1],
                    #[trigger] final(self)@.commands[k],
                    idx as int,
                ),
            sequence_wf(old(self)@) ==> sequence_wf(final(self)@),
    {
        let n = self.commands.len();
        if idx >= n {
            return false;
        }
        let mut k: usize = idx + 1;
        while k < n
            invariant
                idx < n == self.commands@.len(),
                idx + 1 <= k <= n,
                self@ == old(self)@,
                n <= 0xFFFF,
                forall|kk: int| idx < kk < k ==> free_of(command_args(#[trigger] self@.commands[kk]), idx as int),
            decreases n - k,
        {
            if !command_free_of(&self.commands[k], idx as u16) {
                proof {
                    assert(self@.commands[k as int] == self.commands@[k as int]);
                }
                return false;
            }
            k = k + 1;
        }
        let ghost cmds = self.commands@;
        let mut rest: Vec<MoveSequenceCall> = Vec::new();
        std::mem::swap(&mut self.commands, &mut rest);
        let mut i: usize = 0;
        while rest.len() > 0
            invariant
                cmds == old(self)@.commands,
                idx < n == cmds.len(),
                n <= 0xFFFF,
                i + rest@.len() == n,
                rest@ == cmds.subrange(i as int, n as int),
                self.inputs@ == old(self)@.inputs,
                self.commands@.len() == if i <= idx { i as int } else { i - 1 },
                forall|kk: int| 0 <= kk < idx && kk < i ==> #[trigger] self.commands@[kk] == cmds[kk],
                forall|kk: int| idx <= kk < self.commands@.len() ==> shifted(cmds[kk + 1], #[trigger] self.commands@[kk], idx as int),
            decreases rest@.len(),
        {
            let c = rest.remove(0);
            let ghost before = self.commands@;
            proof {
                assert(c == cmds[i as int]);
            }
            if i < idx {
                self.commands.push(c);
            } else if i > idx {
                let s = shift_command(c, idx as u16);
                self.commands.push(s);
                proof {
                    assert(self.commands@[before.len() as int] == s);
                    assert(shifted(cmds[i as int], s, idx as int));
                    assert forall|kk: int| idx <= kk < self.commands@.len() implies shifted(cmds[kk + 1], #[trigger] self.commands@[kk], idx as int) by {
                        if kk < before.len() {
                            assert(self.commands@[kk] == before[kk]);
                        }
                    }
                }
            }
            proof {
                assert(rest@ =~= cmds.subrange(i + 1, n as int));
                assert(forall|kk: int| 0 <= kk < before.len() ==> self.commands@[kk] == before[kk]);
            }
            i = i + 1;
        }
        proof {
            let f = self@;
            let o = old(self)@;
            if sequence_wf(o) {
                assert forall|kk: int| 0 <= kk < f.commands.len() implies command_refers_back(
                    #[trigger] f.commands[kk],
                    kk,
                    f.inputs.len() as int,
                ) by {
                    if kk < idx {
                        assert(f.commands[kk] == o.commands[kk]);
                        assert(command_refers_back(o.commands[kk], kk, o.inputs.len() as int));
                    } else {
                        assert(command_refers_back(o.commands[kk + 1], kk + 1, o.inputs.len() as int));
                        assert(free_of(command_args(o.commands[kk + 1]), idx as int));
                        lemma_shifted_refers_back(o.commands[kk + 1], f.commands[kk], idx as int, kk, o.inputs.len() as int);
                    }
                }
            }
        }
        true
    }
}

} // verus!
