use movy::abi::{FunctionAbi, MoveAbiSignatureToken};
use movy::mutation::mutate_input;
use movy::post::{process_balance, process_key_store, remove_process_balance, remove_process_key_store};
use movy::rand::FuzzContext;
use movy::sequence::{MoveCall, MoveSequence, MoveSequenceCall, SequenceArgument};
use movy::value::{InputArgument, MoveAddress, MoveStructTag, MoveTypeTag, U256};

fn addr(n: u128) -> MoveAddress {
    MoveAddress(U256 { lo: n, hi: 0 })
}

fn struct_tag(address: u128, module: &str, name: &str, tys: Vec<MoveTypeTag>) -> MoveStructTag {
    MoveStructTag { address: addr(address), module: module.to_string(), name: name.to_string(), tys }
}

fn call(module: &str, function: &str, tys: Vec<MoveTypeTag>, args: Vec<SequenceArgument>) -> MoveSequenceCall {
    MoveSequenceCall::Call(MoveCall {
        module_id: addr(0x42),
        module_name: module.to_string(),
        function: function.to_string(),
        type_arguments: tys,
        arguments: args,
    })
}

fn sui_coin() -> MoveTypeTag {
    MoveTypeTag::Struct(Box::new(struct_tag(2, "sui", "SUI", vec![])))
}

fn balance_of(inner: MoveAbiSignatureToken) -> MoveAbiSignatureToken {
    MoveAbiSignatureToken::StructInstantiation(Box::new(struct_tag(2, "balance", "Balance", vec![])), vec![inner])
}

fn withdraw_abi() -> FunctionAbi {
    FunctionAbi {
        module_id: addr(0x42),
        module_name: "pool".to_string(),
        name: "withdraw".to_string(),
        return_types: vec![balance_of(MoveAbiSignatureToken::TypeParameter(0))],
    }
}

/// A sequence whose only call withdraws a raw balance of `amount` (input 0).
fn withdraw_sequence() -> MoveSequence {
    let mut s = MoveSequence::new();
    s.push_input(InputArgument::U64(1000));
    assert!(s.push_command(call("pool", "withdraw", vec![sui_coin()], vec![SequenceArgument::Input(0)])));
    s
}

#[test]
fn push_command_rejects_forward_references() {
    let mut s = MoveSequence::new();
    s.push_input(InputArgument::U64(1));
    assert!(!s.push_command(call("m", "f", vec![], vec![SequenceArgument::Result(0)])));
    assert!(!s.push_command(call("m", "f", vec![], vec![SequenceArgument::Input(1)])));
    assert!(s.commands.is_empty());
    assert!(s.push_command(call("m", "f", vec![], vec![SequenceArgument::Input(0)])));
    assert!(s.push_command(call("m", "g", vec![], vec![SequenceArgument::NestedResult(0, 1)])));
    assert!(!s.push_command(call("m", "h", vec![], vec![SequenceArgument::Result(2)])));
    assert!(s.push_command(MoveSequenceCall::TransferObjects(
        vec![SequenceArgument::Result(1)],
        SequenceArgument::Input(0)
    )));
    assert!(!s.push_command(MoveSequenceCall::SplitCoins(SequenceArgument::Result(5), vec![])));
    assert_eq!(s.commands.len(), 3);
    assert!(s.is_well_formed());
}

#[test]
fn is_well_formed_detects_forward_reference() {
    let s = MoveSequence {
        inputs: vec![],
        commands: vec![call("m", "f", vec![], vec![SequenceArgument::Result(0)])],
    };
    assert!(!s.is_well_formed());
    assert!(MoveSequence::new().is_well_formed());
}

#[test]
fn key_store_round_trip() {
    let mut s = withdraw_sequence();
    let initial = s.clone_for_test();
    process_key_store(&mut s, vec![SequenceArgument::Result(0)], addr(0xa11ce));
    assert_eq!(s.inputs.len(), 2);
    assert_eq!(s.inputs[1], InputArgument::Address(addr(0xa11ce)));
    assert_eq!(
        s.commands[1],
        MoveSequenceCall::TransferObjects(vec![SequenceArgument::Result(0)], SequenceArgument::Input(1))
    );
    assert!(s.is_well_formed());
    remove_process_key_store(&mut s);
    assert_eq!(s, initial);
}

#[test]
fn key_store_without_objects_changes_nothing() {
    let mut s = withdraw_sequence();
    let initial = s.clone_for_test();
    process_key_store(&mut s, vec![], addr(1));
    assert_eq!(s, initial);
    remove_process_key_store(&mut s);
    assert_eq!(s, initial);
}

#[test]
fn balance_conversion_round_trip() {
    let mut s = withdraw_sequence();
    let initial = s.clone_for_test();
    let abis = vec![withdraw_abi()];
    assert_eq!(process_balance(&mut s, &vec![SequenceArgument::Result(0)], &abis), Ok(()));
    assert_eq!(s.commands.len(), 2);
    match &s.commands[1] {
        MoveSequenceCall::Call(c) => {
            assert_eq!(c.module_id, addr(2));
            assert_eq!(c.module_name, "coin");
            assert_eq!(c.function, "from_balance");
            assert_eq!(c.type_arguments, vec![sui_coin()]);
            assert_eq!(c.arguments, vec![SequenceArgument::Result(0)]);
        }
        other => panic!("unexpected command {:?}", other),
    }
    assert!(s.is_well_formed());
    remove_process_balance(&mut s);
    assert_eq!(s, initial);
}

#[test]
fn balance_type_from_concrete_argument() {
    let mut s = MoveSequence::new();
    assert!(s.push_command(call("pool", "take", vec![], vec![])));
    let abis = vec![FunctionAbi {
        module_id: addr(0x42),
        module_name: "pool".to_string(),
        name: "take".to_string(),
        return_types: vec![
            MoveAbiSignatureToken::U64,
            balance_of(MoveAbiSignatureToken::Struct(Box::new(struct_tag(2, "sui", "SUI", vec![])))),
        ],
    }];
    assert_eq!(process_balance(&mut s, &vec![SequenceArgument::NestedResult(0, 1)], &abis), Ok(()));
    match &s.commands[1] {
        MoveSequenceCall::Call(c) => assert_eq!(c.type_arguments, vec![sui_coin()]),
        other => panic!("unexpected command {:?}", other),
    }
}

#[test]
fn balance_conversion_reports_unresolvable_balance() {
    let mut s = withdraw_sequence();
    let initial = s.clone_for_test();
    let abis = vec![withdraw_abi()];
    // an input slot is no call result
    assert_eq!(process_balance(&mut s, &vec![SequenceArgument::Result(0), SequenceArgument::Input(0)], &abis), Err(1));
    assert_eq!(s, initial);
    // the producing call has no known signature
    assert_eq!(process_balance(&mut s, &vec![SequenceArgument::Result(0)], &vec![]), Err(0));
    assert_eq!(s, initial);
    // result 1 does not exist
    assert_eq!(process_balance(&mut s, &vec![SequenceArgument::NestedResult(0, 1)], &abis), Err(0));
    assert_eq!(s, initial);
}

#[test]
fn remove_balance_stops_at_other_command() {
    let from_balance = |arg: u16| {
        MoveSequenceCall::Call(MoveCall {
            module_id: addr(2),
            module_name: "coin".to_string(),
            function: "from_balance".to_string(),
            type_arguments: vec![sui_coin()],
            arguments: vec![SequenceArgument::Result(arg)],
        })
    };
    let mut s = MoveSequence {
        inputs: vec![],
        commands: vec![from_balance(0), call("m", "f", vec![], vec![]), from_balance(1), from_balance(1)],
    };
    remove_process_balance(&mut s);
    assert_eq!(s.commands.len(), 2);
    remove_process_balance(&mut s);
    assert_eq!(s.commands.len(), 2);
}

#[test]
fn mutating_amount_keeps_reference_graph() {
    let mut s = withdraw_sequence();
    let abis = vec![withdraw_abi()];
    assert_eq!(process_balance(&mut s, &vec![SequenceArgument::Result(0)], &abis), Ok(()));
    let commands_before = s.commands.clone_for_test();
    let mut c = FuzzContext::new(11, vec![]);
    for _ in 0..20 {
        mutate_input(&mut s, 0, &mut c, &vec![vec![1, 0, 0, 0, 0, 0, 0, 0]], false);
        assert_eq!(s.commands, commands_before);
        assert!(matches!(s.inputs[0], InputArgument::U64(_)));
        assert!(s.is_well_formed());
    }
}

trait CloneForTest {
    fn clone_for_test(&self) -> Self;
}

impl CloneForTest for MoveSequence {
    fn clone_for_test(&self) -> Self {
        MoveSequence { inputs: self.inputs.clone(), commands: self.commands.clone_for_test() }
    }
}

impl CloneForTest for Vec<MoveSequenceCall> {
    fn clone_for_test(&self) -> Self {
        self.iter()
            .map(|c| match c {
                MoveSequenceCall::Call(m) => MoveSequenceCall::Call(MoveCall {
                    module_id: m.module_id,
                    module_name: m.module_name.clone(),
                    function: m.function.clone(),
                    type_arguments: m.type_arguments.clone(),
                    arguments: m.arguments.clone(),
                }),
                MoveSequenceCall::TransferObjects(a, b) => MoveSequenceCall::TransferObjects(a.clone(), *b),
                MoveSequenceCall::SplitCoins(a, b) => MoveSequenceCall::SplitCoins(*a, b.clone()),
                MoveSequenceCall::MergeCoins(a, b) => MoveSequenceCall::MergeCoins(*a, b.clone()),
                MoveSequenceCall::MakeMoveVec(t, b) => MoveSequenceCall::MakeMoveVec(t.clone(), b.clone()),
            })
            .collect()
    }
}

#[test]
fn remove_command_shifts_later_references() {
    let mut s = MoveSequence::new();
    s.push_input(InputArgument::U64(1));
    assert!(s.push_command(call("m", "a", vec![], vec![SequenceArgument::Input(0)])));
    assert!(s.push_command(call("m", "b", vec![], vec![])));
    assert!(s.push_command(call("m", "c", vec![], vec![SequenceArgument::Result(0), SequenceArgument::NestedResult(0, 1)])));
    assert!(s.push_command(MoveSequenceCall::TransferObjects(vec![SequenceArgument::Result(2)], SequenceArgument::Input(0))));
    assert!(s.push_command(call("m", "d", vec![], vec![SequenceArgument::NestedResult(2, 3)])));
    assert!(s.remove_command(1));
    assert_eq!(s.commands.len(), 4);
    match &s.commands[1] {
        MoveSequenceCall::Call(c) => {
            assert_eq!(c.function, "c");
            assert_eq!(c.arguments, vec![SequenceArgument::Result(0), SequenceArgument::NestedResult(0, 1)]);
        }
        other => panic!("unexpected command {:?}", other),
    }
    assert_eq!(
        s.commands[2],
        MoveSequenceCall::TransferObjects(vec![SequenceArgument::Result(1)], SequenceArgument::Input(0))
    );
    match &s.commands[3] {
        MoveSequenceCall::Call(c) => assert_eq!(c.arguments, vec![SequenceArgument::NestedResult(1, 3)]),
        other => panic!("unexpected command {:?}", other),
    }
    assert!(s.is_well_formed());
}

#[test]
fn remove_command_rejects_when_result_is_used() {
    let mut s = MoveSequence::new();
    assert!(s.push_command(call("m", "a", vec![], vec![])));
    assert!(s.push_command(call("m", "b", vec![], vec![SequenceArgument::Result(0)])));
    let before = s.clone_for_test();
    assert!(!s.remove_command(0));
    assert_eq!(s, before);
    assert!(!s.remove_command(5));
    assert_eq!(s, before);
    assert!(s.remove_command(1));
    assert_eq!(s.commands.len(), 1);
}
