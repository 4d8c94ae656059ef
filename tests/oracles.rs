use movy::oracles::bool_judgement::{self, detect_bool_judgement};
use movy::oracles::bytecode::{Bytecode, Constant, FunctionInfo, ModuleAnalysis, Operation};
use movy::oracles::finding::Severity;
use movy::oracles::infinite_loop::{self, detect_infinite_loop, label_offset};
use movy::oracles::precision_loss::{self, detect_precision_loss};
use movy::value::MoveTypeTag;

fn function(name: &str, code: Vec<Bytecode>, local_types: Vec<MoveTypeTag>) -> FunctionInfo {
    FunctionInfo { name: name.to_string(), code, local_types, is_native: false }
}

/// `t2 := (t0 < t1); t3 := true; t4 := (t2 == t3)`
fn bool_judgement_function(name: &str) -> FunctionInfo {
    function(
        name,
        vec![
            Bytecode::Call(vec![2], Operation::Lt, vec![0, 1]),
            Bytecode::Load(3, Constant::Bool(true)),
            Bytecode::Call(vec![4], Operation::Eq, vec![2, 3]),
            Bytecode::Ret(vec![4]),
        ],
        vec![MoveTypeTag::U64, MoveTypeTag::U64, MoveTypeTag::Bool, MoveTypeTag::Bool, MoveTypeTag::Bool],
    )
}

fn clean_function(name: &str) -> FunctionInfo {
    function(
        name,
        vec![
            Bytecode::Call(vec![2], Operation::Lt, vec![0, 1]),
            Bytecode::Call(vec![3], Operation::Lt, vec![1, 0]),
            Bytecode::Call(vec![4], Operation::Eq, vec![2, 3]),
            Bytecode::Ret(vec![4]),
        ],
        vec![MoveTypeTag::U64, MoveTypeTag::U64, MoveTypeTag::Bool, MoveTypeTag::Bool, MoveTypeTag::Bool],
    )
}

/// `L0: t0 := <constant>; branch t0 then L<then> else L<else>; L2: ret`
fn loop_function(name: &str, constant: bool, then_label: u16, else_label: u16) -> FunctionInfo {
    function(
        name,
        vec![
            Bytecode::Label(0),
            Bytecode::Load(0, Constant::Bool(constant)),
            Bytecode::Branch(then_label, else_label, 0),
            Bytecode::Label(1),
            Bytecode::Nop,
            Bytecode::Label(2),
            Bytecode::Ret(vec![]),
        ],
        vec![MoveTypeTag::Bool],
    )
}

#[test]
fn bool_judgement_flags_comparison_with_literal() {
    assert!(detect_bool_judgement(&bool_judgement_function("f")));
    assert!(!detect_bool_judgement(&clean_function("g")));
}

#[test]
fn bool_judgement_needs_boolean_operand() {
    // the other operand is a u64: no finding
    let f = function(
        "h",
        vec![
            Bytecode::Load(0, Constant::U64(1)),
            Bytecode::Load(1, Constant::Bool(false)),
            Bytecode::Call(vec![2], Operation::Neq, vec![0, 1]),
        ],
        vec![MoveTypeTag::U64, MoveTypeTag::Bool, MoveTypeTag::Bool],
    );
    assert!(!detect_bool_judgement(&f));
    // operand defined only after the comparison: no finding
    let g = function(
        "k",
        vec![
            Bytecode::Load(1, Constant::Bool(false)),
            Bytecode::Call(vec![2], Operation::Neq, vec![0, 1]),
            Bytecode::Call(vec![0], Operation::Lt, vec![3, 4]),
        ],
        vec![MoveTypeTag::Bool, MoveTypeTag::Bool, MoveTypeTag::Bool, MoveTypeTag::U64, MoveTypeTag::U64],
    );
    assert!(!detect_bool_judgement(&g));
}

#[test]
fn bool_judgement_analyze_reports_exactly_flagged_function() {
    let mut native = bool_judgement_function("native_one");
    native.is_native = true;
    let modules = vec![ModuleAnalysis {
        name: "0x42::m".to_string(),
        functions: vec![clean_function("ok"), bool_judgement_function("bad"), native],
    }];
    let findings = bool_judgement::analyze(&modules);
    assert_eq!(findings.len(), 1);
    let f = &findings[0];
    assert_eq!(f.oracle, "StaticBoolJudgement");
    assert_eq!(f.severity, Severity::Minor);
    assert_eq!(f.extra[0], ("module".to_string(), "0x42::m".to_string()));
    assert_eq!(f.extra[1], ("function".to_string(), "bad".to_string()));
    assert_eq!(
        f.extra[2],
        (
            "message".to_string(),
            "Unnecessary bool judgement (boolean compared with boolean literal)".to_string()
        )
    );
}

#[test]
fn infinite_loop_flags_backward_constant_branch() {
    // true, then-label 0 is before the branch
    assert!(detect_infinite_loop(&loop_function("a", true, 0, 2)));
    // false, else-label 0 is before the branch
    assert!(detect_infinite_loop(&loop_function("b", false, 2, 0)));
}

#[test]
fn infinite_loop_ignores_forward_target() {
    assert!(!detect_infinite_loop(&loop_function("c", true, 1, 0)));
    assert!(!detect_infinite_loop(&loop_function("d", false, 0, 2)));
    // an unknown label resolves nowhere
    assert!(!detect_infinite_loop(&loop_function("e", true, 0, 9)));
}

#[test]
fn infinite_loop_analyze_reports_major() {
    let modules = vec![
        ModuleAnalysis { name: "0x1::a".to_string(), functions: vec![loop_function("fwd", true, 1, 0)] },
        ModuleAnalysis {
            name: "0x1::b".to_string(),
            functions: vec![loop_function("spin", true, 0, 2), loop_function("spin2", false, 2, 0)],
        },
    ];
    let findings = infinite_loop::analyze(&modules);
    assert_eq!(findings.len(), 2);
    assert_eq!(findings[0].oracle, "StaticInfiniteLoop");
    assert_eq!(findings[0].severity, Severity::Major);
    assert_eq!(findings[0].extra[0].1, "0x1::b");
    assert_eq!(findings[0].extra[1].1, "spin");
    assert_eq!(findings[1].extra[1].1, "spin2");
}

#[test]
fn label_offset_finds_last_label() {
    let code = vec![Bytecode::Label(3), Bytecode::Nop, Bytecode::Label(3)];
    assert_eq!(label_offset(&code, 3), Some(2));
    assert_eq!(label_offset(&code, 4), None);
}

#[test]
fn precision_loss_flags_multiplied_quotient() {
    let f = function(
        "p",
        vec![
            Bytecode::Load(1, Constant::U64(3)),
            Bytecode::Call(vec![2], Operation::Div, vec![0, 1]),
            Bytecode::Call(vec![3], Operation::Mul, vec![2, 1]),
        ],
        vec![MoveTypeTag::U64; 4],
    );
    assert!(detect_precision_loss(&f));
    let g = function(
        "q",
        vec![
            Bytecode::Load(1, Constant::U64(3)),
            Bytecode::Call(vec![2], Operation::Function("sqrt".to_string()), vec![0]),
            Bytecode::Call(vec![3], Operation::Mul, vec![1, 2]),
        ],
        vec![MoveTypeTag::U64; 4],
    );
    assert!(detect_precision_loss(&g));
    // an operand with no definition before the multiplication: no finding
    let u = function(
        "u",
        vec![
            Bytecode::Call(vec![2], Operation::Div, vec![0, 1]),
            Bytecode::Call(vec![3], Operation::Mul, vec![2, 1]),
        ],
        vec![MoveTypeTag::U64; 4],
    );
    assert!(!detect_precision_loss(&u));
    let h = function(
        "r",
        vec![
            Bytecode::Load(0, Constant::U64(6)),
            Bytecode::Load(1, Constant::U64(3)),
            Bytecode::Call(vec![2], Operation::Mul, vec![0, 1]),
            Bytecode::Call(vec![3], Operation::Div, vec![2, 1]),
        ],
        vec![MoveTypeTag::U64; 4],
    );
    assert!(!detect_precision_loss(&h));
    let findings = precision_loss::analyze(&vec![ModuleAnalysis {
        name: "0x2::math".to_string(),
        functions: vec![h, g],
    }]);
    assert_eq!(findings.len(), 1);
    assert_eq!(findings[0].severity, Severity::Medium);
    assert_eq!(findings[0].extra[1].1, "q");
}

#[test]
fn severity_order_and_names() {
    assert!(Severity::Discussion < Severity::Informational);
    assert!(Severity::Major < Severity::Critical);
    assert_eq!(Severity::Critical.rank(), 5);
    assert_eq!(Severity::Discussion.rank(), 0);
    assert_eq!(Severity::Medium.as_str(), "Medium");
}
