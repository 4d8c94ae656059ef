use movy::call_graph::MoveModuleId;
use movy::object::{MoveDigest, MoveObjectInfo, MoveOwner};
use movy::oracles::all::run_all;
use movy::oracles::common::format_vulnerability_info;
use movy::oracles::finding::Severity;
use movy::oracles::unused::{
    unused_constants, unused_datatypes, unused_friend_functions, unused_private_functions, FileBytecode,
    FileFunction, FileModule, FilePackage, FunctionHandle, Visibility,
};
use movy::oracles::{unused_const, unused_private_fun, unused_struct};
use movy::value::{MoveAddress, MoveTypeTag, U256};

fn addr(n: u128) -> MoveAddress {
    MoveAddress(U256 { lo: n, hi: 0 })
}

fn hex(n: u128) -> String {
    format!("0x{:064x}", n)
}

fn handle(module: &str, name: &str) -> FunctionHandle {
    FunctionHandle { module_address: addr(0x42), module_name: module.to_string(), name: name.to_string() }
}

fn function(handle: u16, visibility: Visibility, code: Vec<FileBytecode>) -> FileFunction {
    FileFunction { handle, visibility, is_entry: false, parameter_datatypes: vec![], code: Some(code) }
}

/// Module `a`: constants 0..3 (1 loaded), structs with handles 10, 11, 12 (11 is a
/// parameter type, 12 packed generically), two enums (1 packed), functions:
/// `main` (public) calls `helper`; `helper`, `dead` and `init` are private;
/// `shared` and `lonely` are friends; module `b` calls `shared`.
fn module_a() -> FileModule {
    FileModule {
        address: addr(0x42),
        name: "a".to_string(),
        constants: vec!["1u64".to_string(), "2u64".to_string(), "3u64".to_string()],
        struct_defs: vec![10, 11, 12],
        enum_count: 2,
        function_handles: vec![
            handle("a", "main"),
            handle("a", "helper"),
            handle("a", "dead"),
            handle("a", "init"),
            handle("a", "shared"),
            handle("a", "lonely"),
        ],
        function_instantiations: vec![],
        struct_instantiations: vec![2],
        variant_handles: vec![1],
        variant_instantiations: vec![],
        functions: vec![
            FileFunction {
                handle: 0,
                visibility: Visibility::Public,
                is_entry: true,
                parameter_datatypes: vec![11],
                code: Some(vec![FileBytecode::LdConst(1), FileBytecode::Call(1), FileBytecode::PackGeneric(0), FileBytecode::PackVariant(0)]),
            },
            function(1, Visibility::Private, vec![FileBytecode::Other]),
            function(2, Visibility::Private, vec![]),
            function(3, Visibility::Private, vec![]),
            function(4, Visibility::Friend, vec![]),
            function(5, Visibility::Friend, vec![]),
        ],
    }
}

fn module_b() -> FileModule {
    FileModule {
        address: addr(0x42),
        name: "b".to_string(),
        constants: vec![],
        struct_defs: vec![],
        enum_count: 0,
        function_handles: vec![handle("b", "run"), handle("a", "shared")],
        function_instantiations: vec![1],
        struct_instantiations: vec![],
        variant_handles: vec![],
        variant_instantiations: vec![],
        functions: vec![FileFunction {
            handle: 0,
            visibility: Visibility::Public,
            is_entry: false,
            parameter_datatypes: vec![],
            code: Some(vec![FileBytecode::CallGeneric(0)]),
        }],
    }
}

#[test]
fn finds_unused_constants() {
    assert_eq!(unused_constants(&module_a()), vec![0, 2]);
    assert!(unused_constants(&module_b()).is_empty());
}

#[test]
fn finds_unused_structs_and_enums() {
    let (structs, enums) = unused_datatypes(&module_a());
    assert_eq!(structs, vec![0]);
    assert_eq!(enums, vec![0]);
}

#[test]
fn finds_unused_private_and_friend_functions() {
    assert_eq!(unused_private_functions(&module_a()), vec![2]);
    let pkg = FilePackage { id: addr(0x42), modules: vec![module_a(), module_b()] };
    assert_eq!(unused_friend_functions(&pkg), vec![(0, 5)]);
}

#[test]
fn reports_definition_level_findings() {
    let packages = vec![FilePackage { id: addr(0x42), modules: vec![module_a(), module_b()] }];
    let consts = unused_const::analyze(&packages);
    assert_eq!(consts.len(), 1);
    assert_eq!(consts[0].oracle, "StaticUnusedConstant");
    assert_eq!(consts[0].severity, Severity::Informational);
    assert_eq!(consts[0].extra[0], ("package".to_string(), hex(0x42)));
    assert_eq!(consts[0].extra[1], ("module".to_string(), "a".to_string()));
    assert_eq!(consts[0].extra[2], ("unused_constants".to_string(), "[1u64, 3u64]".to_string()));

    let types = unused_struct::analyze(&packages);
    assert_eq!(types.len(), 2);
    assert_eq!(types[0].oracle, "StaticUnusedStruct");
    assert_eq!(types[0].extra[2], ("struct_indices".to_string(), "[0]".to_string()));
    assert_eq!(types[1].oracle, "StaticUnusedEnum");
    assert_eq!(types[1].extra[2], ("enum_indices".to_string(), "[0]".to_string()));

    let funs = unused_private_fun::analyze(&packages);
    assert_eq!(funs.len(), 2);
    assert_eq!(funs[0].oracle, "StaticUnusedPrivateFunction");
    assert_eq!(funs[0].extra[2], ("functions".to_string(), format!("[{}::a::dead]", hex(0x42))));
    assert_eq!(funs[1].oracle, "StaticUnusedFriendFunction");
    assert_eq!(funs[1].extra[1], ("functions".to_string(), format!("[{}::a::lonely]", hex(0x42))));
    assert_eq!(funs[1].extra[2], ("message".to_string(), "Friend functions are never invoked".to_string()));

    let all = run_all(&vec![], &packages);
    assert_eq!(all.len(), 5);
}

#[test]
fn vulnerability_location_text() {
    let f = (MoveModuleId { module_address: addr(2), module_name: "coin".to_string() }, "split".to_string());
    assert_eq!(
        format_vulnerability_info("overflow", Some(&f), Some(17)),
        format!("overflow | location={}::coin::split | pc=17", hex(2))
    );
    assert_eq!(format_vulnerability_info("overflow", None, None), "overflow");
    assert_eq!(format_vulnerability_info("x", None, Some(0)), "x | pc=0");
}

#[test]
fn object_reference_triple() {
    let info = MoveObjectInfo {
        id: addr(9),
        ty: MoveTypeTag::U64,
        owner: MoveOwner::Shared { initial_shared_version: 3 },
        version: 12,
        digest: MoveDigest(U256 { lo: 5, hi: 6 }),
    };
    assert_eq!(info.sui_reference(), (addr(9), 12, MoveDigest(U256 { lo: 5, hi: 6 })));
}
