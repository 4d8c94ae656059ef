use movy::abi::{FunctionAbi, MoveAbiSignatureToken};
use movy::call_graph::{CallSite, MoveCallGraph, MoveModuleBytecodeAnalysis, MoveModuleId};
use movy::meta::{
    build_ability_map, build_function_index, build_types_pool, filter_types_pool, resolve_module_packages, Metadata,
    MoveModuleAbi, MovePackageAbi, MoveStructAbi, TypePoolEntry, ABILITY_DROP, ABILITY_KEY,
    ABILITY_PRIMITIVES, ABILITY_STORE,
};
use movy::onchain::{OnchainArgumentError, OnchainResolution, SuiOnchainArguments, SuiOnchainPrimitives};
use movy::sched::{next_state, Corpus, CorpusEntry, CycleEvent, EntryState};
use movy::sequence::MoveSequence;
use movy::oracles::finding::{OracleFinding, Severity};
use movy::text::{address_string, push_token};
use movy::value::{MoveAddress, MoveStructTag, MoveTypeTag, U256};

fn addr(n: u128) -> MoveAddress {
    MoveAddress(U256 { lo: n, hi: 0 })
}

fn module(address: u128, name: &str) -> MoveModuleAbi {
    MoveModuleAbi { module_address: addr(address), module_name: name.to_string(), functions: vec![], structs: vec![] }
}

fn package(id: u128, version: u64, modules: Vec<MoveModuleAbi>) -> MovePackageAbi {
    MovePackageAbi { package_id: addr(id), version, modules }
}

fn coin(name: &str) -> MoveTypeTag {
    MoveTypeTag::Struct(Box::new(MoveStructTag {
        address: addr(2),
        module: "coin".to_string(),
        name: name.to_string(),
        tys: vec![],
    }))
}

#[test]
fn newest_package_wins_module_address() {
    let pkgs = vec![
        package(0x10, 1, vec![module(0x10, "a"), module(0x10, "b")]),
        package(0x11, 3, vec![module(0x10, "a")]),
        package(0x12, 2, vec![module(0x10, "a"), module(0x20, "c")]),
    ];
    let map = resolve_module_packages(&pkgs);
    assert_eq!(map.len(), 2);
    let find = |m: MoveAddress| map.iter().find(|e| e.0 == m).map(|e| e.1);
    assert_eq!(find(addr(0x10)), Some(addr(0x11)));
    assert_eq!(find(addr(0x20)), Some(addr(0x12)));
}

#[test]
fn metadata_lookup_follows_module_map() {
    let meta = Metadata::build(
        vec![package(0x10, 1, vec![module(0x10, "a")]), package(0x11, 2, vec![module(0x10, "a")])],
        vec![],
        &vec![],
        None,
        None,
    );
    assert_eq!(meta.get_package_metadata(&addr(0x10)).map(|p| p.version), Some(2));
    assert_eq!(meta.get_package_metadata(&addr(0x11)).map(|p| p.version), Some(2));
    assert!(meta.get_package_metadata(&addr(0x99)).is_none());
}

#[test]
fn local_packages_replace_testing_ones() {
    let meta = Metadata::build(
        vec![package(0x10, 1, vec![module(0x10, "a")]), package(0x20, 1, vec![module(0x20, "z")])],
        vec![package(0x10, 5, vec![module(0x10, "a2")]), package(0x30, 1, vec![])],
        &vec![],
        None,
        None,
    );
    assert_eq!(meta.abis.len(), 3);
    let p = meta.abis.iter().find(|p| p.package_id == addr(0x10)).unwrap();
    assert_eq!(p.version, 5);
    assert_eq!(p.modules[0].module_name, "a2");
}

#[test]
fn types_pool_groups_and_filters() {
    let objects = vec![
        (addr(1), coin("A")),
        (addr(2), coin("B")),
        (addr(3), coin("A")),
        (addr(1), coin("A")),
    ];
    let pool = build_types_pool(&objects);
    assert_eq!(pool.len(), 2);
    assert_eq!(pool[0].ty, coin("A"));
    assert_eq!(pool[0].objects, vec![addr(1), addr(3)]);
    assert_eq!(pool[1].objects, vec![addr(2)]);

    let kept = filter_types_pool(build_types_pool(&objects), Some(&vec![coin("B")]), None);
    assert_eq!(kept.len(), 1);
    assert_eq!(kept[0].ty, coin("B"));

    let kept = filter_types_pool(build_types_pool(&objects), None, Some(&vec![coin("B")]));
    assert_eq!(kept.len(), 1);
    assert_eq!(kept[0].ty, coin("A"));

    let empty = vec![TypePoolEntry { ty: coin("C"), objects: vec![] }];
    assert!(filter_types_pool(empty, None, None).is_empty());
}

#[test]
fn call_graph_dedups_functions() {
    let m = |n: &str| MoveModuleId { module_address: addr(0x42), module_name: n.to_string() };
    let site = |f: &str, tys: Vec<MoveAbiSignatureToken>| CallSite { module: m("lib"), function: f.to_string(), tys };
    let analysis = MoveModuleBytecodeAnalysis {
        module_id: m("main"),
        calls: vec![
            ("run".to_string(), vec![site("f", vec![MoveAbiSignatureToken::U64]), site("f", vec![MoveAbiSignatureToken::U64]), site("g", vec![])]),
            ("start".to_string(), vec![site("f", vec![MoveAbiSignatureToken::TypeParameter(0)])]),
        ],
    };
    let mut cg = MoveCallGraph::new();
    cg.add_bytecode_analysis(&analysis);
    assert_eq!(cg.graph.node_count(), 4);
    assert_eq!(cg.graph.edge_count(), 3);
    cg.add_bytecode_analysis(&analysis);
    assert_eq!(cg.graph.edge_count(), 3);
    let dot = cg.dot();
    assert!(dot.contains(":main:run"));
    assert!(dot.contains("u64"));
    assert!(dot.contains("T0"));
}

#[test]
fn address_and_token_text() {
    let a = address_string(&addr(0x2a));
    assert_eq!(a.len(), 66);
    assert!(a.starts_with("0x000"));
    assert!(a.ends_with("2a"));
    let mut s = String::new();
    push_token(
        &mut s,
        &MoveAbiSignatureToken::Vector(Box::new(MoveAbiSignatureToken::MutableReference(Box::new(
            MoveAbiSignatureToken::TypeParameter(12),
        )))),
    );
    assert_eq!(s, "vector<&mut T12>");
}

#[test]
fn entry_state_machine() {
    assert_eq!(next_state(EntryState::Queued, CycleEvent::Start), EntryState::Executing);
    let done = |ok, cov| CycleEvent::Finished { executed_ok: ok, new_coverage: cov };
    assert_eq!(next_state(EntryState::Executing, done(true, false)), EntryState::Accepted);
    assert_eq!(next_state(EntryState::Executing, done(false, true)), EntryState::Accepted);
    assert_eq!(next_state(EntryState::Executing, done(false, false)), EntryState::Rejected);
    assert_eq!(next_state(EntryState::Accepted, CycleEvent::Start), EntryState::Accepted);
}

#[test]
fn corpus_keeps_severe_findings_of_rejected_runs() {
    let mut corpus = Corpus::new();
    let finding = |sev| OracleFinding { oracle: "X".to_string(), severity: sev, extra: vec![] };
    let entry = CorpusEntry {
        sequence: MoveSequence::new(),
        coverage: vec![1, 0, 1],
        findings: vec![finding(Severity::Minor), finding(Severity::Critical)],
    };
    assert_eq!(corpus.observe(entry, true), EntryState::Accepted);
    assert_eq!(corpus.entries.len(), 1);
    assert_eq!(corpus.coverage, vec![1, 0, 1]);
    assert_eq!(corpus.persisted.len(), 1);
    let repeat = CorpusEntry { sequence: MoveSequence::new(), coverage: vec![1], findings: vec![finding(Severity::Major)] };
    assert_eq!(corpus.observe(repeat, false), EntryState::Rejected);
    assert_eq!(corpus.entries.len(), 1);
    assert_eq!(corpus.persisted.len(), 2);
    let fresh = CorpusEntry { sequence: MoveSequence::new(), coverage: vec![0, 0, 0, 7], findings: vec![] };
    assert_eq!(corpus.observe(fresh, false), EntryState::Accepted);
    assert_eq!(corpus.coverage, vec![1, 0, 1, 1]);
}

#[test]
fn onchain_argument_resolution() {
    let args = |c, e, m| SuiOnchainArguments { checkpoint: c, epoch: e, epoch_ms: m };
    assert_eq!(
        args(Some(5), Some(2), Some(9)).resolve_onchain_primitives(),
        Ok(OnchainResolution::Given(SuiOnchainPrimitives { epoch: 2, epoch_ms: 9, checkpoint: 5 }))
    );
    assert_eq!(args(Some(5), Some(2), None).resolve_onchain_primitives(), Err(OnchainArgumentError::EpochPairIncomplete));
    assert_eq!(args(None, Some(2), Some(3)).resolve_onchain_primitives(), Err(OnchainArgumentError::EpochWithoutCheckpoint));
    assert_eq!(args(Some(5), None, None).resolve_onchain_primitives(), Ok(OnchainResolution::Query(Some(5))));
    assert_eq!(args(None, None, None).resolve_onchain_primitives(), Ok(OnchainResolution::Query(None)));
}

#[test]
fn function_abi_substitution() {
    let tok = MoveAbiSignatureToken::Vector(Box::new(MoveAbiSignatureToken::TypeParameter(1)));
    assert_eq!(tok.subst(&vec![MoveTypeTag::U8, MoveTypeTag::Bool]), Some(MoveTypeTag::Vector(Box::new(MoveTypeTag::Bool))));
    assert_eq!(tok.subst(&vec![MoveTypeTag::U8]), None);
    assert_eq!(MoveAbiSignatureToken::Reference(Box::new(MoveAbiSignatureToken::U8)).subst(&vec![]), None);
    let _ = FunctionAbi { module_id: addr(1), module_name: String::new(), name: String::new(), return_types: vec![] };
}

#[test]
fn ability_map_lists_builtins_and_monomorphic_structs() {
    let mut m = module(0x42, "pool");
    m.structs = vec![
        MoveStructAbi { struct_name: "Pool".to_string(), abilities: ABILITY_KEY | ABILITY_STORE, type_parameters: 0 },
        MoveStructAbi { struct_name: "Wrapper".to_string(), abilities: ABILITY_KEY | ABILITY_STORE, type_parameters: 1 },
        MoveStructAbi { struct_name: "Receipt".to_string(), abilities: 0, type_parameters: 0 },
    ];
    // the same module address in an upgraded package declares the same struct again
    let mut m2 = module(0x42, "pool");
    m2.structs = vec![MoveStructAbi { struct_name: "Pool".to_string(), abilities: ABILITY_KEY | ABILITY_STORE, type_parameters: 0 }];
    let map = build_ability_map(&vec![package(0x42, 1, vec![m]), package(0x43, 2, vec![m2])]);
    let types_of = |ab: u8| map.iter().find(|e| e.abilities == ab).map(|e| e.types.clone()).unwrap_or_default();
    assert_eq!(types_of(ABILITY_PRIMITIVES).len(), 9);
    assert!(types_of(ABILITY_PRIMITIVES).contains(&MoveTypeTag::Vector(Box::new(MoveTypeTag::U8))));
    assert_eq!(types_of(ABILITY_DROP), vec![MoveTypeTag::Signer]);
    let pool_tag = MoveTypeTag::Struct(Box::new(MoveStructTag {
        address: addr(0x42),
        module: "pool".to_string(),
        name: "Pool".to_string(),
        tys: vec![],
    }));
    assert_eq!(types_of(ABILITY_KEY | ABILITY_STORE), vec![pool_tag]);
    assert_eq!(types_of(0).len(), 1);
    let keys: Vec<u8> = map.iter().map(|e| e.abilities).collect();
    let mut dedup = keys.clone();
    dedup.sort();
    dedup.dedup();
    assert_eq!(dedup.len(), keys.len());
}

#[test]
fn function_index_groups_by_name() {
    let f = |name: &str| FunctionAbi { module_id: addr(0), module_name: String::new(), name: name.to_string(), return_types: vec![] };
    let mut a = module(0x42, "a");
    a.functions = vec![f("swap"), f("init")];
    let mut b = module(0x43, "b");
    b.functions = vec![f("swap")];
    let index = build_function_index(&vec![package(0x42, 1, vec![a]), package(0x43, 1, vec![b])]);
    assert_eq!(index.len(), 2);
    let swap = &index.iter().find(|e| e.0 == "swap").unwrap().1;
    assert_eq!(swap.len(), 2);
    assert_eq!(swap[0].module_address, addr(0x42));
    assert_eq!(swap[0].module_name, "a");
    assert_eq!(swap[1].module_address, addr(0x43));
    let init = &index.iter().find(|e| e.0 == "init").unwrap().1;
    assert_eq!(init.len(), 1);
    let meta = Metadata::build(vec![package(0x42, 1, vec![module(0x42, "a")])], vec![], &vec![], None, None);
    assert!(meta.function_name_to_idents.is_empty());
}

#[test]
fn equal_versions_keep_the_first_package() {
    let pkgs = vec![
        package(0x11, 2, vec![module(0x10, "a")]),
        package(0x12, 2, vec![module(0x10, "a")]),
        package(0x13, 1, vec![module(0x10, "a")]),
    ];
    let map = resolve_module_packages(&pkgs);
    assert_eq!(map, vec![(addr(0x10), addr(0x11))]);
}

#[test]
fn known_module_leaves_call_graph_unchanged() {
    let m = MoveModuleId { module_address: addr(0x42), module_name: "main".to_string() };
    let analysis = MoveModuleBytecodeAnalysis {
        module_id: MoveModuleId { module_address: addr(0x42), module_name: "main".to_string() },
        calls: vec![("run".to_string(), vec![CallSite { module: m, function: "f".to_string(), tys: vec![] }])],
    };
    let mut cg = MoveCallGraph::new();
    cg.add_bytecode_analysis(&analysis);
    let dot = cg.dot();
    cg.add_bytecode_analysis(&analysis);
    assert_eq!(cg.modules.len(), 1);
    assert_eq!(cg.functions.len(), 2);
    assert_eq!(cg.dot(), dot);
}

#[test]
fn accepted_entry_is_appended() {
    let mut corpus = Corpus::new();
    let entry = CorpusEntry { sequence: MoveSequence::new(), coverage: vec![0, 3], findings: vec![] };
    assert_eq!(corpus.observe(entry, false), EntryState::Accepted);
    assert_eq!(corpus.entries[0].coverage, vec![0, 3]);
    assert_eq!(corpus.coverage, vec![0, 1]);
}
