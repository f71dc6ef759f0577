use circuit_build::circuit::{
    all_kinds_supported, backend_supports, find_translation, optimize_circuit, rewrite_opcode,
    Backend, Circuit, Opcode, OpcodeLabel, OptimizationUnsupported, Translation,
};
use circuit_build::crs::{load_crs, update_crs, CommonReferenceString, CrsError};
use circuit_build::debug::{rewrite_debug, DebugInfo, Location};
use circuit_build::orchestrator::{
    build, build_package, process_contract, process_program, Artifact, BuildOptions,
    CircuitOutcome, CompiledContract, CompiledFunction, CompiledProgram, CompiledUnit,
    ContractOutcome, FrontendOutput, Package, PackageError, PackageKind,
};
use circuit_build::preprocess::{preprocess, KeyMaterial, ProofSystemError};

// Kinds used below: 1 and 2 are native, 3 translates into [1, 2], 4 translates into
// [1, 9] where 9 is not native, 5 has no translation, 6 translates into nothing.
fn backend(ceiling: u64) -> Backend {
    Backend {
        identifier: String::from("test-backend"),
        supported: vec![1, 2],
        translations: vec![
            Translation { from: 3, into: vec![1, 2] },
            Translation { from: 4, into: vec![1, 9] },
            Translation { from: 6, into: vec![] },
            Translation { from: 3, into: vec![2] },
        ],
        default_crs_capacity: 2,
        crs_ceiling: ceiling,
    }
}

fn circuit(kinds: &[u32]) -> Circuit {
    Circuit { opcodes: kinds.iter().map(|k| Opcode { kind: *k }).collect() }
}

fn kinds(c: &Circuit) -> Vec<u32> {
    c.opcodes.iter().map(|o| o.kind).collect()
}

fn loc(n: u32) -> Location {
    Location { file: 0, start: n, end: n + 1 }
}

fn program(ks: &[u32]) -> CompiledProgram {
    CompiledProgram {
        circuit: circuit(ks),
        debug: DebugInfo { locations: (0..ks.len() as u32).map(loc).collect() },
    }
}

fn opts(include_keys: bool, deny_warnings: bool) -> BuildOptions {
    BuildOptions { include_keys, deny_warnings }
}

fn binary(name: &str, ks: &[u32], warnings: u64) -> Package {
    Package {
        name: String::from(name),
        kind: PackageKind::Binary,
        version: Some(String::from("0.1.0")),
        frontend: Some(FrontendOutput::Compiled {
            unit: CompiledUnit::Program(program(ks)),
            warnings,
        }),
    }
}

fn contract(name: &str, functions: &[(&str, &[u32])]) -> CompiledContract {
    CompiledContract {
        name: String::from(name),
        functions: functions
            .iter()
            .map(|(n, ks)| CompiledFunction { name: String::from(*n), program: program(ks) })
            .collect(),
    }
}

#[test]
fn supports_and_finds_translations() {
    let b = backend(100);
    assert!(backend_supports(&b, 1));
    assert!(!backend_supports(&b, 3));
    assert_eq!(find_translation(&b, 3), Some(&vec![1, 2]));
    assert_eq!(find_translation(&b, 5), None);
    assert!(all_kinds_supported(&b, &vec![2, 1, 2]));
    assert!(!all_kinds_supported(&b, &vec![1, 9]));
    assert!(all_kinds_supported(&b, &vec![]));
}

#[test]
fn rewrite_opcode_cases() {
    let b = backend(100);
    assert_eq!(rewrite_opcode(&b, Opcode { kind: 2 }), Some(vec![Opcode { kind: 2 }]));
    assert_eq!(
        rewrite_opcode(&b, Opcode { kind: 3 }),
        Some(vec![Opcode { kind: 1 }, Opcode { kind: 2 }])
    );
    assert_eq!(rewrite_opcode(&b, Opcode { kind: 6 }), Some(vec![]));
    assert_eq!(rewrite_opcode(&b, Opcode { kind: 4 }), None);
    assert_eq!(rewrite_opcode(&b, Opcode { kind: 5 }), None);
}

#[test]
fn supported_circuit_is_unchanged() {
    let b = backend(100);
    let (out, labels) = optimize_circuit(&b, &circuit(&[1, 2, 2])).unwrap();
    assert_eq!(kinds(&out), vec![1, 2, 2]);
    assert_eq!(
        labels,
        vec![OpcodeLabel::Resolved(0), OpcodeLabel::Resolved(1), OpcodeLabel::Resolved(2)]
    );
}

#[test]
fn optimizer_translates_and_labels() {
    let b = backend(100);
    let (out, labels) = optimize_circuit(&b, &circuit(&[2, 3, 6, 1])).unwrap();
    assert_eq!(kinds(&out), vec![2, 1, 2, 1]);
    assert_eq!(
        labels,
        vec![
            OpcodeLabel::Resolved(0),
            OpcodeLabel::Resolved(1),
            OpcodeLabel::Resolved(1),
            OpcodeLabel::Resolved(3)
        ]
    );
    assert!(labels.iter().all(|l| *l != OpcodeLabel::Unresolved));
    assert!(out.opcodes.iter().all(|o| backend_supports(&b, o.kind)));
}

#[test]
fn optimizer_rejects_untranslatable_kinds() {
    let b = backend(100);
    assert_eq!(
        optimize_circuit(&b, &circuit(&[1, 5, 4])).unwrap_err(),
        OptimizationUnsupported { kind: 5 }
    );
    assert_eq!(
        optimize_circuit(&b, &circuit(&[1, 3, 4, 5])).unwrap_err(),
        OptimizationUnsupported { kind: 4 }
    );
}

#[test]
fn empty_circuit_optimizes_to_empty() {
    let b = backend(100);
    let (out, labels) = optimize_circuit(&b, &circuit(&[])).unwrap();
    assert!(out.opcodes.is_empty());
    assert!(labels.is_empty());
}

#[test]
fn debug_map_follows_labels() {
    let debug = DebugInfo { locations: vec![loc(10), loc(20), loc(30)] };
    let labels = vec![OpcodeLabel::Resolved(2), OpcodeLabel::Resolved(0), OpcodeLabel::Resolved(0)];
    let out = rewrite_debug(&debug, &labels);
    assert_eq!(out.locations, vec![loc(30), loc(10), loc(10)]);
}

#[test]
fn debug_map_length_matches_optimized_circuit() {
    let b = backend(100);
    let p = program(&[3, 3, 6, 2]);
    let (out, labels) = optimize_circuit(&b, &p.circuit).unwrap();
    let debug = rewrite_debug(&p.debug, &labels);
    assert_eq!(debug.locations.len(), out.opcodes.len());
    assert_eq!(debug.locations, vec![loc(0), loc(0), loc(1), loc(1), loc(3)]);
}

#[test]
fn load_prefers_the_cache() {
    let b = backend(100);
    assert_eq!(load_crs(&b, None), CommonReferenceString { capacity: 2 });
    assert_eq!(
        load_crs(&b, Some(CommonReferenceString { capacity: 40 })),
        CommonReferenceString { capacity: 40 }
    );
}

#[test]
fn update_grows_only_when_needed() {
    let b = backend(10);
    let small = CommonReferenceString { capacity: 2 };
    assert_eq!(update_crs(&b, small, &circuit(&[1, 1, 1, 1])), Ok(CommonReferenceString { capacity: 4 }));
    assert_eq!(update_crs(&b, small, &circuit(&[1])), Ok(small));
    assert_eq!(
        update_crs(&b, small, &circuit(&[1; 11])),
        Err(CrsError::CeilingExceeded { required: 11, ceiling: 10 })
    );
    // A cached string above the ceiling still serves circuits it covers.
    let big = CommonReferenceString { capacity: 50 };
    assert_eq!(update_crs(&b, big, &circuit(&[1; 11])), Ok(big));
}

#[test]
fn update_for_a_smaller_circuit_changes_nothing() {
    let b = backend(100);
    let start = load_crs(&b, None);
    let a = circuit(&[1; 7]);
    let smaller = circuit(&[2; 5]);
    let once = update_crs(&b, start, &a).unwrap();
    assert_eq!(once, CommonReferenceString { capacity: 7 });
    assert_eq!(update_crs(&b, once, &smaller).unwrap(), once);
}

#[test]
fn update_twice_equals_once() {
    let b = backend(100);
    let start = load_crs(&b, None);
    let a = circuit(&[1; 9]);
    let once = update_crs(&b, start, &a).unwrap();
    assert_eq!(update_crs(&b, once, &a).unwrap(), once);
}

#[test]
fn preprocess_with_and_without_keys() {
    let b = backend(100);
    let crs = CommonReferenceString { capacity: 5 };
    let p = preprocess(&b, true, crs, circuit(&[1, 2, 1])).unwrap();
    assert_eq!(p.backend, "test-backend");
    assert_eq!(kinds(&p.bytecode), vec![1, 2, 1]);
    let key = KeyMaterial { crs_capacity: 5, circuit_size: 3 };
    assert_eq!(p.proving_key, Some(key));
    assert_eq!(p.verification_key, Some(key));
    let q = preprocess(&b, false, crs, circuit(&[1, 2, 1])).unwrap();
    assert_eq!(q.proving_key, None);
    assert_eq!(q.verification_key, None);
}

#[test]
fn preprocess_rejects_unsupported_and_stale() {
    let b = backend(100);
    let crs = CommonReferenceString { capacity: 2 };
    assert_eq!(
        preprocess(&b, true, crs, circuit(&[1, 3, 5])).unwrap_err(),
        ProofSystemError::UnsupportedOpcode { index: 1, kind: 3 }
    );
    assert_eq!(
        preprocess(&b, true, crs, circuit(&[1, 2, 1])).unwrap_err(),
        ProofSystemError::StaleReferenceString { capacity: 2, required: 3 }
    );
}

#[test]
fn process_program_outcomes() {
    let b = backend(6);
    let crs = CommonReferenceString { capacity: 1 };
    match process_program(&b, true, crs, &program(&[3, 1])) {
        CircuitOutcome::Built { program, debug, crs } => {
            assert_eq!(kinds(&program.bytecode), vec![1, 2, 1]);
            assert_eq!(crs, CommonReferenceString { capacity: 3 });
            assert_eq!(program.proving_key, Some(KeyMaterial { crs_capacity: 3, circuit_size: 3 }));
            assert_eq!(debug.locations, vec![loc(0), loc(0), loc(1)]);
        }
        other => panic!("unexpected outcome {:?}", other),
    }
    assert!(matches!(
        process_program(&b, true, crs, &program(&[5])),
        CircuitOutcome::Rejected { kind: 5 }
    ));
    assert!(matches!(
        process_program(&b, true, crs, &program(&[3, 3, 3, 1])),
        CircuitOutcome::Fatal { error: CrsError::CeilingExceeded { required: 7, ceiling: 6 } }
    ));
}

#[test]
fn contract_functions_share_a_growing_crs() {
    let b = backend(100);
    let crs = CommonReferenceString { capacity: 2 };
    let c = contract("Main", &[("small", &[1, 2]), ("large", &[1, 2, 1, 2, 1])]);
    match process_contract(&b, true, crs, &c) {
        ContractOutcome::Built { contract, crs } => {
            assert_eq!(contract.name, "Main");
            assert_eq!(contract.backend, "test-backend");
            assert_eq!(crs, CommonReferenceString { capacity: 5 });
            let small = &contract.functions[0];
            let large = &contract.functions[1];
            assert_eq!(small.name, "small");
            assert_eq!(large.name, "large");
            assert_eq!(small.program.proving_key, Some(KeyMaterial { crs_capacity: 2, circuit_size: 2 }));
            assert_eq!(large.program.proving_key, Some(KeyMaterial { crs_capacity: 5, circuit_size: 5 }));
            assert!(large.program.proving_key.unwrap().crs_capacity >= large.program.bytecode.opcodes.len() as u64);
        }
        other => panic!("unexpected outcome {:?}", other),
    }
}

#[test]
fn contract_stops_at_a_rejected_function() {
    let b = backend(100);
    let crs = CommonReferenceString { capacity: 1 };
    let c = contract("Main", &[("first", &[1, 2, 1]), ("bad", &[5]), ("last", &[1; 9])]);
    match process_contract(&b, false, crs, &c) {
        ContractOutcome::Rejected { kind, crs } => {
            assert_eq!(kind, 5);
            assert_eq!(crs, CommonReferenceString { capacity: 3 });
        }
        other => panic!("unexpected outcome {:?}", other),
    }
}

#[test]
fn library_only_workspace_is_rejected() {
    let b = backend(100);
    let lib = Package {
        name: String::from("util"),
        kind: PackageKind::Library,
        version: None,
        frontend: None,
    };
    let crs = load_crs(&b, None);
    let out = build(&b, opts(true, false), crs, &vec![lib]).unwrap();
    assert_eq!(out.outcomes.len(), 1);
    assert_eq!(
        out.outcomes[0].as_ref().unwrap_err(),
        &PackageError::LibraryCrate(String::from("util"))
    );
    assert_eq!(out.crs, crs);
}

#[test]
fn binary_with_translatable_opcode_builds() {
    let b = backend(100);
    let crs = load_crs(&b, None);
    let out = build(&b, opts(false, false), crs, &vec![binary("main", &[3, 1], 0)]).unwrap();
    match &out.outcomes[0] {
        Ok(Artifact::Program(a)) => {
            assert_eq!(kinds(&a.program.bytecode), vec![1, 2, 1]);
            assert!(a.program.bytecode.opcodes.iter().all(|o| backend_supports(&b, o.kind)));
            assert_eq!(a.program.proving_key, None);
            assert_eq!(a.debug.locations.len(), 3);
        }
        other => panic!("unexpected outcome {:?}", other),
    }
    assert_eq!(out.crs, CommonReferenceString { capacity: 3 });
}

#[test]
fn warnings_fail_only_when_denied() {
    let b = backend(100);
    let crs = load_crs(&b, None);
    let allowed = build(&b, opts(false, false), crs, &vec![binary("main", &[3, 1], 2)]).unwrap();
    assert!(matches!(allowed.outcomes[0], Ok(Artifact::Program(_))));
    let denied = build(&b, opts(false, true), crs, &vec![binary("main", &[3, 1], 2)]).unwrap();
    assert_eq!(denied.outcomes[0].as_ref().unwrap_err(), &PackageError::DeniedWarnings(2));
    assert_eq!(denied.crs, crs);
    let clean = build(&b, opts(false, true), crs, &vec![binary("main", &[3, 1], 0)]).unwrap();
    assert!(matches!(clean.outcomes[0], Ok(Artifact::Program(_))));
}

#[test]
fn package_errors_do_not_stop_the_workspace() {
    let b = backend(100);
    let crs = CommonReferenceString { capacity: 1 };
    let failed = Package {
        name: String::from("broken"),
        kind: PackageKind::Binary,
        version: None,
        frontend: Some(FrontendOutput::Failed { errors: 3, warnings: 1 }),
    };
    let ws = vec![binary("a", &[1, 1], 0), failed, binary("b", &[5], 0), binary("c", &[1; 4], 0)];
    let out = build(&b, opts(true, false), crs, &ws).unwrap();
    assert_eq!(out.outcomes.len(), 4);
    assert!(matches!(out.outcomes[0], Ok(Artifact::Program(_))));
    assert_eq!(out.outcomes[1].as_ref().unwrap_err(), &PackageError::FrontendErrors(3));
    assert_eq!(out.outcomes[2].as_ref().unwrap_err(), &PackageError::OptimizationUnsupported(5));
    match &out.outcomes[3] {
        Ok(Artifact::Program(a)) => {
            assert_eq!(a.program.proving_key, Some(KeyMaterial { crs_capacity: 4, circuit_size: 4 }))
        }
        other => panic!("unexpected outcome {:?}", other),
    }
    assert_eq!(out.crs, CommonReferenceString { capacity: 4 });
}

#[test]
fn crs_failure_stops_the_workspace() {
    let b = backend(3);
    let crs = CommonReferenceString { capacity: 1 };
    let ws = vec![binary("a", &[1, 1], 0), binary("b", &[1; 4], 0), binary("c", &[1], 0)];
    assert_eq!(
        build(&b, opts(true, false), crs, &ws).unwrap_err(),
        CrsError::CeilingExceeded { required: 4, ceiling: 3 }
    );
}

#[test]
fn contract_package_carries_crs_across_contracts() {
    let b = backend(100);
    let crs = CommonReferenceString { capacity: 1 };
    let pkg = Package {
        name: String::from("token"),
        kind: PackageKind::Contract,
        version: Some(String::from("1.0.0")),
        frontend: Some(FrontendOutput::Compiled {
            unit: CompiledUnit::Contracts(vec![
                contract("A", &[("f", &[1, 2])]),
                contract("B", &[("g", &[1]), ("h", &[3, 3])]),
            ]),
            warnings: 0,
        }),
    };
    match build_package(&b, opts(true, false), crs, &pkg).unwrap() {
        (Ok(Artifact::Contracts(cs)), c2) => {
            assert_eq!(cs.len(), 2);
            assert_eq!(cs[0].name, "A");
            assert_eq!(cs[1].functions[0].program.proving_key.unwrap().crs_capacity, 2);
            assert_eq!(cs[1].functions[1].program.proving_key.unwrap().crs_capacity, 4);
            assert_eq!(c2, CommonReferenceString { capacity: 4 });
        }
        other => panic!("unexpected outcome {:?}", other),
    }
}
