use vstd::prelude::*;
use crate::circuit::{
    Backend, Circuit, Opcode, first_unsupported, labels_of, optimize_circuit,
    optimized, lemma_labels_total,
};
use crate::crs::{CommonReferenceString, CrsError, crs_after, update_crs, lemma_crs_grows};
use crate::debug::{DebugInfo, rewrite_debug, rewritten, lemma_debug_map_length};
use crate::preprocess::{PreprocessedProgram, is_artifact_for, preprocess};

verus! {

/// What the frontend produced for one program: its circuit and the source location of
/// each opcode.
#[derive(Debug)]
pub struct CompiledProgram {
    pub circuit: Circuit,
    pub debug: DebugInfo,
}

impl CompiledProgram {
    pub open spec fn wf(&self) -> bool {
        self.debug@.len() == self.circuit@.len()
    }
}

/// One function of a compiled contract.
#[derive(Debug)]
pub struct CompiledFunction {
    pub name: String,
    pub program: CompiledProgram,
}

/// A compiled contract: named functions, each proved and keyed on its own.
#[derive(Debug)]
pub struct CompiledContract {
    pub name: String,
    pub functions: Vec<CompiledFunction>,
}

/// The outcome of processing one circuit.
#[derive(Debug)]
pub enum CircuitOutcome {
    Built { program: PreprocessedProgram, debug: DebugInfo, crs: CommonReferenceString },
    /// The optimizer could not translate an opcode of this kind.
    Rejected { kind: u32 },
    /// The reference string could not be grown: the whole build stops.
    Fatal { error: CrsError },
}

/// How a run over circuits ends, as far as the reference string is concerned.
pub enum FoldEnd {
    /// Every circuit was processed; the capacity reached.
    Done(nat),
    /// A circuit was rejected by the optimizer; the capacity reached before it, and the
    /// kind it could not translate.
    Rejected(nat, u32),
    /// The reference string could not cover a circuit of this size.
    Fatal(nat),
}

/// Processing one circuit under a capacity.
pub open spec fn step(b: Backend, cap: nat, ops: Seq<Opcode>) -> FoldEnd {
    match optimized(b, ops) {
        None => FoldEnd::Rejected(cap, first_unsupported(b, ops).unwrap()),
        Some(out) => match crs_after(b, cap, out) {
            Some(n) => FoldEnd::Done(n),
            None => FoldEnd::Fatal(out.len()),
        },
    }
}

/// Processing circuits in order, carrying the capacity from one to the next and stopping
/// at the first that fails.
pub open spec fn fold_caps(b: Backend, cap: nat, fs: Seq<Seq<Opcode>>) -> FoldEnd
    decreases fs.len(),
{
    if fs.len() == 0 {
        FoldEnd::Done(cap)
    } else {
        match fold_caps(b, cap, fs.drop_last()) {
            FoldEnd::Done(c) => step(b, c, fs.last()),
            e => e,
        }
    }
}

/// The artifact and debug information that processing makes of a circuit, under the
/// capacity reached after its update.
pub open spec fn built_for(
    p: PreprocessedProgram,
    d: DebugInfo,
    b: Backend,
    include_keys: bool,
    cap: nat,
    src: CompiledProgram,
) -> bool {
    &&& is_artifact_for(
        p,
        b,
        include_keys,
        CommonReferenceString { capacity: cap as u64 },
        optimized(b, src.circuit@).unwrap(),
    )
    &&& d@ == rewritten(src.debug@, labels_of(b, src.circuit@))
}

/// A run never lowers the capacity, and a capacity it raises stays within the backend's
/// ceiling.
pub proof fn lemma_fold_bounded(b: Backend, cap: nat, fs: Seq<Seq<Opcode>>)
    ensures
        fold_caps(b, cap, fs) matches FoldEnd::Done(n) ==> n >= cap && (n == cap || n
            <= b.crs_ceiling),
        fold_caps(b, cap, fs) matches FoldEnd::Rejected(n, _) ==> n >= cap && (n == cap || n
            <= b.crs_ceiling),
    decreases fs.len(),
{
    if fs.len() > 0 {
        lemma_fold_bounded(b, cap, fs.drop_last());
    }
}

/// Optimizes a compiled program, re-indexes its debug information, grows the reference
/// string to cover the optimized circuit and preprocesses it.
pub fn process_program(
    b: &Backend,
    include_keys: bool,
    crs: CommonReferenceString,
    prog: &CompiledProgram,
) -> (r: CircuitOutcome)
    requires
        prog.wf(),
    ensures
        match step(*b, crs.capacity as nat, prog.circuit@) {
            FoldEnd::Done(n) => r matches CircuitOutcome::Built { program, debug, crs: c2 } && c2
                == CommonReferenceString { capacity: n as u64 } && n == c2.capacity && built_for(
                program,
                debug,
                *b,
                include_keys,
                n,
                *prog,
            ),
            FoldEnd::Rejected(_, k) => r matches CircuitOutcome::Rejected { kind } && kind == k,
            FoldEnd::Fatal(req) => r matches CircuitOutcome::Fatal { error } && error
                == CrsError::CeilingExceeded { required: req as u64, ceiling: b.crs_ceiling }
                && b.crs_ceiling < req <= u64::MAX,
        },
{
    match optimize_circuit(b, &prog.circuit) {
        Err(e) => CircuitOutcome::Rejected { kind: e.kind },
        Ok((optimized_circuit, labels)) => {
            proof {
                lemma_labels_total(*b, prog.circuit@);
                lemma_debug_map_length(*b, prog.circuit@, prog.debug@);
                lemma_crs_grows(*b, crs.capacity as nat, optimized_circuit@);
            }
            let debug = rewrite_debug(&prog.debug, &labels);
            match update_crs(b, crs, &optimized_circuit) {
                Err(error) => {
                    assert(optimized_circuit@.len() == optimized_circuit.opcodes.len());
                    CircuitOutcome::Fatal { error }
                },
                Ok(next) => match preprocess(b, include_keys, next, optimized_circuit) {
                    Ok(program) => CircuitOutcome::Built { program, debug, crs: next },
                    Err(_) => {
                        unreached()
                    },
                },
            }
        },
    }
}

/// One function of a preprocessed contract.
#[derive(Debug)]
pub struct PreprocessedContractFunction {
    pub name: String,
    pub program: PreprocessedProgram,
    pub debug: DebugInfo,
}

/// A contract ready for proving: its functions in their original order.
#[derive(Debug)]
pub struct PreprocessedContract {
    pub name: String,
    pub backend: String,
    pub functions: Vec<PreprocessedContractFunction>,
}

/// The outcome of processing one contract.
#[derive(Debug)]
pub enum ContractOutcome {
    Built { contract: PreprocessedContract, crs: CommonReferenceString },
    /// A function was rejected by the optimizer; the reference string as the functions
    /// before it left it.
    Rejected { kind: u32, crs: CommonReferenceString },
    Fatal { error: CrsError },
}

pub open spec fn fn_circuits(c: CompiledContract) -> Seq<Seq<Opcode>> {
    c.functions@.map_values(|f: CompiledFunction| f.circuit_view())
}

impl CompiledFunction {
    pub open spec fn circuit_view(&self) -> Seq<Opcode> {
        self.program.circuit@
    }
}

/// The functions of a contract are processed in order, function `j` under the capacity
/// reached after updating for functions `0..=j`.
pub open spec fn contract_built(
    pc: PreprocessedContract,
    b: Backend,
    include_keys: bool,
    cap: nat,
    src: CompiledContract,
) -> bool {
    &&& pc.name == src.name
    &&& pc.backend@ == b.identifier@
    &&& pc.functions@.len() == src.functions@.len()
    &&& forall|j: int|
        0 <= j < src.functions@.len() ==> function_built(
            #[trigger] pc.functions@[j],
            b,
            include_keys,
            fold_caps(b, cap, fn_circuits(src).take(j + 1)),
            src.functions@[j],
        )
}

pub open spec fn function_built(
    f: PreprocessedContractFunction,
    b: Backend,
    include_keys: bool,
    end: FoldEnd,
    src: CompiledFunction,
) -> bool {
    &&& end is Done
    &&& f.name == src.name
    &&& built_for(f.program, f.debug, b, include_keys, end->Done_0, src.program)
}

pub open spec fn functions_wf(c: CompiledContract) -> bool {
    forall|j: int| 0 <= j < c.functions@.len() ==> (#[trigger] c.functions@[j]).program.wf()
}

/// Processes every function of a contract in order, carrying the reference string from
/// one function to the next. Stops at the first function that fails.
pub fn process_contract(
    b: &Backend,
    include_keys: bool,
    crs: CommonReferenceString,
    c: &CompiledContract,
) -> (r: ContractOutcome)
    requires
        functions_wf(*c),
    ensures
        match fold_caps(*b, crs.capacity as nat, fn_circuits(*c)) {
            FoldEnd::Done(n) => r matches ContractOutcome::Built { contract, crs: c2 } && n
                == c2.capacity && contract_built(contract, *b, include_keys, crs.capacity as nat, *c),
            FoldEnd::Rejected(n, k) => r matches ContractOutcome::Rejected { kind, crs: c2 } && kind
                == k && n == c2.capacity,
            FoldEnd::Fatal(req) => r matches ContractOutcome::Fatal { error } && error
                == CrsError::CeilingExceeded { required: req as u64, ceiling: b.crs_ceiling }
                && b.crs_ceiling < req <= u64::MAX,
        },
{
    let ghost fs = fn_circuits(*c);
    let ghost cap0 = crs.capacity as nat;
    let mut cur = crs;
    let mut functions: Vec<PreprocessedContractFunction> = Vec::new();
    let mut j: usize = 0;
    assert(fs.take(0) =~= Seq::<Seq<Opcode>>::empty());
    while j < c.functions.len()
        invariant
            0 <= j <= c.functions@.len(),
            fs == fn_circuits(*c),
            cap0 == crs.capacity as nat,
            fs.len() == c.functions@.len(),
            functions_wf(*c),
            fold_caps(*b, cap0, fs.take(j as int)) == FoldEnd::Done(cur.capacity as nat),
            functions@.len() == j,
            forall|k: int|
                0 <= k < j ==> function_built(
                    #[trigger] functions@[k],
                    *b,
                    include_keys,
                    fold_caps(*b, cap0, fs.take(k + 1)),
                    c.functions@[k],
                ),
        decreases c.functions@.len() - j,
    {
        let f = &c.functions[j];
        assert(f.program.wf());
        let ghost next = fs.take(j + 1);
        assert(next.drop_last() =~= fs.take(j as int));
        assert(next.last() == f.program.circuit@);
        assert(fold_caps(*b, cap0, next) == step(*b, cur.capacity as nat, f.program.circuit@));
        match process_program(b, include_keys, cur, &f.program) {
            CircuitOutcome::Built { program, debug, crs: c2 } => {
                functions.push(PreprocessedContractFunction { name: f.name.clone(), program, debug });
                cur = c2;
            },
            CircuitOutcome::Rejected { kind } => {
                proof {
                    lemma_fold_stops(*b, cap0, fs, j as int + 1);
                }
                return ContractOutcome::Rejected { kind, crs: cur };
            },
            CircuitOutcome::Fatal { error } => {
                proof {
                    lemma_fold_stops(*b, cap0, fs, j as int + 1);
                }
                return ContractOutcome::Fatal { error };
            },
        }
        j = j + 1;
    }
    assert(fs.take(fs.len() as int) =~= fs);
    let contract = PreprocessedContract {
        name: c.name.clone(),
        backend: b.identifier.clone(),
        functions,
    };
    ContractOutcome::Built { contract, crs: cur }
}

/// Once a prefix of the circuits has stopped the fold, the whole run ends the same way.
proof fn lemma_fold_stops(b: Backend, cap: nat, fs: Seq<Seq<Opcode>>, n: int)
    requires
        0 <= n <= fs.len(),
        !(fold_caps(b, cap, fs.take(n)) is Done),
    ensures
        fold_caps(b, cap, fs) == fold_caps(b, cap, fs.take(n)),
    decreases fs.len() - n,
{
    if n < fs.len() {
        assert(fs.take(n + 1).drop_last() =~= fs.take(n));
        lemma_fold_stops(b, cap, fs, n + 1);
    } else {
        assert(fs.take(n) =~= fs);
    }
}

/// The kind of a package: only binaries and contracts have circuits to build.
#[derive(Clone, Copy, Debug, PartialEq, Eq, Structural)]
pub enum PackageKind {
    Binary,
    Library,
    Contract,
}

/// What the frontend compiled a package into.
#[derive(Debug)]
pub enum CompiledUnit {
    Program(CompiledProgram),
    Contracts(Vec<CompiledContract>),
}

/// The frontend's answer for a package, with the number of diagnostics it reported.
#[derive(Debug)]
pub enum FrontendOutput {
    Compiled { unit: CompiledUnit, warnings: u64 },
    Failed { errors: u64, warnings: u64 },
}

/// A package of the workspace, with what the frontend made of it (nothing for a library).
#[derive(Debug)]
pub struct Package {
    pub name: String,
    pub kind: PackageKind,
    pub version: Option<String>,
    pub frontend: Option<FrontendOutput>,
}

/// Options of a build.
#[derive(Clone, Copy, Debug, PartialEq, Eq, Structural)]
pub struct BuildOptions {
    /// Emit proving and verification keys.
    pub include_keys: bool,
    /// Turn frontend warnings into errors.
    pub deny_warnings: bool,
}

/// The preprocessed program of a binary package, with its re-indexed debug information.
#[derive(Debug)]
pub struct ProgramArtifact {
    pub program: PreprocessedProgram,
    pub debug: DebugInfo,
}

/// What a package builds into.
#[derive(Debug)]
pub enum Artifact {
    Program(ProgramArtifact),
    Contracts(Vec<PreprocessedContract>),
}

/// Why a package produced no artifact. These end that package only.
#[derive(Debug, PartialEq, Eq)]
pub enum PackageError {
    /// A library has no entry point to build.
    LibraryCrate(String),
    /// The frontend reported this many errors.
    FrontendErrors(u64),
    /// Warnings are denied and the frontend reported this many.
    DeniedWarnings(u64),
    /// The optimizer cannot translate an opcode of this kind.
    OptimizationUnsupported(u32),
}

/// The outcome of processing every contract of a package.
#[derive(Debug)]
pub enum ContractsOutcome {
    Built { contracts: Vec<PreprocessedContract>, crs: CommonReferenceString },
    Rejected { kind: u32, crs: CommonReferenceString },
    Fatal { error: CrsError },
}

pub open spec fn contract_circuits(cs: Seq<CompiledContract>) -> Seq<Seq<Seq<Opcode>>> {
    cs.map_values(|c: CompiledContract| fn_circuits(c))
}

/// Processing contracts in order, each one's functions in order, with one capacity
/// carried through all of them.
pub open spec fn contracts_fold(b: Backend, cap: nat, css: Seq<Seq<Seq<Opcode>>>) -> FoldEnd
    decreases css.len(),
{
    if css.len() == 0 {
        FoldEnd::Done(cap)
    } else {
        match contracts_fold(b, cap, css.drop_last()) {
            FoldEnd::Done(c) => fold_caps(b, c, css.last()),
            e => e,
        }
    }
}

pub open spec fn contracts_built(
    v: Seq<PreprocessedContract>,
    b: Backend,
    include_keys: bool,
    cap: nat,
    cs: Seq<CompiledContract>,
) -> bool {
    &&& v.len() == cs.len()
    &&& forall|i: int|
        0 <= i < cs.len() ==> (contracts_fold(b, cap, contract_circuits(cs).take(i)) is Done
            && contract_built(
            #[trigger] v[i],
            b,
            include_keys,
            contracts_fold(b, cap, contract_circuits(cs).take(i))->Done_0,
            cs[i],
        ))
}

pub open spec fn contracts_wf(cs: Seq<CompiledContract>) -> bool {
    forall|i: int| 0 <= i < cs.len() ==> functions_wf(#[trigger] cs[i])
}

/// Processes the contracts of a package in order, carrying the reference string through
/// all their functions. Stops at the first function that fails.
pub fn process_contracts(
    b: &Backend,
    include_keys: bool,
    crs: CommonReferenceString,
    cs: &Vec<CompiledContract>,
) -> (r: ContractsOutcome)
    requires
        contracts_wf(cs@),
    ensures
        match contracts_fold(*b, crs.capacity as nat, contract_circuits(cs@)) {
            FoldEnd::Done(n) => r matches ContractsOutcome::Built { contracts, crs: c2 } && n
                == c2.capacity && contracts_built(
                contracts@,
                *b,
                include_keys,
                crs.capacity as nat,
                cs@,
            ),
            FoldEnd::Rejected(n, k) => r matches ContractsOutcome::Rejected { kind, crs: c2 }
                && kind == k && n == c2.capacity,
            FoldEnd::Fatal(req) => r matches ContractsOutcome::Fatal { error } && error
                == CrsError::CeilingExceeded { required: req as u64, ceiling: b.crs_ceiling }
                && b.crs_ceiling < req <= u64::MAX,
        },
{
    let ghost css = contract_circuits(cs@);
    let ghost cap0 = crs.capacity as nat;
    let mut cur = crs;
    let mut contracts: Vec<PreprocessedContract> = Vec::new();
    let mut i: usize = 0;
    assert(css.take(0) =~= Seq::<Seq<Seq<Opcode>>>::empty());
    while i < cs.len()
        invariant
            0 <= i <= cs@.len(),
            css == contract_circuits(cs@),
            css.len() == cs@.len(),
            cap0 == crs.capacity as nat,
            contracts_wf(cs@),
            contracts_fold(*b, cap0, css.take(i as int)) == FoldEnd::Done(cur.capacity as nat),
            contracts@.len() == i,
            forall|k: int| #![trigger contracts@[k]]
                0 <= k < i ==> contract_built(
                    contracts@[k],
                    *b,
                    include_keys,
                    contracts_fold(*b, cap0, css.take(k))->Done_0,
                    cs@[k],
                ),
        decreases cs@.len() - i,
    {
        let c = &cs[i];
        assert(functions_wf(*c));
        let ghost next = css.take(i + 1);
        assert(next.drop_last() =~= css.take(i as int));
        assert(next.last() == fn_circuits(*c));
        assert(contracts_fold(*b, cap0, next) == fold_caps(*b, cur.capacity as nat, fn_circuits(*c)));
        let ghost done = contracts@;
        match process_contract(b, include_keys, cur, c) {
            ContractOutcome::Built { contract, crs: c2 } => {
                contracts.push(contract);
                cur = c2;
            },
            ContractOutcome::Rejected { kind, crs: c2 } => {
                proof {
                    lemma_contracts_fold_stops(*b, cap0, css, i as int + 1);
                }
                return ContractsOutcome::Rejected { kind, crs: c2 };
            },
            ContractOutcome::Fatal { error } => {
                proof {
                    lemma_contracts_fold_stops(*b, cap0, css, i as int + 1);
                }
                return ContractsOutcome::Fatal { error };
            },
        }
        i = i + 1;
        assert forall|k: int| #![trigger contracts@[k]]
            0 <= k < i implies contract_built(
                contracts@[k],
                *b,
                include_keys,
                contracts_fold(*b, cap0, css.take(k))->Done_0,
                cs@[k],
            ) by {
            if k < i - 1 {
                assert(contracts@[k] == done[k]);
            }
        }
    }
    assert(css.take(css.len() as int) =~= css);
    proof {
        lemma_contracts_prefix_done(*b, cap0, css);
    }
    ContractsOutcome::Built { contracts, crs: cur }
}

proof fn lemma_contracts_prefix_done(b: Backend, cap: nat, css: Seq<Seq<Seq<Opcode>>>)
    requires
        contracts_fold(b, cap, css) is Done,
    ensures
        forall|k: int| 0 <= k <= css.len() ==> #[trigger] contracts_fold(b, cap, css.take(k)) is Done,
{
    assert forall|k: int| 0 <= k <= css.len() implies #[trigger] contracts_fold(b, cap, css.take(k)) is Done by {
        if !(contracts_fold(b, cap, css.take(k)) is Done) {
            lemma_contracts_fold_stops(b, cap, css, k);
        }
    }
}

proof fn lemma_contracts_fold_stops(b: Backend, cap: nat, css: Seq<Seq<Seq<Opcode>>>, n: int)
    requires
        0 <= n <= css.len(),
        !(contracts_fold(b, cap, css.take(n)) is Done),
    ensures
        contracts_fold(b, cap, css) == contracts_fold(b, cap, css.take(n)),
    decreases css.len() - n,
{
    if n < css.len() {
        assert(css.take(n + 1).drop_last() =~= css.take(n));
        lemma_contracts_fold_stops(b, cap, css, n + 1);
    } else {
        assert(css.take(n) =~= css);
    }
}

impl Package {
    /// What the frontend handed over fits the package's kind, and each compiled program
    /// has one location per opcode.
    pub open spec fn wf(&self) -> bool {
        match self.kind {
            PackageKind::Library => true,
            PackageKind::Binary => match self.frontend {
                Some(FrontendOutput::Failed { .. }) => true,
                Some(FrontendOutput::Compiled { unit: CompiledUnit::Program(p), .. }) => p.wf(),
                _ => false,
            },
            PackageKind::Contract => match self.frontend {
                Some(FrontendOutput::Failed { .. }) => true,
                Some(FrontendOutput::Compiled { unit: CompiledUnit::Contracts(cs), .. }) => {
                    contracts_wf(cs@)
                },
                _ => false,
            },
        }
    }
}

/// The capacity left after a run, or `None` when the run hit a fatal error.
pub open spec fn end_cap(e: FoldEnd) -> Option<nat> {
    match e {
        FoldEnd::Done(n) => Some(n),
        FoldEnd::Rejected(n, _) => Some(n),
        FoldEnd::Fatal(_) => None,
    }
}

/// Whether the package's circuits reach the optimizer: a compiled binary or contract
/// whose warnings are not denied.
pub open spec fn proceeds(opts: BuildOptions, pkg: Package) -> bool {
    &&& pkg.kind != PackageKind::Library
    &&& pkg.frontend matches Some(FrontendOutput::Compiled { warnings, .. })
    &&& !(warnings > 0 && opts.deny_warnings)
}

/// The run over the circuits of a package that proceeds.
pub open spec fn package_run(b: Backend, cap: nat, pkg: Package) -> FoldEnd {
    match pkg.frontend {
        Some(FrontendOutput::Compiled { unit: CompiledUnit::Program(p), .. }) => step(
            b,
            cap,
            p.circuit@,
        ),
        Some(FrontendOutput::Compiled { unit: CompiledUnit::Contracts(cs), .. }) => contracts_fold(
            b,
            cap,
            contract_circuits(cs@),
        ),
        _ => FoldEnd::Done(cap),
    }
}

/// The capacity after building a package, or `None` when the build must stop.
pub open spec fn package_cap(b: Backend, opts: BuildOptions, cap: nat, pkg: Package) -> Option<
    nat,
> {
    if proceeds(opts, pkg) {
        end_cap(package_run(b, cap, pkg))
    } else {
        Some(cap)
    }
}

/// The outcome of building a package under a capacity, when the build goes on.
pub open spec fn package_outcome(
    o: Result<Artifact, PackageError>,
    b: Backend,
    opts: BuildOptions,
    cap: nat,
    pkg: Package,
) -> bool {
    if pkg.kind == PackageKind::Library {
        o == Err::<Artifact, PackageError>(PackageError::LibraryCrate(pkg.name))
    } else {
        match pkg.frontend {
            Some(FrontendOutput::Failed { errors, .. }) => o == Err::<Artifact, PackageError>(
                PackageError::FrontendErrors(errors),
            ),
            Some(FrontendOutput::Compiled { unit, warnings }) => if warnings > 0
                && opts.deny_warnings {
                o == Err::<Artifact, PackageError>(PackageError::DeniedWarnings(warnings))
            } else {
                match package_run(b, cap, pkg) {
                    FoldEnd::Rejected(_, k) => o == Err::<Artifact, PackageError>(
                        PackageError::OptimizationUnsupported(k),
                    ),
                    FoldEnd::Done(n) => match unit {
                        CompiledUnit::Program(p) => o matches Ok(Artifact::Program(a))
                            && built_for(a.program, a.debug, b, opts.include_keys, n, p),
                        CompiledUnit::Contracts(cs) => o matches Ok(Artifact::Contracts(v))
                            && contracts_built(v@, b, opts.include_keys, cap, cs@),
                    },
                    FoldEnd::Fatal(_) => false,
                }
            },
            None => false,
        }
    }
}

/// Builds one package, carrying the reference string. A library, frontend errors,
/// denied warnings and an opcode the optimizer cannot translate end this package only;
/// a reference string that cannot grow ends the whole build.
pub fn build_package(
    b: &Backend,
    opts: BuildOptions,
    crs: CommonReferenceString,
    pkg: &Package,
) -> (r: Result<(Result<Artifact, PackageError>, CommonReferenceString), CrsError>)
    requires
        pkg.wf(),
    ensures
        match package_cap(*b, opts, crs.capacity as nat, *pkg) {
            Some(n) => r matches Ok((o, c2)) && c2.capacity == n && package_outcome(
                o,
                *b,
                opts,
                crs.capacity as nat,
                *pkg,
            ),
            None => r matches Err(CrsError::CeilingExceeded { required, ceiling }) && ceiling
                == b.crs_ceiling && required > ceiling,
        },
{
    if pkg.kind == PackageKind::Library {
        return Ok((Err(PackageError::LibraryCrate(pkg.name.clone())), crs));
    }
    match &pkg.frontend {
        None => Ok((Err(PackageError::FrontendErrors(0)), crs)),
        Some(FrontendOutput::Failed { errors, .. }) => Ok(
            (Err(PackageError::FrontendErrors(*errors)), crs),
        ),
        Some(FrontendOutput::Compiled { unit, warnings }) => {
            if *warnings > 0 && opts.deny_warnings {
                return Ok((Err(PackageError::DeniedWarnings(*warnings)), crs));
            }
            match unit {
                CompiledUnit::Program(p) => match process_program(b, opts.include_keys, crs, p) {
                    CircuitOutcome::Built { program, debug, crs: c2 } => Ok(
                        (Ok(Artifact::Program(ProgramArtifact { program, debug })), c2),
                    ),
                    CircuitOutcome::Rejected { kind } => Ok(
                        (Err(PackageError::OptimizationUnsupported(kind)), crs),
                    ),
                    CircuitOutcome::Fatal { error } => Err(error),
                },
                CompiledUnit::Contracts(cs) => match process_contracts(
                    b,
                    opts.include_keys,
                    crs,
                    cs,
                ) {
                    ContractsOutcome::Built { contracts, crs: c2 } => Ok(
                        (Ok(Artifact::Contracts(contracts)), c2),
                    ),
                    ContractsOutcome::Rejected { kind, crs: c2 } => Ok(
                        (Err(PackageError::OptimizationUnsupported(kind)), c2),
                    ),
                    ContractsOutcome::Fatal { error } => Err(error),
                },
            }
        },
    }
}

/// The artifacts of a workspace, one outcome per package, and the reference string to
/// keep for the next build.
#[derive(Debug)]
pub struct BuildOutput {
    pub outcomes: Vec<Result<Artifact, PackageError>>,
    pub crs: CommonReferenceString,
}

/// The capacity after building packages in order, or `None` when the build stops.
pub open spec fn workspace_cap(b: Backend, opts: BuildOptions, cap: nat, ps: Seq<Package>) -> Option<
    nat,
>
    decreases ps.len(),
{
    if ps.len() == 0 {
        Some(cap)
    } else {
        match workspace_cap(b, opts, cap, ps.drop_last()) {
            Some(c) => package_cap(b, opts, c, ps.last()),
            None => None,
        }
    }
}

pub open spec fn packages_wf(ps: Seq<Package>) -> bool {
    forall|i: int| 0 <= i < ps.len() ==> (#[trigger] ps[i]).wf()
}

/// Builds every package of a workspace in order, folding one reference string through
/// all their circuits. Package errors are recorded and the build goes on; a reference
/// string that cannot grow stops it.
pub fn build(
    b: &Backend,
    opts: BuildOptions,
    crs: CommonReferenceString,
    packages: &Vec<Package>,
) -> (r: Result<BuildOutput, CrsError>)
    requires
        packages_wf(packages@),
    ensures
        match workspace_cap(*b, opts, crs.capacity as nat, packages@) {
            Some(n) => r matches Ok(out) && out.crs.capacity == n && out.outcomes@.len()
                == packages@.len() && forall|i: int| #![trigger out.outcomes@[i]]
                0 <= i < packages@.len() ==> package_outcome(
                    out.outcomes@[i],
                    *b,
                    opts,
                    workspace_cap(*b, opts, crs.capacity as nat, packages@.take(i)).unwrap(),
                    packages@[i],
                ),
            None => r matches Err(CrsError::CeilingExceeded { required, ceiling }) && ceiling
                == b.crs_ceiling && required > ceiling,
        },
{
    let ghost ps = packages@;
    let ghost cap0 = crs.capacity as nat;
    let mut cur = crs;
    let mut outcomes: Vec<Result<Artifact, PackageError>> = Vec::new();
    let mut i: usize = 0;
    assert(ps.take(0) =~= Seq::<Package>::empty());
    while i < packages.len()
        invariant
            0 <= i <= ps.len(),
            ps == packages@,
            cap0 == crs.capacity as nat,
            packages_wf(ps),
            workspace_cap(*b, opts, cap0, ps.take(i as int)) == Some(cur.capacity as nat),
            outcomes@.len() == i,
            forall|k: int| #![trigger outcomes@[k]]
                0 <= k < i ==> package_outcome(
                    outcomes@[k],
                    *b,
                    opts,
                    workspace_cap(*b, opts, cap0, ps.take(k)).unwrap(),
                    ps[k],
                ),
        decreases ps.len() - i,
    {
        let pkg = &packages[i];
        assert(pkg.wf());
        let ghost next = ps.take(i + 1);
        assert(next.drop_last() =~= ps.take(i as int));
        assert(workspace_cap(*b, opts, cap0, next) == package_cap(
            *b,
            opts,
            cur.capacity as nat,
            *pkg,
        ));
        let ghost done = outcomes@;
        match build_package(b, opts, cur, pkg) {
            Ok((o, c2)) => {
                outcomes.push(o);
                cur = c2;
            },
            Err(e) => {
                proof {
                    lemma_workspace_stops(*b, opts, cap0, ps, i as int + 1);
                }
                return Err(e);
            },
        }
        i = i + 1;
        assert forall|k: int| #![trigger outcomes@[k]]
            0 <= k < i implies package_outcome(
                outcomes@[k],
                *b,
                opts,
                workspace_cap(*b, opts, cap0, ps.take(k)).unwrap(),
                ps[k],
            ) by {
            if k < i - 1 {
                assert(outcomes@[k] == done[k]);
            }
        }
    }
    assert(ps.take(ps.len() as int) =~= ps);
    Ok(BuildOutput { outcomes, crs: cur })
}

proof fn lemma_workspace_stops(b: Backend, opts: BuildOptions, cap: nat, ps: Seq<Package>, n: int)
    requires
        0 <= n <= ps.len(),
        workspace_cap(b, opts, cap, ps.take(n)) is None,
    ensures
        workspace_cap(b, opts, cap, ps) is None,
    decreases ps.len() - n,
{
    if n < ps.len() {
        assert(ps.take(n + 1).drop_last() =~= ps.take(n));
        lemma_workspace_stops(b, opts, cap, ps, n + 1);
    } else {
        assert(ps.take(n) =~= ps);
    }
}

/// In a contract processed from any starting capacity, every function's keys were made
/// under parameters large enough for that function's optimized circuit, even where the
/// starting capacity only covered the functions before it.
pub proof fn lemma_contract_keys_cover(
    pc: PreprocessedContract,
    b: Backend,
    include_keys: bool,
    cap: nat,
    src: CompiledContract,
)
    requires
        contract_built(pc, b, include_keys, cap, src),
        cap <= u64::MAX,
    ensures
        forall|j: int| #![trigger pc.functions@[j]]
            0 <= j < pc.functions@.len() ==> {
                &&& pc.functions@[j].program.proving_key matches Some(k) ==> k.crs_capacity
                    >= pc.functions@[j].program.bytecode@.len()
                &&& pc.functions@[j].program.verification_key matches Some(k) ==> k.crs_capacity
                    >= pc.functions@[j].program.bytecode@.len()
            },
{
    let fs = fn_circuits(src);
    assert forall|j: int| #![trigger pc.functions@[j]]
        0 <= j < pc.functions@.len() implies {
            &&& pc.functions@[j].program.proving_key matches Some(k) ==> k.crs_capacity
                >= pc.functions@[j].program.bytecode@.len()
            &&& pc.functions@[j].program.verification_key matches Some(k) ==> k.crs_capacity
                >= pc.functions@[j].program.bytecode@.len()
        } by {
        let f = pc.functions@[j];
        assert(function_built(f, b, include_keys, fold_caps(b, cap, fs.take(j + 1)), src.functions@[j]));
        let n = fold_caps(b, cap, fs.take(j + 1))->Done_0;
        assert(fs.take(j + 1).drop_last() =~= fs.take(j));
        assert(fs.take(j + 1).last() == src.functions@[j].program.circuit@);
        let c = fold_caps(b, cap, fs.take(j))->Done_0;
        assert(fold_caps(b, cap, fs.take(j)) is Done);
        lemma_fold_bounded(b, cap, fs.take(j + 1));
        assert(n <= u64::MAX);
        assert(step(b, c, src.functions@[j].program.circuit@) == FoldEnd::Done(n));
    }
}

/// Building a library package produces no artifact: its outcome is a library error and
/// the reference string is left as it was.
pub proof fn lemma_library_rejected(b: Backend, opts: BuildOptions, cap: nat, pkg: Package)
    requires
        pkg.kind == PackageKind::Library,
    ensures
        package_cap(b, opts, cap, pkg) == Some(cap),
        workspace_cap(b, opts, cap, seq![pkg]) == Some(cap),
        forall|o: Result<Artifact, PackageError>|
            #[trigger] package_outcome(o, b, opts, cap, pkg) <==> o == Err::<
                Artifact,
                PackageError,
            >(PackageError::LibraryCrate(pkg.name)),
{
    let ws = seq![pkg];
    assert(ws.drop_last() =~= Seq::<Package>::empty());
    assert(workspace_cap(b, opts, cap, ws.drop_last()) == Some(cap));
    assert(ws.last() == pkg);
}

/// With warnings denied, a package whose frontend reported a warning fails with a
/// warnings error, and its circuits never reach the optimizer.
pub proof fn lemma_denied_warnings(b: Backend, opts: BuildOptions, cap: nat, pkg: Package)
    requires
        pkg.kind != PackageKind::Library,
        pkg.frontend matches Some(FrontendOutput::Compiled { warnings, .. }) && warnings > 0,
        opts.deny_warnings,
    ensures
        package_cap(b, opts, cap, pkg) == Some(cap),
        forall|o: Result<Artifact, PackageError>|
            #[trigger] package_outcome(o, b, opts, cap, pkg) ==> o matches Err(
                PackageError::DeniedWarnings(_),
            ),
{
}

} // verus!
