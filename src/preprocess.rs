use vstd::prelude::*;
use crate::circuit::{Backend, Circuit, Opcode, supports, backend_supports};
use crate::crs::{CommonReferenceString, required_capacity};

verus! {

/// Key material, recorded by the reference string and circuit size it was made for.
#[derive(Clone, Copy, Debug, PartialEq, Eq, Structural)]
pub struct KeyMaterial {
    pub crs_capacity: u64,
    pub circuit_size: u64,
}

/// A circuit ready for proving under one backend.
#[derive(Debug)]
pub struct PreprocessedProgram {
    pub backend: String,
    pub bytecode: Circuit,
    pub proving_key: Option<KeyMaterial>,
    pub verification_key: Option<KeyMaterial>,
}

/// The backend rejects a circuit.
#[derive(Clone, Copy, Debug, PartialEq, Eq, Structural)]
pub enum ProofSystemError {
    /// The opcode at `index` has a kind the backend does not support.
    UnsupportedOpcode { index: u64, kind: u32 },
    /// The reference string is too small for the circuit.
    StaleReferenceString { capacity: u64, required: u64 },
}

pub open spec fn natively_supported(b: Backend, ops: Seq<Opcode>) -> bool {
    forall|j: int| 0 <= j < ops.len() ==> supports(b, (#[trigger] ops[j]).kind)
}

/// The keys made for a circuit of `size` opcodes under a reference string, when asked for.
pub open spec fn keys_for(include_keys: bool, crs: CommonReferenceString, size: nat) -> Option<
    KeyMaterial,
> {
    if include_keys {
        Some(KeyMaterial { crs_capacity: crs.capacity, circuit_size: size as u64 })
    } else {
        None
    }
}

/// The artifact that preprocessing makes of a circuit that the backend accepts.
pub open spec fn is_artifact_for(
    p: PreprocessedProgram,
    b: Backend,
    include_keys: bool,
    crs: CommonReferenceString,
    ops: Seq<Opcode>,
) -> bool {
    &&& p.backend@ == b.identifier@
    &&& p.bytecode@ == ops
    &&& p.proving_key == keys_for(include_keys, crs, ops.len())
    &&& p.verification_key == keys_for(include_keys, crs, ops.len())
}

/// Turns a circuit into an artifact for the backend, with keys when `include_keys` is
/// set. Fails when an opcode is not supported natively (naming the first), or when the
/// reference string does not cover the circuit.
pub fn preprocess(
    b: &Backend,
    include_keys: bool,
    crs: CommonReferenceString,
    c: Circuit,
) -> (r: Result<PreprocessedProgram, ProofSystemError>)
    ensures
        r is Ok <==> natively_supported(*b, c@) && required_capacity(c@) <= crs.capacity,
        match r {
            Ok(p) => is_artifact_for(p, *b, include_keys, crs, c@),
            Err(ProofSystemError::UnsupportedOpcode { index, kind }) => {
                &&& index < c@.len()
                &&& c@[index as int].kind == kind
                &&& !supports(*b, kind)
                &&& forall|j: int| 0 <= j < index ==> supports(*b, (#[trigger] c@[j]).kind)
            },
            Err(ProofSystemError::StaleReferenceString { capacity, required }) => {
                &&& natively_supported(*b, c@)
                &&& capacity == crs.capacity
                &&& required == c@.len()
            },
        },
{
    let mut i: usize = 0;
    while i < c.opcodes.len()
        invariant
            0 <= i <= c@.len(),
            forall|j: int| 0 <= j < i ==> supports(*b, (#[trigger] c@[j]).kind),
        decreases c@.len() - i,
    {
        let kind = c.opcodes[i].kind;
        if !backend_supports(b, kind) {
            return Err(ProofSystemError::UnsupportedOpcode { index: i as u64, kind });
        }
        i = i + 1;
    }
    let size = c.opcodes.len() as u64;
    if size > crs.capacity {
        return Err(ProofSystemError::StaleReferenceString { capacity: crs.capacity, required: size });
    }
    let key = if include_keys {
        Some(KeyMaterial { crs_capacity: crs.capacity, circuit_size: size })
    } else {
        None
    };
    Ok(PreprocessedProgram {
        backend: b.identifier.clone(),
        bytecode: c,
        proving_key: key,
        verification_key: key,
    })
}

} // verus!
