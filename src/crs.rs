use vstd::prelude::*;
use crate::circuit::{Backend, Circuit, Opcode};

verus! {

/// Shared proving parameters, described by the largest circuit size they support.
#[derive(Clone, Copy, Debug, PartialEq, Eq, Structural)]
pub struct CommonReferenceString {
    pub capacity: u64,
}

/// The backend cannot produce parameters as large as a circuit needs.
#[derive(Clone, Copy, Debug, PartialEq, Eq, Structural)]
pub enum CrsError {
    CeilingExceeded { required: u64, ceiling: u64 },
}

/// The parameter size a circuit needs: its final gate count.
pub open spec fn required_capacity(ops: Seq<Opcode>) -> nat {
    ops.len()
}

/// The capacity after updating for a circuit, or `None` when the backend's ceiling is
/// exceeded. A capacity that already suffices is kept as it is.
pub open spec fn crs_after(b: Backend, cap: nat, ops: Seq<Opcode>) -> Option<nat> {
    if required_capacity(ops) <= cap {
        Some(cap)
    } else if required_capacity(ops) <= b.crs_ceiling {
        Some(required_capacity(ops))
    } else {
        None
    }
}

/// The reference string to start a build from: the cached one, or the backend's default.
pub fn load_crs(b: &Backend, cached: Option<CommonReferenceString>) -> (r: CommonReferenceString)
    ensures
        r == match cached {
            Some(c) => c,
            None => CommonReferenceString { capacity: b.default_crs_capacity },
        },
{
    match cached {
        Some(c) => c,
        None => CommonReferenceString { capacity: b.default_crs_capacity },
    }
}

/// Grows the reference string, if needed, so that it covers the (optimized) circuit.
pub fn update_crs(b: &Backend, crs: CommonReferenceString, c: &Circuit) -> (r: Result<
    CommonReferenceString,
    CrsError,
>)
    ensures
        match crs_after(*b, crs.capacity as nat, c@) {
            Some(n) => r == Ok::<CommonReferenceString, CrsError>(
                CommonReferenceString { capacity: n as u64 },
            ),
            None => r == Err::<CommonReferenceString, CrsError>(
                CrsError::CeilingExceeded { required: c@.len() as u64, ceiling: b.crs_ceiling },
            ),
        },
{
    let required = c.opcodes.len() as u64;
    if required <= crs.capacity {
        Ok(crs)
    } else if required <= b.crs_ceiling {
        Ok(CommonReferenceString { capacity: required })
    } else {
        Err(CrsError::CeilingExceeded { required, ceiling: b.crs_ceiling })
    }
}

/// An update never lowers the capacity, and a successful one covers the circuit.
pub proof fn lemma_crs_grows(b: Backend, cap: nat, ops: Seq<Opcode>)
    ensures
        crs_after(b, cap, ops) matches Some(n) ==> n >= cap && n >= required_capacity(ops),
{
}

/// Updating for a circuit and then for one that needs no larger parameters gives the
/// same reference string as the first update alone.
pub proof fn lemma_crs_monotone(b: Backend, cap: nat, first: Seq<Opcode>, second: Seq<Opcode>)
    requires
        required_capacity(second) <= required_capacity(first),
    ensures
        crs_after(b, cap, first) matches Some(n) ==> crs_after(b, n, second) == Some(n),
{
}

/// Updating twice in a row for the same circuit gives the same reference string as
/// updating once.
pub proof fn lemma_crs_idempotent(b: Backend, cap: nat, ops: Seq<Opcode>)
    ensures
        crs_after(b, cap, ops) matches Some(n) ==> crs_after(b, n, ops) == Some(n),
{
}

} // verus!
