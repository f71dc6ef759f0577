use vstd::prelude::*;
use crate::circuit::{Backend, Opcode, OpcodeLabel, labels_of, optimized, resolves_into, lemma_labels_total};

verus! {

/// A source location: a file and a span within it.
#[derive(Clone, Copy, Debug, PartialEq, Eq, Structural)]
pub struct Location {
    pub file: u32,
    pub start: u32,
    pub end: u32,
}

/// The source location of each opcode of a circuit, by position.
#[derive(Debug)]
pub struct DebugInfo {
    pub locations: Vec<Location>,
}

impl View for DebugInfo {
    type V = Seq<Location>;

    open spec fn view(&self) -> Seq<Location> {
        self.locations@
    }
}

pub open spec fn label_index(l: OpcodeLabel) -> int {
    match l {
        OpcodeLabel::Resolved(i) => i as int,
        OpcodeLabel::Unresolved => 0,
    }
}

/// The locations after optimization: position `j` inherits the location of the original
/// opcode that label `j` names.
pub open spec fn rewritten(locs: Seq<Location>, labels: Seq<OpcodeLabel>) -> Seq<Location> {
    Seq::new(labels.len(), |j: int| locs[label_index(labels[j])])
}

/// Re-indexes debug information for an optimized circuit. Every label must be resolved
/// into the original circuit: an unresolved one is a defect of the optimizer, which
/// `lemma_labels_total` rules out.
pub fn rewrite_debug(debug: &DebugInfo, labels: &Vec<OpcodeLabel>) -> (r: DebugInfo)
    requires
        resolves_into(labels@, debug@.len()),
    ensures
        r@ == rewritten(debug@, labels@),
        r@.len() == labels@.len(),
{
    let mut out: Vec<Location> = Vec::new();
    let mut j: usize = 0;
    while j < labels.len()
        invariant
            0 <= j <= labels@.len(),
            resolves_into(labels@, debug@.len()),
            out@ =~= rewritten(debug@, labels@.take(j as int)),
        decreases labels@.len() - j,
    {
        let ghost l = labels@[j as int];
        assert(match l {
            OpcodeLabel::Resolved(i) => i < debug@.len(),
            OpcodeLabel::Unresolved => false,
        });
        match labels[j] {
            OpcodeLabel::Resolved(i) => {
                out.push(debug.locations[i]);
            },
            OpcodeLabel::Unresolved => {
                unreached::<()>();
            },
        }
        j = j + 1;
        assert(out@ =~= rewritten(debug@, labels@.take(j as int)));
    }
    assert(labels@.take(labels@.len() as int) =~= labels@);
    DebugInfo { locations: out }
}

/// After optimization the rewritten debug information has exactly one location per
/// opcode of the optimized circuit, and every label it reads indexes the original
/// debug information.
pub proof fn lemma_debug_map_length(b: Backend, ops: Seq<Opcode>, locs: Seq<Location>)
    requires
        optimized(b, ops) is Some,
        locs.len() == ops.len(),
    ensures
        resolves_into(labels_of(b, ops), locs.len()),
        rewritten(locs, labels_of(b, ops)).len() == optimized(b, ops).unwrap().len(),
{
    lemma_labels_total(b, ops);

}

} // verus!
