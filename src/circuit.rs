use vstd::prelude::*;

verus! {

/// One constraint of a circuit, identified by its kind.
#[derive(Clone, Copy, Debug, PartialEq, Eq, Structural)]
pub struct Opcode {
    pub kind: u32,
}

/// An ordered sequence of opcodes.
#[derive(Debug)]
pub struct Circuit {
    pub opcodes: Vec<Opcode>,
}

impl View for Circuit {
    type V = Seq<Opcode>;

    open spec fn view(&self) -> Seq<Opcode> {
        self.opcodes@
    }
}

/// Tag of an opcode of an optimized circuit: the index of the original opcode it came from.
#[derive(Clone, Copy, Debug, PartialEq, Eq, Structural)]
pub enum OpcodeLabel {
    Unresolved,
    Resolved(usize),
}

/// A way of expressing an opcode kind through other kinds.
#[derive(Debug)]
pub struct Translation {
    pub from: u32,
    pub into: Vec<u32>,
}

/// What a proving backend accepts: the opcode kinds it supports natively, the
/// translations its optimizer knows, and the bounds of its reference string.
#[derive(Debug)]
pub struct Backend {
    pub identifier: String,
    pub supported: Vec<u32>,
    pub translations: Vec<Translation>,
    pub default_crs_capacity: u64,
    pub crs_ceiling: u64,
}

/// Failure of the optimizer: the kind of the first opcode it could not translate.
#[derive(Clone, Copy, Debug, PartialEq, Eq, Structural)]
pub struct OptimizationUnsupported {
    pub kind: u32,
}

pub open spec fn supports(b: Backend, kind: u32) -> bool {
    b.supported@.contains(kind)
}

/// The first translation of `kind` in the table, if any.
pub open spec fn translation_of(ts: Seq<Translation>, kind: u32) -> Option<Seq<u32>>
    decreases ts.len(),
{
    if ts.len() == 0 {
        None
    } else if ts[0].from == kind {
        Some(ts[0].into@)
    } else {
        translation_of(ts.drop_first(), kind)
    }
}

pub open spec fn all_supported(b: Backend, kinds: Seq<u32>) -> bool {
    forall|j: int| 0 <= j < kinds.len() ==> supports(b, #[trigger] kinds[j])
}

pub open spec fn opcodes_of(kinds: Seq<u32>) -> Seq<Opcode> {
    kinds.map_values(|k: u32| Opcode { kind: k })
}

/// What one opcode becomes: itself when supported, else its translation when that
/// consists of supported kinds only.
pub open spec fn rewrite_one(b: Backend, op: Opcode) -> Option<Seq<Opcode>> {
    if supports(b, op.kind) {
        Some(seq![op])
    } else {
        match translation_of(b.translations@, op.kind) {
            Some(t) => if all_supported(b, t) {
                Some(opcodes_of(t))
            } else {
                None
            },
            None => None,
        }
    }
}

/// The optimized opcode sequence, or `None` when some opcode cannot be rewritten.
pub open spec fn optimized(b: Backend, ops: Seq<Opcode>) -> Option<Seq<Opcode>>
    decreases ops.len(),
{
    if ops.len() == 0 {
        Some(Seq::empty())
    } else {
        match optimized(b, ops.drop_last()) {
            Some(prefix) => match rewrite_one(b, ops.last()) {
                Some(r) => Some(prefix + r),
                None => None,
            },
            None => None,
        }
    }
}

/// The labels of the optimized sequence: each new opcode points at the opcode it came from.
pub open spec fn labels_of(b: Backend, ops: Seq<Opcode>) -> Seq<OpcodeLabel>
    decreases ops.len(),
{
    if ops.len() == 0 {
        Seq::empty()
    } else {
        let n = match rewrite_one(b, ops.last()) {
            Some(r) => r.len(),
            None => 0,
        };
        labels_of(b, ops.drop_last()) + Seq::new(
            n,
            |j: int| OpcodeLabel::Resolved((ops.len() - 1) as usize),
        )
    }
}

/// The first opcode that cannot be rewritten, when there is one.
pub open spec fn first_unsupported(b: Backend, ops: Seq<Opcode>) -> Option<u32>
    decreases ops.len(),
{
    if ops.len() == 0 {
        None
    } else {
        match first_unsupported(b, ops.drop_last()) {
            Some(k) => Some(k),
            None => if rewrite_one(b, ops.last()) is None {
                Some(ops.last().kind)
            } else {
                None
            },
        }
    }
}

pub open spec fn resolves_into(labels: Seq<OpcodeLabel>, n: nat) -> bool {
    forall|j: int|
        0 <= j < labels.len() ==> match #[trigger] labels[j] {
            OpcodeLabel::Resolved(i) => i < n,
            OpcodeLabel::Unresolved => false,
        }
}

pub fn backend_supports(b: &Backend, kind: u32) -> (r: bool)
    ensures
        r == supports(*b, kind),
{
    let mut i: usize = 0;
    while i < b.supported.len()
        invariant
            0 <= i <= b.supported@.len(),
            forall|j: int| 0 <= j < i ==> b.supported@[j] != kind,
        decreases b.supported@.len() - i,
    {
        if b.supported[i] == kind {
            return true;
        }
        i = i + 1;
    }
    false
}

/// Looks up the first translation of `kind`.
pub fn find_translation(b: &Backend, kind: u32) -> (r: Option<&Vec<u32>>)
    ensures
        match r {
            Some(t) => translation_of(b.translations@, kind) == Some(t@),
            None => translation_of(b.translations@, kind) is None,
        },
{
    let mut i: usize = 0;
    assert(b.translations@.subrange(0, b.translations@.len() as int) =~= b.translations@);
    while i < b.translations.len()
        invariant
            0 <= i <= b.translations@.len(),
            translation_of(b.translations@, kind) == translation_of(
                b.translations@.subrange(i as int, b.translations@.len() as int),
                kind,
            ),
        decreases b.translations@.len() - i,
    {
        let ghost rest = b.translations@.subrange(i as int, b.translations@.len() as int);
        assert(rest.drop_first() =~= b.translations@.subrange(
            i + 1,
            b.translations@.len() as int,
        ));
        if b.translations[i].from == kind {
            return Some(&b.translations[i].into);
        }
        i = i + 1;
    }
    None
}

/// Whether every kind of `kinds` is supported by the backend.
pub fn all_kinds_supported(b: &Backend, kinds: &Vec<u32>) -> (r: bool)
    ensures
        r == all_supported(*b, kinds@),
{
    let mut i: usize = 0;
    while i < kinds.len()
        invariant
            0 <= i <= kinds@.len(),
            forall|j: int| 0 <= j < i ==> supports(*b, #[trigger] kinds@[j]),
        decreases kinds@.len() - i,
    {
        if !backend_supports(b, kinds[i]) {
            return false;
        }
        i = i + 1;
    }
    true
}

/// What one opcode becomes under the backend, or `None` when it cannot be expressed.
pub fn rewrite_opcode(b: &Backend, op: Opcode) -> (r: Option<Vec<Opcode>>)
    ensures
        match r {
            Some(v) => rewrite_one(*b, op) == Some(v@),
            None => rewrite_one(*b, op) is None,
        },
{
    if backend_supports(b, op.kind) {
        return Some(vec![op]);
    }
    match find_translation(b, op.kind) {
        None => None,
        Some(t) => {
            if !all_kinds_supported(b, t) {
                return None;
            }
            let mut out: Vec<Opcode> = Vec::new();
            let mut j: usize = 0;
            while j < t.len()
                invariant
                    0 <= j <= t@.len(),
                    out@.len() == j,
                    forall|k: int| 0 <= k < j ==> out@[k].kind == t@[k],
                decreases t@.len() - j,
            {
                out.push(Opcode { kind: t[j] });
                j = j + 1;
            }
            assert(out@ =~= opcodes_of(t@));
            Some(out)
        },
    }
}

/// Rewrites a circuit into one made of the backend's supported opcodes only, with one
/// label per new opcode naming the original opcode it came from. Fails with the kind of
/// the first opcode that the backend can neither run nor translate.
pub fn optimize_circuit(b: &Backend, c: &Circuit) -> (r: Result<
    (Circuit, Vec<OpcodeLabel>),
    OptimizationUnsupported,
>)
    ensures
        match r {
            Ok((oc, labels)) => {
                &&& optimized(*b, c@) == Some(oc@)
                &&& labels@ == labels_of(*b, c@)
            },
            Err(e) => {
                &&& optimized(*b, c@) is None
                &&& first_unsupported(*b, c@) == Some(e.kind)
            },
        },
{
    let mut out: Vec<Opcode> = Vec::new();
    let mut labels: Vec<OpcodeLabel> = Vec::new();
    let mut i: usize = 0;
    assert(c@.take(0) =~= Seq::<Opcode>::empty());
    while i < c.opcodes.len()
        invariant
            0 <= i <= c@.len(),
            optimized(*b, c@.take(i as int)) == Some(out@),
            labels@ == labels_of(*b, c@.take(i as int)),
            first_unsupported(*b, c@.take(i as int)) is None,
        decreases c@.len() - i,
    {
        let ghost pre = c@.take(i as int);
        let ghost cur = c@.take(i + 1);
        assert(cur.drop_last() =~= pre);
        assert(cur.last() == c@[i as int]);
        let op = c.opcodes[i];
        match rewrite_opcode(b, op) {
            None => {
                proof {
                    lemma_unsupported_extends(*b, c@, i as int + 1);
                }
                return Err(OptimizationUnsupported { kind: op.kind });
            },
            Some(r) => {
                let ghost labels_before = labels@;
                let mut j: usize = 0;
                while j < r.len()
                    invariant
                        0 <= j <= r@.len(),
                        labels@ == labels_before + Seq::new(
                            j as nat,
                            |k: int| OpcodeLabel::Resolved(i),
                        ),
                    decreases r@.len() - j,
                {
                    labels.push(OpcodeLabel::Resolved(i));
                    j = j + 1;
                    assert(labels@ =~= labels_before + Seq::new(
                        j as nat,
                        |k: int| OpcodeLabel::Resolved(i),
                    ));
                }
                assert(labels@ =~= labels_of(*b, cur));
                let ghost out_before = out@;
                let mut rv = r;
                out.append(&mut rv);
                assert(out@ =~= out_before + r@);
            },
        }
        i = i + 1;
    }
    assert(c@.take(c@.len() as int) =~= c@);
    Ok((Circuit { opcodes: out }, labels))
}

/// Once some opcode of a prefix cannot be rewritten, neither can the whole sequence, and
/// the first such opcode stays the first.
proof fn lemma_unsupported_extends(b: Backend, ops: Seq<Opcode>, n: int)
    requires
        0 < n <= ops.len(),
        first_unsupported(b, ops.take(n)) is Some,
        optimized(b, ops.take(n)) is None,
    ensures
        first_unsupported(b, ops) == first_unsupported(b, ops.take(n)),
        optimized(b, ops) is None,
    decreases ops.len() - n,
{
    if n < ops.len() {
        let next = ops.take(n + 1);
        assert(next.drop_last() =~= ops.take(n));
        lemma_unsupported_extends(b, ops, n + 1);
    } else {
        assert(ops.take(n) =~= ops);
    }
}

/// Every opcode that the optimizer emits is supported by the backend and carries a label
/// resolved into the range of the original circuit, one label per emitted opcode.
pub proof fn lemma_labels_total(b: Backend, ops: Seq<Opcode>)
    requires
        optimized(b, ops) is Some,
    ensures
        labels_of(b, ops).len() == optimized(b, ops).unwrap().len(),
        resolves_into(labels_of(b, ops), ops.len()),
        forall|j: int|
            0 <= j < optimized(b, ops).unwrap().len() ==> supports(
                b,
                (#[trigger] optimized(b, ops).unwrap()[j]).kind,
            ),
    decreases ops.len(),
{
    if ops.len() > 0 {
        let pre = ops.drop_last();
        lemma_labels_total(b, pre);
        let r = rewrite_one(b, ops.last()).unwrap();
        let out = optimized(b, ops).unwrap();
        let labels = labels_of(b, ops);
        assert forall|j: int| 0 <= j < out.len() implies supports(b, (#[trigger] out[j]).kind) by {
            if j >= optimized(b, pre).unwrap().len() {
                let k = j - optimized(b, pre).unwrap().len();
                if !supports(b, ops.last().kind) {
                    let t = translation_of(b.translations@, ops.last().kind).unwrap();
                    assert(supports(b, t[k]));
                }
            }
        }
        assert forall|j: int| 0 <= j < labels.len() implies match #[trigger] labels[j] {
            OpcodeLabel::Resolved(i) => i < ops.len(),
            OpcodeLabel::Unresolved => false,
        } by {
            if j < labels_of(b, pre).len() {
                assert(labels[j] == labels_of(b, pre)[j]);
            }
        }
    }
}

/// A circuit whose opcodes the backend all supports comes out of the optimizer unchanged,
/// each opcode labelled with its own position.
pub proof fn lemma_supported_circuit_unchanged(b: Backend, ops: Seq<Opcode>)
    requires
        forall|j: int| 0 <= j < ops.len() ==> supports(b, (#[trigger] ops[j]).kind),
    ensures
        optimized(b, ops) == Some(ops),
        labels_of(b, ops) == Seq::new(ops.len(), |j: int| OpcodeLabel::Resolved(j as usize)),
    decreases ops.len(),
{
    if ops.len() > 0 {
        let pre = ops.drop_last();
        assert forall|j: int| 0 <= j < pre.len() implies supports(b, (#[trigger] pre[j]).kind) by {
            assert(pre[j] == ops[j]);
        }
        lemma_supported_circuit_unchanged(b, pre);
        assert(supports(b, ops[ops.len() - 1].kind));
        assert(pre + seq![ops.last()] =~= ops);
        assert(labels_of(b, ops) =~= Seq::new(
            ops.len(),
            |j: int| OpcodeLabel::Resolved(j as usize),
        ));
    }
}

} // verus!
