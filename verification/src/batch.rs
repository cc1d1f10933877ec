//! Mutation batches.
//!
//! A request carries four lists of file mutations.  Whatever order the
//! caller supplied them in, the engine applies them as one plan in a fixed
//! order of kinds: creates, then renames, then removes, then downloads;
//! within one kind, entries keep their given order.

use vstd::prelude::*;

verus! {

/// The four kinds of mutation step.
#[derive(Clone, Copy, PartialEq, Eq, Structural, Debug)]
pub enum StepKind {
    Create,
    Rename,
    Remove,
    Download,
}

/// One mutation step of a plan.
pub enum Step {
    Create { path: String, content: String },
    Rename { from: String, to: String },
    Remove { path: String },
    Download { path: String },
}

/// One submitted batch: files to create (path to full text), files to move
/// (old path to new path), paths to remove, and paths whose content must be
/// fetched from the remote host.
pub struct Payload {
    pub create: Vec<(String, String)>,
    pub modify: Vec<(String, String)>,
    pub remove: Vec<String>,
    pub download: Vec<String>,
}

/// The kind of a step.
pub open spec fn kind_of(s: Step) -> StepKind {
    match s {
        Step::Create { .. } => StepKind::Create,
        Step::Rename { .. } => StepKind::Rename,
        Step::Remove { .. } => StepKind::Remove,
        Step::Download { .. } => StepKind::Download,
    }
}

/// The fixed position of a kind in the order of application.
pub open spec fn kind_rank(k: StepKind) -> int {
    match k {
        StepKind::Create => 0,
        StepKind::Rename => 1,
        StepKind::Remove => 2,
        StepKind::Download => 3,
    }
}

/// The plan a batch denotes: all creates, then all renames, then all
/// removes, then all downloads, each list in its given order.
pub open spec fn plan_of(p: Payload) -> Seq<Step> {
    p.create@.map_values(|e: (String, String)| (Step::Create { path: e.0, content: e.1 }))
        + p.modify@.map_values(|e: (String, String)| (Step::Rename { from: e.0, to: e.1 }))
        + p.remove@.map_values(|q: String| (Step::Remove { path: q }))
        + p.download@.map_values(|q: String| (Step::Download { path: q }))
}

/// The kind found at a position of the plan, by the position alone.
pub proof fn lemma_plan_index_kind(p: Payload, x: int)
    requires
        0 <= x < plan_of(p).len(),
    ensures
        kind_rank(kind_of(plan_of(p)[x])) == if x < p.create@.len() {
            0int
        } else if x < p.create@.len() + p.modify@.len() {
            1int
        } else if x < p.create@.len() + p.modify@.len() + p.remove@.len() {
            2int
        } else {
            3int
        },
{
    let a = p.create@.map_values(|e: (String, String)| (Step::Create { path: e.0, content: e.1 }));
    let b = p.modify@.map_values(|e: (String, String)| (Step::Rename { from: e.0, to: e.1 }));
    let c = p.remove@.map_values(|q: String| (Step::Remove { path: q }));
    let d = p.download@.map_values(|q: String| (Step::Download { path: q }));
    assert(plan_of(p) == a + b + c + d);
    if x < a.len() {
        assert(plan_of(p)[x] == a[x]);
    } else if x < a.len() + b.len() {
        assert(plan_of(p)[x] == b[x - a.len()]);
    } else if x < a.len() + b.len() + c.len() {
        assert(plan_of(p)[x] == c[x - a.len() - b.len()]);
    } else {
        assert(plan_of(p)[x] == d[x - a.len() - b.len() - c.len()]);
    }
}

/// Law: the order of application is fixed by kind, not by the caller.  In
/// the plan of any batch, every create stands before every rename, every
/// rename before every remove, and every remove before every download.
pub proof fn lemma_plan_kind_order(p: Payload, i: int, j: int)
    requires
        0 <= i <= j < plan_of(p).len(),
    ensures
        kind_rank(kind_of(plan_of(p)[i])) <= kind_rank(kind_of(plan_of(p)[j])),
{
    lemma_plan_index_kind(p, i);
    lemma_plan_index_kind(p, j);
}

/// Build the plan of a batch.
pub fn build_plan(p: &Payload) -> (r: Vec<Step>)
    ensures
        r@ == plan_of(*p),
{
    let a: usize = p.create.len();
    let b: usize = p.modify.len();
    let c: usize = p.remove.len();
    let d: usize = p.download.len();
    let ghost sa = p.create@.map_values(
        |e: (String, String)| (Step::Create { path: e.0, content: e.1 }),
    );
    let ghost sb = p.modify@.map_values(
        |e: (String, String)| (Step::Rename { from: e.0, to: e.1 }),
    );
    let ghost sc = p.remove@.map_values(|q: String| (Step::Remove { path: q }));
    let ghost sd = p.download@.map_values(|q: String| (Step::Download { path: q }));
    let mut out: Vec<Step> = Vec::new();
    let mut i: usize = 0;
    while i < a
        invariant
            i <= a,
            a == p.create@.len(),
            sa == p.create@.map_values(
                |e: (String, String)| (Step::Create { path: e.0, content: e.1 }),
            ),
            out@ =~= sa.subrange(0, i as int),
        decreases a - i,
    {
        out.push(Step::Create { path: p.create[i].0.clone(), content: p.create[i].1.clone() });
        i = i + 1;
    }
    let mut i: usize = 0;
    while i < b
        invariant
            i <= b,
            b == p.modify@.len(),
            sa.len() == p.create@.len(),
            sb == p.modify@.map_values(
                |e: (String, String)| (Step::Rename { from: e.0, to: e.1 }),
            ),
            out@ =~= sa + sb.subrange(0, i as int),
        decreases b - i,
    {
        out.push(Step::Rename { from: p.modify[i].0.clone(), to: p.modify[i].1.clone() });
        i = i + 1;
    }
    let mut i: usize = 0;
    while i < c
        invariant
            i <= c,
            c == p.remove@.len(),
            sa.len() == p.create@.len(),
            sb.len() == p.modify@.len(),
            sc == p.remove@.map_values(|q: String| (Step::Remove { path: q })),
            out@ =~= sa + sb + sc.subrange(0, i as int),
        decreases c - i,
    {
        out.push(Step::Remove { path: p.remove[i].clone() });
        i = i + 1;
    }
    let mut i: usize = 0;
    while i < d
        invariant
            i <= d,
            d == p.download@.len(),
            sa.len() == p.create@.len(),
            sb.len() == p.modify@.len(),
            sc.len() == p.remove@.len(),
            sd == p.download@.map_values(|q: String| (Step::Download { path: q })),
            out@ =~= sa + sb + sc + sd.subrange(0, i as int),
        decreases d - i,
    {
        out.push(Step::Download { path: p.download[i].clone() });
        i = i + 1;
    }
    proof {
        assert(sd.subrange(0, d as int) =~= sd);
        assert(out@ =~= plan_of(*p));
    }
    out
}

impl Payload {
    /// A batch with no mutations at all.
    pub fn empty() -> (r: Payload)
        ensures
            r.create@ == Seq::<(String, String)>::empty(),
            r.modify@ == Seq::<(String, String)>::empty(),
            r.remove@ == Seq::<String>::empty(),
            r.download@ == Seq::<String>::empty(),
            plan_of(r) == Seq::<Step>::empty(),
    {
        let r = Payload { create: Vec::new(), modify: Vec::new(), remove: Vec::new(), download: Vec::new() };
        proof {
            assert(plan_of(r) =~= Seq::<Step>::empty());
        }
        r
    }
}

} // verus!
