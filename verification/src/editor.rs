//! The step sequencer: a mutable rebase plan over one linear span of the
//! graph, with anchor resolution and structural insertion.

use vstd::prelude::*;
use crate::commit::CommitData;
use crate::commit::CommitSpec;
use crate::errors::Error;
use crate::graph::Graph;
use crate::graph::GraphRef;
use crate::RelativeTo;
use crate::id::Oid;
use crate::id::ID_LEN;

verus! {

/// Where a new step goes relative to the anchor: the new commit becomes the
/// anchor's parent (`Before`) or the anchor's child (`After`).
#[derive(Clone, Copy, Debug, PartialEq, Eq, Structural)]
pub enum InsertSide {
    Before,
    After,
}

/// One step of the plan: either pick an existing commit (carrying its
/// identity), or carry a newly authored commit that has no identity yet.
#[derive(Clone, Debug)]
pub struct PlanStep {
    /// The commit's original identity, or `None` for a newly authored step.
    pub id: Option<Oid>,
    /// The commit's fields.
    pub data: CommitData,
}

/// The mathematical value of a [`PlanStep`].
pub ghost struct StepSpec {
    pub id: Option<Seq<u8>>,
    pub data: CommitSpec,
}

impl View for PlanStep {
    type V = StepSpec;

    open spec fn view(&self) -> StepSpec {
        StepSpec {
            id: if self.id is Some {
                Some(self.id->Some_0@)
            } else {
                None
            },
            data: self.data@,
        }
    }
}

impl StepSpec {
    /// A step is well formed when its identities have the hash length. A
    /// newly authored step's tree is exempt: it is a placeholder until the
    /// rebase executor assigns the tree from the insertion point.
    pub open spec fn wf(self) -> bool {
        &&& self.id is Some ==> self.data.wf() && self.id->Some_0.len() == ID_LEN
        &&& forall|i: int|
            0 <= i < self.data.parents.len() ==> (#[trigger] self.data.parents[i]).len() == ID_LEN
    }
}

/// A stable reference into the plan, produced by anchor resolution and
/// consumed by insertion.
///
/// A selector is only meaningful against the plan state it was resolved
/// against: every consumer requires, and the verifier checks at every call
/// site, that the selector indexes a pick of the consuming editor's plan, so
/// a selector cannot cross sessions.
#[derive(Clone, Copy, Debug)]
pub struct TargetSelector {
    /// The position of the selected step in the plan.
    pub index: usize,
}

/// The first target, scanning from position `i`, of a reference with the
/// given name; `None` if no reference carries the name.
pub open spec fn ref_lookup(refs: Seq<GraphRef>, name: Seq<u8>, i: int) -> Option<Seq<u8>>
    decreases refs.len() - i,
{
    if i < 0 || i >= refs.len() {
        None
    } else if refs[i].name@ == name {
        Some(refs[i].target@)
    } else {
        ref_lookup(refs, name, i + 1)
    }
}

/// The position, scanning from `i`, of the first pick step carrying the given
/// identity; `None` if no pick carries it.
pub open spec fn find_pick(plan: Seq<StepSpec>, id: Seq<u8>, i: int) -> Option<int>
    decreases plan.len() - i,
{
    if i < 0 || i >= plan.len() {
        None
    } else if plan[i].id == Some(id) {
        Some(i)
    } else {
        find_pick(plan, id, i + 1)
    }
}

/// The plan that results from splicing a newly authored commit `c` into
/// `plan` on the given side of the anchor at `at`.
///
/// The new step has no identity yet. Inserted before the first step, it takes
/// over the span root's former parents (they lie outside the span); anywhere
/// else its parent is implied by its position and its parent list stays
/// empty.
pub open spec fn insert_plan(plan: Seq<StepSpec>, at: int, c: CommitSpec, side: InsertSide) -> Seq<
    StepSpec,
> {
    let pos = if side is After {
        at + 1
    } else {
        at
    };
    let data = if side is Before && at == 0 {
        CommitSpec {
            tree: c.tree,
            parents: plan[0].data.parents,
            author: c.author,
            committer: c.committer,
            message: c.message,
        }
    } else {
        c
    };
    plan.insert(pos, StepSpec { id: None, data })
}

/// An edit session: the exclusively owned, mutable rebase plan over one
/// borrowed, read-only graph.
pub struct Editor<'g> {
    /// The graph the session was opened over; consulted for reference
    /// resolution.
    pub graph: &'g Graph,
    /// The ordered sequence of steps, root first.
    pub plan: Vec<PlanStep>,
}

impl<'g> Editor<'g> {
    /// The mathematical value of the plan.
    pub open spec fn plan_spec(self) -> Seq<StepSpec> {
        self.plan@.map_values(|s: PlanStep| s@)
    }

    /// The session invariant: every step well formed, no two picks sharing an
    /// identity, and every pick directly following a pick carrying it as its
    /// first parent.
    pub open spec fn wf(self) -> bool {
        &&& forall|i: int|
            0 <= i < self.plan_spec().len() ==> (#[trigger] self.plan_spec()[i]).wf()
        &&& forall|i: int, j: int|
            0 <= i < j < self.plan_spec().len() && self.plan_spec()[i].id is Some
                && self.plan_spec()[j].id is Some ==> self.plan_spec()[i].id->Some_0
                != self.plan_spec()[j].id->Some_0
        &&& forall|i: int|
            1 <= i < self.plan_spec().len() && (#[trigger] self.plan_spec()[i]).id is Some
                && self.plan_spec()[i - 1].id is Some ==> self.plan_spec()[i].data.parents.len()
                >= 1 && self.plan_spec()[i].data.parents[0] == self.plan_spec()[i - 1].id->Some_0
    }

    /// Resolves an explicit commit identity into a selector against the
    /// current plan. Fails exactly when no pick of the plan carries the
    /// identity.
    pub fn select_commit(&self, id: &Oid) -> (r: Result<TargetSelector, Error>)
        ensures
            r is Ok ==> find_pick(self.plan_spec(), id@, 0) == Some(r->Ok_0.index as int),
            r is Err ==> r->Err_0 is AnchorNotFound && find_pick(
                self.plan_spec(),
                id@,
                0,
            ) is None,
    {
        let n: usize = self.plan.len();
        let mut i: usize = 0;
        while i < n
            invariant
                n == self.plan@.len(),
                i <= n,
                find_pick(self.plan_spec(), id@, 0) == find_pick(self.plan_spec(), id@, i as int),
            decreases n - i,
        {
            let hit: bool = match &self.plan[i].id {
                Some(step_id) => step_id.eq(id),
                None => false,
            };
            assert(self.plan_spec()[i as int] == self.plan@[i as int]@);
            if hit {
                assert(self.plan_spec()[i as int].id == Some(id@));
                return Ok(TargetSelector { index: i });
            }
            assert(self.plan_spec()[i as int].id != Some(id@));
            i = i + 1;
        }
        Err(Error::AnchorNotFound(RelativeTo::Commit(id.dup())))
    }

    /// Resolves a reference name into a selector against the current plan:
    /// the first reference of the graph carrying the name gives the target
    /// identity, which must be a pick of the plan. Fails exactly when the
    /// name does not resolve or its target is not in the plan.
    pub fn select_reference(&self, name: &Vec<u8>) -> (r: Result<TargetSelector, Error>)
        ensures
            r is Ok ==> ref_lookup(self.graph.refs@, name@, 0) is Some && find_pick(
                self.plan_spec(),
                ref_lookup(self.graph.refs@, name@, 0)->Some_0,
                0,
            ) == Some(r->Ok_0.index as int),
            r is Err ==> r->Err_0 is AnchorNotFound && (ref_lookup(
                self.graph.refs@,
                name@,
                0,
            ) is None || find_pick(
                self.plan_spec(),
                ref_lookup(self.graph.refs@, name@, 0)->Some_0,
                0,
            ) is None),
    {
        let n: usize = self.graph.refs.len();
        let mut i: usize = 0;
        while i < n
            invariant
                n == self.graph.refs@.len(),
                i <= n,
                ref_lookup(self.graph.refs@, name@, 0) == ref_lookup(
                    self.graph.refs@,
                    name@,
                    i as int,
                ),
            decreases n - i,
        {
            if bytes_eq(&self.graph.refs[i].name, name) {
                assert(ref_lookup(self.graph.refs@, name@, i as int) == Some(
                    self.graph.refs@[i as int].target@,
                ));
                return self.select_commit(&self.graph.refs[i].target);
            }
            i = i + 1;
        }
        Err(Error::AnchorNotFound(RelativeTo::Reference(name.clone())))
    }

    /// Splices a newly authored commit into the plan immediately before or
    /// after the anchored step. Purely structural: no identity is recomputed
    /// here; that is deferred to the rebase executor.
    ///
    /// The selector must come from anchor resolution against this same
    /// session's current plan, and the commit must be newly authored: no
    /// identity, no parents of its own yet.
    #[verifier::rlimit(80)]
    pub fn insert(&mut self, sel: &TargetSelector, data: CommitData, side: InsertSide)
        requires
            old(self).wf(),
            sel.index < old(self).plan_spec().len(),
            old(self).plan_spec()[sel.index as int].id is Some,
            data@.parents.len() == 0,
        ensures
            final(self).graph == old(self).graph,
            final(self).plan_spec() == insert_plan(
                old(self).plan_spec(),
                sel.index as int,
                data@,
                side,
            ),
            final(self).wf(),
    {
        let ghost plan0 = old(self).plan_spec();
        let n: usize = self.plan.len();
        assert(sel.index < n);
        let pos: usize = match side {
            InsertSide::After => sel.index + 1,
            InsertSide::Before => sel.index,
        };
        let step_data: CommitData = if matches!(side, InsertSide::Before) && sel.index == 0 {
            let mut d = data;
            d.parents = dup_oids(&self.plan[0].data.parents);
            proof {
                assert(d@.parents =~= plan0[0].data.parents);
                assert(d@ =~= insert_plan(plan0, sel.index as int, data@, side)[0].data);
            }
            d
        } else {
            data
        };
        self.plan.insert(pos, PlanStep { id: None, data: step_data });
        proof {
            assert(self.plan_spec() =~= insert_plan(plan0, sel.index as int, data@, side));
            let plan1 = self.plan_spec();
            let p = if side is After {
                sel.index + 1
            } else {
                sel.index as int
            };
            assert forall|i: int|
                0 <= i < plan1.len() implies (#[trigger] plan1[i]).wf() by {
                if i < p {
                    assert(plan1[i] == plan0[i]);
                } else if i > p {
                    assert(plan1[i] == plan0[i - 1]);
                } else {
                    if side is Before && sel.index == 0 {
                        assert(plan0[0].wf());
                    }
                }
            }
            assert forall|i: int, j: int|
                0 <= i < j < plan1.len() && plan1[i].id is Some
                    && plan1[j].id is Some implies plan1[i].id->Some_0
                != plan1[j].id->Some_0 by {
                let i0 = if i < p {
                    i
                } else {
                    i - 1
                };
                let j0 = if j < p {
                    j
                } else {
                    j - 1
                };
                assert(i != p && j != p);
                assert(plan1[i] == plan0[i0] && plan1[j] == plan0[j0]);
            }
            assert forall|i: int|
                1 <= i < plan1.len() && (#[trigger] plan1[i]).id is Some && plan1[i - 1].id
                    is Some implies plan1[i].data.parents.len() >= 1 && plan1[i].data.parents[0]
                == plan1[i - 1].id->Some_0 by {
                assert(i != p && i - 1 != p);
                assert(plan1[i] == plan0[i - 1] ==> i - 1 >= p);
                if i < p {
                    assert(plan1[i] == plan0[i] && plan1[i - 1] == plan0[i - 1]);
                } else {
                    assert(plan1[i] == plan0[i - 1] && plan1[i - 1] == plan0[i - 2]);
                }
            }
        }
    }
}

/// A successful pick lookup lands in range, on a pick carrying the identity.
pub proof fn lemma_find_pick_props(plan: Seq<StepSpec>, id: Seq<u8>, i: int)
    requires
        find_pick(plan, id, i) is Some,
    ensures
        i <= find_pick(plan, id, i)->Some_0 < plan.len(),
        plan[find_pick(plan, id, i)->Some_0].id == Some(id),
    decreases plan.len() - i,
{
    if i < 0 || i >= plan.len() {
    } else if plan[i].id == Some(id) {
    } else {
        lemma_find_pick_props(plan, id, i + 1);
    }
}

/// Byte-string equality.
pub fn bytes_eq(a: &Vec<u8>, b: &Vec<u8>) -> (r: bool)
    ensures
        r == (a@ == b@),
{
    if a.len() != b.len() {
        assert(a@ !~= b@);
        return false;
    }
    let n: usize = a.len();
    let mut i: usize = 0;
    while i < n
        invariant
            n == a@.len() && n == b@.len(),
            i <= n,
            forall|j: int| 0 <= j < i ==> a@[j] == b@[j],
        decreases n - i,
    {
        if a[i] != b[i] {
            return false;
        }
        i = i + 1;
    }
    proof {
        assert(a@ =~= b@);
    }
    true
}

/// Copies of a sequence of identities.
pub fn dup_oids(v: &Vec<Oid>) -> (r: Vec<Oid>)
    ensures
        r@.len() == v@.len(),
        forall|i: int| 0 <= i < v@.len() ==> r@[i]@ == v@[i]@,
        r@.map_values(|p: Oid| p@) == v@.map_values(|p: Oid| p@),
{
    let mut r: Vec<Oid> = Vec::new();
    let n: usize = v.len();
    let mut i: usize = 0;
    while i < n
        invariant
            n == v@.len(),
            r@.len() == i,
            i <= n,
            forall|j: int| 0 <= j < i ==> r@[j]@ == v@[j]@,
        decreases n - i,
    {
        r.push(v[i].dup());
        i = i + 1;
    }
    proof {
        assert(r@.map_values(|p: Oid| p@) =~= v@.map_values(|p: Oid| p@));
    }
    r
}

impl Graph {
    /// Opens an edit session over this graph: a mutable plan that picks every
    /// node of the span in order.
    pub fn to_editor(&self) -> (r: Editor<'_>)
        requires
            self.wf(),
        ensures
            r.graph == self,
            r.wf(),
            r.plan_spec().len() == self.nodes@.len(),
            forall|i: int|
                0 <= i < self.nodes@.len() ==> (#[trigger] r.plan_spec()[i]).id == Some(
                    self.nodes@[i].id@,
                ) && r.plan_spec()[i].data == self.nodes@[i].data@,
    {
        let mut plan: Vec<PlanStep> = Vec::new();
        let n: usize = self.nodes.len();
        let mut i: usize = 0;
        while i < n
            invariant
                n == self.nodes@.len(),
                plan@.len() == i,
                i <= n,
                self.wf(),
                forall|j: int|
                    0 <= j < i ==> (#[trigger] plan@[j]@).id == Some(self.nodes@[j].id@)
                        && plan@[j]@.data == self.nodes@[j].data@,
            decreases n - i,
        {
            let node = &self.nodes[i];
            plan.push(PlanStep { id: Some(node.id.dup()), data: node.data.dup() });
            i = i + 1;
        }
        let r = Editor { graph: self, plan };
        proof {
            assert forall|k: int|
                0 <= k < r.plan_spec().len() implies (#[trigger] r.plan_spec()[k]).wf() by {
                assert(r.plan_spec()[k] == r.plan@[k]@);
                assert(self.nodes@[k].id@.len() == ID_LEN && self.nodes@[k].data@.wf());
            }
            assert forall|i1: int, j1: int|
                0 <= i1 < j1 < r.plan_spec().len() && r.plan_spec()[i1].id is Some
                    && r.plan_spec()[j1].id is Some implies r.plan_spec()[i1].id->Some_0
                != r.plan_spec()[j1].id->Some_0 by {
                assert(self.nodes@[i1].id@ != self.nodes@[j1].id@);
            }
            assert forall|k: int|
                1 <= k < r.plan_spec().len() && (#[trigger] r.plan_spec()[k]).id is Some
                    && r.plan_spec()[k - 1].id is Some implies r.plan_spec()[k].data.parents.len()
                >= 1 && r.plan_spec()[k].data.parents[0] == r.plan_spec()[k - 1].id->Some_0 by {
                assert(self.nodes@[k].data@.parents.len() >= 1 && self.nodes@[k].data@.parents[0]
                    == self.nodes@[k - 1].id@);
            }
        }
        r
    }
}

} // verus!
