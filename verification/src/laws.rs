//! The global guarantees of the editor, stated and proved over the same
//! specifications its functions are contracted with.

use vstd::prelude::*;
use crate::codec::empty_tree_bytes;
use crate::editor::insert_plan;
use crate::editor::InsertSide;
use crate::editor::StepSpec;
use crate::commit::CommitSpec;
use crate::rebase::changed_ids_upto;
use crate::rebase::mapping_entries;
use crate::rebase::result_id;
use crate::rebase::rewritten_data;
use crate::rebase::step_changed;
use crate::rebase::RwStepSpec;
use crate::store::changed_result_ids;
use crate::store::written_upto;

verus! {

/// A rebase outcome that matches a plan writes exactly the plan's re-encoded
/// identities: step for step, the written set and the plan's changed set
/// agree.
pub proof fn lemma_written_is_changed(steps: Seq<RwStepSpec>, plan: Seq<StepSpec>, upto: int)
    requires
        steps.len() == plan.len(),
        forall|i: int| 0 <= i < plan.len() ==> (#[trigger] steps[i]).changed == step_changed(plan, i),
        forall|i: int| 0 <= i < plan.len() ==> (#[trigger] steps[i]).id == result_id(plan, i),
    ensures
        written_upto(steps, upto) == changed_ids_upto(plan, upto),
        upto == steps.len() ==> changed_result_ids(steps) =~= changed_ids_upto(plan, upto),
    decreases upto,
{
    if upto <= 0 || upto > steps.len() {
    } else {
        lemma_written_is_changed(steps, plan, upto - 1);
    }
    if upto == steps.len() {
        crate::store::lemma_written_upto_subset(steps, upto);
    }
}

/// Identity propagation: after splicing a single newly authored step into a
/// plan of picks, exactly the new step and every step after it — the
/// descendants of the insertion point within the span — are recomputed; no
/// step before the insertion point changes. The mapping therefore holds
/// exactly the picks at and after the insertion point.
pub proof fn lemma_identity_propagation(plan: Seq<StepSpec>, new_pos: int)
    requires
        0 <= new_pos < plan.len(),
        plan[new_pos].id is None,
        forall|k: int| 0 <= k < plan.len() && k != new_pos ==> (#[trigger] plan[k]).id is Some,
    ensures
        forall|i: int|
            0 <= i < plan.len() ==> (#[trigger] step_changed(plan, i) <==> new_pos <= i),
{
    assert forall|i: int|
        0 <= i < plan.len() implies (#[trigger] step_changed(plan, i) <==> new_pos <= i) by {
        lemma_propagation_at(plan, new_pos, i);
    }
}

/// The step at `i` is recomputed exactly when it stands at or after the
/// single newly authored step.
pub proof fn lemma_propagation_at(plan: Seq<StepSpec>, new_pos: int, i: int)
    requires
        0 <= new_pos < plan.len(),
        plan[new_pos].id is None,
        forall|k: int| 0 <= k < plan.len() && k != new_pos ==> (#[trigger] plan[k]).id is Some,
        0 <= i < plan.len(),
    ensures
        step_changed(plan, i) <==> new_pos <= i,
    decreases i,
{
    if i > 0 {
        lemma_propagation_at(plan, new_pos, i - 1);
    }
}

/// The set of original identities that the mapping of the first `upto` steps
/// carries as keys.
pub open spec fn mapping_keys_upto(plan: Seq<StepSpec>, upto: int) -> Set<Seq<u8>> {
    Set::new(
        |k: Seq<u8>|
            exists|i: int|
                0 <= i < upto && (#[trigger] plan[i]).id == Some(k) && step_changed(plan, i),
    )
}

/// Mapping completeness: the keys of the accumulated mapping are exactly the
/// original identities of the picks whose parent linkage changed — no
/// untouched or newly authored step contributes an entry.
pub proof fn lemma_mapping_completeness(plan: Seq<StepSpec>, upto: int)
    requires
        0 <= upto <= plan.len(),
    ensures
        forall|k: Seq<u8>|
            (exists|j: int|
                0 <= j < mapping_entries(plan, upto).len() && (#[trigger] mapping_entries(
                    plan,
                    upto,
                )[j]).0 == k) <==> mapping_keys_upto(plan, upto).contains(k),
    decreases upto,
{
    if upto <= 0 {
    } else {
        lemma_mapping_completeness(plan, upto - 1);
        let prev = mapping_entries(plan, upto - 1);
        let cur = mapping_entries(plan, upto);
        assert forall|k: Seq<u8>|
            (exists|j: int| 0 <= j < cur.len() && (#[trigger] cur[j]).0 == k) implies
            mapping_keys_upto(plan, upto).contains(k) by {
            let j = choose|j: int| 0 <= j < cur.len() && (#[trigger] cur[j]).0 == k;
            if plan[upto - 1].id is Some && step_changed(plan, upto - 1) {
                if j < prev.len() {
                    assert(cur[j] == prev[j]);
                    assert(mapping_keys_upto(plan, upto - 1).contains(k));
                    let i = choose|i: int|
                        0 <= i < upto - 1 && (#[trigger] plan[i]).id == Some(k) && step_changed(
                            plan,
                            i,
                        );
                    assert(plan[i].id == Some(k) && step_changed(plan, i) && 0 <= i < upto);
                } else {
                    assert(plan[upto - 1].id == Some(k) && step_changed(plan, upto - 1));
                }
            } else {
                assert(cur == prev);
                assert(mapping_keys_upto(plan, upto - 1).contains(k));
                let i = choose|i: int|
                    0 <= i < upto - 1 && (#[trigger] plan[i]).id == Some(k) && step_changed(
                        plan,
                        i,
                    );
                assert(plan[i].id == Some(k) && step_changed(plan, i) && 0 <= i < upto);
            }
        }
        assert forall|k: Seq<u8>| mapping_keys_upto(plan, upto).contains(k) implies (exists|j: int|
            0 <= j < cur.len() && (#[trigger] cur[j]).0 == k) by {
            let i = choose|i: int|
                0 <= i < upto && (#[trigger] plan[i]).id == Some(k) && step_changed(plan, i);
            if i < upto - 1 {
                assert(mapping_keys_upto(plan, upto - 1).contains(k));
                let j = choose|j: int| 0 <= j < prev.len() && (#[trigger] prev[j]).0 == k;
                if plan[upto - 1].id is Some && step_changed(plan, upto - 1) {
                    assert(cur[j] == prev[j]);
                } else {
                    assert(cur == prev);
                }
                assert(cur[j].0 == k);
            } else {
                assert(plan[upto - 1].id is Some && step_changed(plan, upto - 1));
                assert(cur[cur.len() - 1].0 == k);
            }
        }
    }
}

/// Idempotent materialization: the objects a rewritten set makes the store
/// gain are the same however often the set is materialized — writing them a
/// second time adds nothing. The returned mapping is a value of the outcome
/// alone, so a second materialization also returns the same mapping.
pub proof fn lemma_materialize_idempotent(ids0: Set<Seq<u8>>, steps: Seq<RwStepSpec>)
    ensures
        ids0.union(changed_result_ids(steps)).union(changed_result_ids(steps)) =~= ids0.union(
            changed_result_ids(steps),
        ),
{
}

/// Side correctness, after: splicing after the anchor makes the new commit
/// the anchor's sole resulting child within the span — the new step's
/// resulting parent list is exactly the anchor's identity, which the rebase
/// keeps, because nothing at or before the anchor is recomputed.
pub proof fn lemma_side_after(plan: Seq<StepSpec>, at: int, c: CommitSpec)
    requires
        forall|k: int| 0 <= k < plan.len() ==> (#[trigger] plan[k]).id is Some,
        0 <= at < plan.len(),
        c.parents.len() == 0,
    ensures
        rewritten_data(insert_plan(plan, at, c, InsertSide::After), at + 1).parents == seq![
            plan[at].id->Some_0,
        ],
        result_id(insert_plan(plan, at, c, InsertSide::After), at) == plan[at].id->Some_0,
{
    let plan1 = insert_plan(plan, at, c, InsertSide::After);
    assert forall|k: int| 0 <= k < plan1.len() && k != at + 1 implies (#[trigger] plan1[k]).id
        is Some by {
        if k < at + 1 {
            assert(plan1[k] == plan[k]);
        } else {
            assert(plan1[k] == plan[k - 1]);
        }
    }
    lemma_propagation_at(plan1, at + 1, at);
    assert(plan1[at] == plan[at]);
    assert(rewritten_data(plan1, at + 1).parents =~= seq![plan[at].id->Some_0]);
}

/// Side correctness, before: splicing before the anchor makes the anchor the
/// new commit's resulting child — after the rebase, the anchor's first
/// parent is the new commit's resulting identity.
pub proof fn lemma_side_before(plan: Seq<StepSpec>, at: int, c: CommitSpec)
    requires
        forall|k: int| 0 <= k < plan.len() ==> (#[trigger] plan[k]).id is Some,
        0 <= at < plan.len(),
        c.parents.len() == 0,
    ensures
        rewritten_data(insert_plan(plan, at, c, InsertSide::Before), at + 1).parents[0]
            == result_id(insert_plan(plan, at, c, InsertSide::Before), at),
        insert_plan(plan, at, c, InsertSide::Before)[at].id is None,
        insert_plan(plan, at, c, InsertSide::Before)[at + 1] == plan[at],
{
    let plan1 = insert_plan(plan, at, c, InsertSide::Before);
    assert(plan1[at + 1] == plan[at]);
    assert(step_changed(plan1, at));
    assert(step_changed(plan1, at + 1));
}

/// Empty diff: the blank commit introduces no content change. Spliced after
/// or between steps, its resulting tree is its resulting parent's tree;
/// authored as a new root of a span without outside parents, it points at
/// the empty tree.
pub proof fn lemma_empty_diff(plan: Seq<StepSpec>, at: int, c: CommitSpec, side: InsertSide)
    requires
        forall|k: int| 0 <= k < plan.len() ==> (#[trigger] plan[k]).id is Some,
        0 <= at < plan.len(),
        c.parents.len() == 0,
    ensures
        (if side is After {
            at + 1
        } else {
            at
        }) > 0 ==> rewritten_data(
            insert_plan(plan, at, c, side),
            if side is After {
                at + 1
            } else {
                at
            },
        ).tree == insert_plan(plan, at, c, side)[(if side is After {
            at + 1
        } else {
            at
        }) - 1].data.tree,
        side is Before && at == 0 && plan[0].data.parents.len() == 0 ==> rewritten_data(
            insert_plan(plan, at, c, side),
            0,
        ).tree == empty_tree_bytes(),
{
}

} // verus!
