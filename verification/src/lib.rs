//! A graph rebase editor for content-addressed commit histories.
//!
//! The editor opens a mutable rebase plan over a read-only slice of a commit
//! graph, resolves an anchor (a commit identity or a named reference), splices
//! a newly authored blank commit into the plan on a chosen side, replays the
//! plan while recomputing the identity of every step whose parent linkage
//! changed, and materializes the rewritten commits into a content-addressed
//! object store together with the complete mapping from every original
//! identity that changed to its rewritten identity.

pub mod id;
pub mod errors;
pub mod codec;
pub mod editor;
pub mod rebase;
pub mod store;
pub mod commit;
pub mod graph;
pub mod laws;

use vstd::prelude::*;
use crate::commit::author_blank_commit;
use crate::commit::blank_commit_spec;
use crate::commit::ActorSpec;
use crate::commit::CommitSpec;
use crate::commit::DateMode;
use crate::editor::find_pick;
use crate::editor::insert_plan;
use crate::editor::lemma_find_pick_props;
use crate::editor::ref_lookup;
use crate::editor::InsertSide;
use crate::editor::StepSpec;
use crate::editor::TargetSelector;
use crate::errors::Error;
use crate::graph::Graph;
use crate::graph::GraphNode;
use crate::id::Oid;
use crate::rebase::changed_ids_upto;
use crate::rebase::mapping_entries;
use crate::rebase::result_id;
use crate::rebase::trees_determined;
use crate::rebase::CommitMapping;
use crate::store::changed_result_ids;
use crate::store::Store;

verus! {

/// Where the blank commit is inserted relative to.
#[derive(Clone, Debug)]
pub enum RelativeTo {
    /// Relative to a commit with this identity.
    Commit(Oid),
    /// Relative to the reference with this full name.
    Reference(Vec<u8>),
}

/// The outcome of the rebase: the inserted commit's identity and the complete
/// mapping from every original identity that changed to its rewritten one.
/// The inserted commit had no original identity, so it appears here as
/// `blank_commit_id`, never as a mapping entry.
#[derive(Clone, Debug)]
pub struct InsertCommitOutcome {
    /// The blank commit that was created.
    pub blank_commit_id: Oid,
    /// Any commits that were mapped.
    pub commit_mapping: CommitMapping,
}

/// The plan a fresh edit session over `g` holds: one pick per node, in order.
pub open spec fn plan_of(g: Graph) -> Seq<StepSpec> {
    g.nodes@.map_values(|n: GraphNode| StepSpec { id: Some(n.id@), data: n.data@ })
}

/// The plan position the selector resolves to: the pick carrying the given
/// identity, or the pick the named reference points at; `None` when the
/// anchor does not resolve into the plan.
pub open spec fn anchor_index(g: Graph, relative_to: RelativeTo) -> Option<int> {
    match relative_to {
        RelativeTo::Commit(id) => find_pick(plan_of(g), id@, 0),
        RelativeTo::Reference(name) => match ref_lookup(g.refs@, name@, 0) {
            Some(target) => find_pick(plan_of(g), target, 0),
            None => None,
        },
    }
}

/// What a successful insertion reports, given the blank commit value `c` that
/// was authored: with `plan1` the plan after splicing `c` at the anchor
/// position `at`, the outcome's identity is the resulting identity of the
/// new step, the mapping holds exactly the recomputed picks, and the store
/// gained exactly the re-encoded commits.
pub open spec fn blank_outcome_at(
    g: Graph,
    side: InsertSide,
    at: int,
    c: CommitSpec,
    o: InsertCommitOutcome,
    ids0: Set<Seq<u8>>,
    ids1: Set<Seq<u8>>,
) -> bool {
    let plan1 = insert_plan(plan_of(g), at, c, side);
    let pos = if side is After {
        at + 1
    } else {
        at
    };
    &&& c.parents.len() == 0
    &&& c.message.len() == 0
    &&& o.blank_commit_id@ == result_id(plan1, pos)
    &&& o.commit_mapping@ == mapping_entries(plan1, plan1.len() as int)
    &&& ids1 == ids0.union(changed_ids_upto(plan1, plan1.len() as int))
}

/// As [`blank_outcome_at`], at the position the anchor selector resolves to.
pub open spec fn blank_insert_outcome(
    g: Graph,
    side: InsertSide,
    relative_to: RelativeTo,
    c: CommitSpec,
    o: InsertCommitOutcome,
    ids0: Set<Seq<u8>>,
    ids1: Set<Seq<u8>>,
) -> bool {
    &&& anchor_index(g, relative_to) is Some
    &&& blank_outcome_at(g, side, anchor_index(g, relative_to)->Some_0, c, o, ids0, ids1)
}

/// Authors the blank commit and carries it through insertion, rebase and
/// materialization, at a resolved anchor position.
#[verifier::rlimit(100)]
fn insert_blank_at(
    graph: &Graph,
    store: &mut Store,
    side: InsertSide,
    at: usize,
) -> (r: Result<InsertCommitOutcome, Error>)
    requires
        graph.wf(),
        at < plan_of(*graph).len(),
        plan_of(*graph)[at as int].id is Some,
    ensures
        r is Err ==> r->Err_0 is EncodingError || r->Err_0 is StorageWriteError,
        r is Err && !(r->Err_0 is StorageWriteError) ==> final(store).ids() == old(
            store,
        ).ids(),
        old(store).ids().subset_of(final(store).ids()),
        side is Before && at == 0 && plan_of(*graph)[0].data.parents.len() > 0 ==> r is Err
            && r->Err_0 is EncodingError,
        r is Ok ==> exists|sig: ActorSpec|
            #[trigger] blank_outcome_at(
                *graph,
                side,
                at as int,
                blank_commit_spec(sig, sig, DateMode::UpdateBoth, sig.time),
                r->Ok_0,
                old(store).ids(),
                final(store).ids(),
            ),
{
    let ghost plan0 = plan_of(*graph);
    let editor = graph.to_editor();
    proof {
        assert(editor.plan_spec() =~= plan0);
    }
    let committer = match store.committer() {
        Some(sig) => sig,
        None => {
            return Err(Error::EncodingError(None));
        },
    };
    let now = committer.time;
    let blank = author_blank_commit(&committer, &committer, DateMode::UpdateBoth, now);
    let ghost c = blank@;
    let sel = TargetSelector { index: at };
    let mut editor = editor;
    editor.insert(&sel, blank, side);
    let ghost plan1 = insert_plan(plan0, at as int, c, side);
    proof {
        assert(editor.plan_spec() == plan1);
    }
    let outcome = match editor.rebase() {
        Ok(outcome) => outcome,
        Err(e) => {
            return Err(e);
        },
    };
    proof {
        if side is Before && at == 0 && plan0[0].data.parents.len() > 0 {
            assert(plan1[0].id is None && plan1[0].data.parents == plan0[0].data.parents);
            assert(!trees_determined(plan1));
            assert(false);
        }
    }
    let pos: usize = match side {
        InsertSide::After => at + 1,
        InsertSide::Before => at,
    };
    proof {
        assert(outcome.steps_spec().len() == plan1.len());
        assert(pos < outcome.steps@.len());
    }
    let blank_commit_id = outcome.steps[pos].id.dup();
    proof {
        assert(outcome.steps_spec()[pos as int] == outcome.steps@[pos as int]@);
        assert(blank_commit_id@ == result_id(plan1, pos as int));
    }
    let commit_mapping = match outcome.materialize(store) {
        Ok(m) => m,
        Err(e) => {
            return Err(e);
        },
    };
    let r = InsertCommitOutcome { blank_commit_id, commit_mapping };
    proof {
        crate::laws::lemma_written_is_changed(outcome.steps_spec(), plan1, plan1.len() as int);
        assert(changed_result_ids(outcome.steps_spec()) =~= changed_ids_upto(
            plan1,
            plan1.len() as int,
        ));
        assert(store.ids() =~= old(store).ids().union(
            changed_ids_upto(plan1, plan1.len() as int),
        ));
        assert(c == blank_commit_spec(committer@, committer@, DateMode::UpdateBoth, committer@.time));
        assert(blank_outcome_at(
            *graph,
            side,
            at as int,
            blank_commit_spec(committer@, committer@, DateMode::UpdateBoth, committer@.time),
            r,
            old(store).ids(),
            store.ids(),
        ));
        assert(exists|sig: ActorSpec|
            #[trigger] blank_outcome_at(
                *graph,
                side,
                at as int,
                blank_commit_spec(sig, sig, DateMode::UpdateBoth, sig.time),
                r,
                old(store).ids(),
                store.ids(),
            ));
    }
    let result: Result<InsertCommitOutcome, Error> = Ok(r);
    proof {
        assert(result->Ok_0 == r);
        assert(exists|sig: ActorSpec|
            #[trigger] blank_outcome_at(
                *graph,
                side,
                at as int,
                blank_commit_spec(sig, sig, DateMode::UpdateBoth, sig.time),
                result->Ok_0,
                old(store).ids(),
                store.ids(),
            ));
    }
    result
}

/// Inserts a blank commit relative to either a reference or a commit.
///
/// Opens an edit session over the graph, resolves the anchor, authors a
/// blank commit under the repository's committer signature with both
/// timestamps updated to the time of creation, splices it in on `side`,
/// replays the plan, and writes the rewritten commits to the store.
///
/// Fails with [`Error::AnchorNotFound`] exactly when the anchor does not
/// resolve; with [`Error::EncodingError`] when no committer is configured, a
/// commit cannot be serialized, or the new commit's tree cannot be determined
/// from the span, in which cases the store is untouched; and with
/// [`Error::StorageWriteError`] when the store rejects a write.
pub fn insert_blank_commit(
    graph: &Graph,
    store: &mut Store,
    side: InsertSide,
    relative_to: RelativeTo,
) -> (r: Result<InsertCommitOutcome, Error>)
    requires
        graph.wf(),
    ensures
        anchor_index(*graph, relative_to) is None <==> (r is Err && r->Err_0
            is AnchorNotFound),
        r is Err && !(r->Err_0 is StorageWriteError) ==> final(store).ids() == old(
            store,
        ).ids(),
        old(store).ids().subset_of(final(store).ids()),
        anchor_index(*graph, relative_to) is Some && side is Before && anchor_index(
            *graph,
            relative_to,
        )->Some_0 == 0 && plan_of(*graph)[0].data.parents.len() > 0 ==> r is Err && r->Err_0
            is EncodingError,
        r is Ok ==> exists|sig: ActorSpec|
            #[trigger] blank_insert_outcome(
                *graph,
                side,
                relative_to,
                blank_commit_spec(sig, sig, DateMode::UpdateBoth, sig.time),
                r->Ok_0,
                old(store).ids(),
                final(store).ids(),
            ),
{
    let editor = graph.to_editor();
    proof {
        assert(editor.plan_spec() =~= plan_of(*graph));
    }
    let sel = match &relative_to {
        RelativeTo::Commit(id) => editor.select_commit(id),
        RelativeTo::Reference(name) => editor.select_reference(name),
    };
    let sel = match sel {
        Ok(sel) => sel,
        Err(e) => {
            proof {
                assert(anchor_index(*graph, relative_to) is None);
            }
            return Err(e);
        },
    };
    let ghost anchor_id = match relative_to {
        RelativeTo::Commit(id) => id@,
        RelativeTo::Reference(name) => ref_lookup(graph.refs@, name@, 0)->Some_0,
    };
    proof {
        assert(anchor_index(*graph, relative_to) == Some(sel.index as int));
        lemma_find_pick_props(plan_of(*graph), anchor_id, 0);
        assert(sel.index < plan_of(*graph).len());
        assert(plan_of(*graph)[sel.index as int].id is Some);
    }
    let r = insert_blank_at(graph, store, side, sel.index);
    proof {
        if r is Ok {
            let sig = choose|sig: ActorSpec|
                blank_outcome_at(
                    *graph,
                    side,
                    sel.index as int,
                    blank_commit_spec(sig, sig, DateMode::UpdateBoth, sig.time),
                    r->Ok_0,
                    old(store).ids(),
                    store.ids(),
                );
            assert(blank_insert_outcome(
                *graph,
                side,
                relative_to,
                blank_commit_spec(sig, sig, DateMode::UpdateBoth, sig.time),
                r->Ok_0,
                old(store).ids(),
                store.ids(),
            ));
        }
    }
    r
}

} // verus!
