//! The rebase executor: replays the edited plan in parent-before-child order
//! and recomputes the identity of every step whose parent linkage changed,
//! producing the rewritten steps and the complete old-to-new identity mapping.

use vstd::prelude::*;
use crate::codec::bytes_hashable;
use crate::codec::commit_encodable;
use crate::codec::commit_encoding_of;
use crate::codec::commit_identity;
use crate::codec::empty_tree_bytes;
use crate::codec::empty_tree_oid;
use crate::codec::encode_commit;
use crate::codec::hash_commit_bytes;
use crate::codec::object_hash_of;
use crate::commit::CommitData;
use crate::commit::CommitSpec;
use crate::editor::dup_oids;
use crate::editor::Editor;
use crate::editor::StepSpec;
use crate::errors::Error;
use crate::id::Oid;
use crate::id::ID_LEN;

verus! {

/// Whether the step at `i` must be re-encoded: it carries a newly authored
/// commit, or its resulting parent does. Identity change is monotonic and
/// propagates forward through the plan, never backward.
pub open spec fn step_changed(plan: Seq<StepSpec>, i: int) -> bool
    decreases i,
{
    if i < 0 || i >= plan.len() {
        false
    } else if plan[i].id is None {
        true
    } else if i > 0 {
        step_changed(plan, i - 1)
    } else {
        false
    }
}

/// The parent identities a re-encoded step receives: its first parent becomes
/// `prev`, the resulting identity of the step before it; parents beyond the
/// first (they lie outside the span) are kept.
pub open spec fn rewritten_parents_with(data: CommitSpec, prev: Seq<u8>) -> Seq<Seq<u8>> {
    if data.parents.len() >= 1 {
        seq![prev] + data.parents.skip(1)
    } else {
        seq![prev]
    }
}

/// The commit value the step at `i` is re-encoded with, given the resulting
/// identity `prev` of the step before it.
///
/// The first step's parents lie outside the span and are kept. A newly
/// authored step receives its tree from its resulting parent: the step before
/// it, or, for a new root, the empty tree. All other fields are unchanged.
pub open spec fn rewritten_data_with(plan: Seq<StepSpec>, i: int, prev: Seq<u8>) -> CommitSpec {
    let d = plan[i].data;
    CommitSpec {
        tree: if plan[i].id is Some {
            d.tree
        } else if i > 0 {
            plan[i - 1].data.tree
        } else {
            empty_tree_bytes()
        },
        parents: if i == 0 {
            d.parents
        } else {
            rewritten_parents_with(d, prev)
        },
        author: d.author,
        committer: d.committer,
        message: d.message,
    }
}

/// The resulting identity of the step at `i`: its original identity if
/// nothing changed, else the identity of its re-encoded commit value.
pub open spec fn result_id(plan: Seq<StepSpec>, i: int) -> Seq<u8>
    decreases i,
{
    if i < 0 || i >= plan.len() {
        Seq::empty()
    } else if !step_changed(plan, i) {
        plan[i].id->Some_0
    } else {
        let prev = if i > 0 {
            result_id(plan, i - 1)
        } else {
            Seq::empty()
        };
        commit_identity(rewritten_data_with(plan, i, prev))
    }
}

/// The commit value the step at `i` is re-encoded with.
pub open spec fn rewritten_data(plan: Seq<StepSpec>, i: int) -> CommitSpec {
    rewritten_data_with(
        plan,
        i,
        if i > 0 {
            result_id(plan, i - 1)
        } else {
            Seq::empty()
        },
    )
}

/// Whether every re-encoded step of the plan can be serialized and its
/// encoding hashed: the condition under which the executor succeeds.
pub open spec fn plan_encodable(plan: Seq<StepSpec>) -> bool {
    forall|i: int|
        0 <= i < plan.len() && #[trigger] step_changed(plan, i) ==> commit_encodable(
            rewritten_data(plan, i),
        ) && bytes_hashable(commit_encoding_of(rewritten_data(plan, i)))
}

/// Whether every newly authored step's tree is determined by the plan: a new
/// step standing at the root may not carry parents from outside the span,
/// because its tree would be theirs and the span does not hold it.
pub open spec fn trees_determined(plan: Seq<StepSpec>) -> bool {
    (plan.len() > 0 && plan[0].id is None) ==> plan[0].data.parents.len() == 0
}

/// The old-to-new identity mapping accumulated over the first `upto` steps:
/// one entry for every pick whose identity was recomputed. Newly authored
/// steps have no original identity and contribute no entry.
pub open spec fn mapping_entries(plan: Seq<StepSpec>, upto: int) -> Seq<(Seq<u8>, Seq<u8>)>
    decreases upto,
{
    if upto <= 0 || upto > plan.len() {
        Seq::empty()
    } else {
        let rest = mapping_entries(plan, upto - 1);
        if plan[upto - 1].id is Some && step_changed(plan, upto - 1) {
            rest.push((plan[upto - 1].id->Some_0, result_id(plan, upto - 1)))
        } else {
            rest
        }
    }
}

/// The resulting identities of the re-encoded steps among the first `upto`:
/// the set of objects a materialization of the outcome writes.
pub open spec fn changed_ids_upto(plan: Seq<StepSpec>, upto: int) -> Set<Seq<u8>>
    decreases upto,
{
    if upto <= 0 || upto > plan.len() {
        Set::empty()
    } else {
        let rest = changed_ids_upto(plan, upto - 1);
        if step_changed(plan, upto - 1) {
            rest.insert(result_id(plan, upto - 1))
        } else {
            rest
        }
    }
}

/// One step of the rewritten plan.
#[derive(Clone, Debug)]
pub struct RewrittenStep {
    /// The step's original identity; `None` for a newly authored step.
    pub original_id: Option<Oid>,
    /// The step's resulting identity.
    pub id: Oid,
    /// The re-encoded bytes, for re-encoded steps; empty for untouched steps,
    /// which stay byte-identical in the store and are never rewritten.
    pub encoding: Vec<u8>,
    /// Whether the step was re-encoded.
    pub changed: bool,
}

/// The mathematical value of a [`RewrittenStep`].
pub ghost struct RwStepSpec {
    pub original_id: Option<Seq<u8>>,
    pub id: Seq<u8>,
    pub encoding: Seq<u8>,
    pub changed: bool,
}

impl View for RewrittenStep {
    type V = RwStepSpec;

    open spec fn view(&self) -> RwStepSpec {
        RwStepSpec {
            original_id: if self.original_id is Some {
                Some(self.original_id->Some_0@)
            } else {
                None
            },
            id: self.id@,
            encoding: self.encoding@,
            changed: self.changed,
        }
    }
}

/// The first value mapped from `key`, scanning the entries from position `i`.
pub open spec fn mapping_lookup(
    entries: Seq<(Seq<u8>, Seq<u8>)>,
    key: Seq<u8>,
    i: int,
) -> Option<Seq<u8>>
    decreases entries.len() - i,
{
    if i < 0 || i >= entries.len() {
        None
    } else if entries[i].0 == key {
        Some(entries[i].1)
    } else {
        mapping_lookup(entries, key, i + 1)
    }
}

/// The complete mapping from every original commit identity that changed to
/// its rewritten identity. Keys are unique; created once per rebase execution
/// and immutable afterwards.
#[derive(Clone, Debug)]
pub struct CommitMapping {
    pub entries: Vec<(Oid, Oid)>,
}

impl View for CommitMapping {
    type V = Seq<(Seq<u8>, Seq<u8>)>;

    open spec fn view(&self) -> Seq<(Seq<u8>, Seq<u8>)> {
        self.entries@.map_values(|p: (Oid, Oid)| (p.0@, p.1@))
    }
}

impl CommitMapping {
    /// The number of entries.
    pub fn len(&self) -> (r: usize)
        ensures
            r == self@.len(),
    {
        self.entries.len()
    }

    /// The rewritten identity recorded for an original identity, if any.
    pub fn lookup(&self, key: &Oid) -> (r: Option<&Oid>)
        ensures
            match r {
                Some(v) => mapping_lookup(self@, key@, 0) == Some(v@),
                None => mapping_lookup(self@, key@, 0) is None,
            },
    {
        let n: usize = self.entries.len();
        let mut i: usize = 0;
        while i < n
            invariant
                n == self.entries@.len(),
                i <= n,
                mapping_lookup(self@, key@, 0) == mapping_lookup(self@, key@, i as int),
            decreases n - i,
        {
            if self.entries[i].0.eq(key) {
                assert(self@[i as int] == (self.entries@[i as int].0@, self.entries@[i as int].1@));
                return Some(&self.entries[i].1);
            }
            assert(self@[i as int] == (self.entries@[i as int].0@, self.entries@[i as int].1@));
            i = i + 1;
        }
        None
    }

    /// A copy of the mapping.
    pub fn dup(&self) -> (r: CommitMapping)
        ensures
            r@ == self@,
    {
        let mut entries: Vec<(Oid, Oid)> = Vec::new();
        let n: usize = self.entries.len();
        let mut i: usize = 0;
        while i < n
            invariant
                n == self.entries@.len(),
                entries@.len() == i,
                i <= n,
                forall|j: int|
                    0 <= j < i ==> (#[trigger] entries@[j]).0@ == self.entries@[j].0@
                        && entries@[j].1@ == self.entries@[j].1@,
            decreases n - i,
        {
            entries.push((self.entries[i].0.dup(), self.entries[i].1.dup()));
            i = i + 1;
        }
        let r = CommitMapping { entries };
        proof {
            assert(r@ =~= self@);
        }
        r
    }
}

/// The in-memory result of replaying the edited plan: the rewritten steps in
/// parent-before-child order, and the complete identity mapping. Nothing has
/// been durably written yet.
pub struct RebaseOutcome {
    pub steps: Vec<RewrittenStep>,
    pub mapping: CommitMapping,
}

impl RebaseOutcome {
    /// The mathematical value of the rewritten steps.
    pub open spec fn steps_spec(self) -> Seq<RwStepSpec> {
        self.steps@.map_values(|s: RewrittenStep| s@)
    }

    /// Every re-encoded step's identity is the hash of its encoding, so
    /// materialization writes exactly the bytes each identity names.
    pub open spec fn wf(self) -> bool {
        forall|i: int|
            0 <= i < self.steps_spec().len() && (#[trigger] self.steps_spec()[i]).changed
                ==> self.steps_spec()[i].id == object_hash_of(self.steps_spec()[i].encoding)
                    && self.steps_spec()[i].id.len() == ID_LEN
    }

    /// How a rebase outcome reflects a plan: one rewritten step per plan
    /// step, carrying the plan's original identities, the recomputed
    /// identities and encodings, and the accumulated mapping.
    pub open spec fn matches_plan(self, plan: Seq<StepSpec>) -> bool {
        &&& self.steps_spec().len() == plan.len()
        &&& forall|i: int|
            0 <= i < plan.len() ==> (#[trigger] self.steps_spec()[i]).changed == step_changed(
                plan,
                i,
            )
        &&& forall|i: int|
            0 <= i < plan.len() ==> (#[trigger] self.steps_spec()[i]).id == result_id(plan, i)
        &&& forall|i: int|
            0 <= i < plan.len() ==> (#[trigger] self.steps_spec()[i]).original_id == plan[i].id
        &&& forall|i: int|
            0 <= i < plan.len() && step_changed(plan, i)
                ==> (#[trigger] self.steps_spec()[i]).encoding
                == commit_encoding_of(rewritten_data(plan, i))
        &&& self.mapping@ == mapping_entries(plan, plan.len() as int)
    }
}

impl<'g> Editor<'g> {
    /// Replays the edited plan: walks it in parent-before-child order and,
    /// for every step whose resulting parent identity differs from its
    /// original one — every newly authored step, and transitively every step
    /// after one — re-encodes the commit with the new linkage, all other
    /// fields unchanged, and recomputes its identity. Steps before the first
    /// change are left byte-identical and are not re-encoded.
    ///
    /// Fails atomically with [`Error::EncodingError`] exactly when some
    /// re-encoded step cannot be serialized or hashed, or a newly authored
    /// root step's tree is undetermined; the error carries the failing
    /// step's original identity, where it had one, and nothing has been
    /// written either way. The failure is a function of the plan alone, so
    /// replaying the same plan fails identically.
    #[verifier::loop_isolation(false)]
    #[verifier::rlimit(100)]
    pub fn rebase(&self) -> (r: Result<RebaseOutcome, Error>)
        requires
            self.wf(),
        ensures
            r is Ok <==> trees_determined(self.plan_spec()) && plan_encodable(self.plan_spec()),
            r is Ok ==> r->Ok_0.matches_plan(self.plan_spec()) && r->Ok_0.wf(),
            r is Err ==> r->Err_0 is EncodingError,
    {
        let ghost plan = self.plan_spec();
        let n: usize = self.plan.len();
        let mut steps: Vec<RewrittenStep> = Vec::new();
        let mut entries: Vec<(Oid, Oid)> = Vec::new();
        let mut prev_changed: bool = false;
        let mut prev_id: Oid = Oid::from_bytes(Vec::new());
        let mut i: usize = 0;
        while i < n
            invariant
                steps@.len() == i,
                i <= n,
                forall|k: int| 0 <= k < i ==> (#[trigger] steps@[k]@).changed == step_changed(plan, k),
                forall|k: int| 0 <= k < i ==> (#[trigger] steps@[k]@).id == result_id(plan, k),
                forall|k: int| 0 <= k < i ==> (#[trigger] steps@[k]@).original_id == plan[k].id,
                forall|k: int|
                    0 <= k < i && step_changed(plan, k) ==> (#[trigger] steps@[k]@).encoding
                        == commit_encoding_of(rewritten_data(plan, k)) && steps@[k]@.id
                        == object_hash_of(steps@[k]@.encoding) && steps@[k]@.id.len() == ID_LEN,
                entries@.map_values(|p: (Oid, Oid)| (p.0@, p.1@)) == mapping_entries(plan, i as int),
                i > 0 ==> prev_changed == step_changed(plan, i - 1) && prev_id@ == result_id(
                    plan,
                    i - 1,
                ),
                i > 0 ==> trees_determined(plan),
                forall|k: int|
                    0 <= k < i && #[trigger] step_changed(plan, k) ==> commit_encodable(
                        rewritten_data(plan, k),
                    ) && bytes_hashable(commit_encoding_of(rewritten_data(plan, k))),
            decreases n - i,
        {
            let step = &self.plan[i];
            proof {
                assert(plan[i as int] == step@);
                assert(plan[i as int].wf());
            }
            let is_new: bool = step.id.is_none();
            let changed: bool = is_new || (i > 0 && prev_changed);
            proof {
                assert(changed == step_changed(plan, i as int));
            }
            if !changed {
                let orig: &Oid = match &step.id {
                    Some(o) => o,
                    None => {
                        proof {
                            assert(false);
                        }
                        unreached()
                    },
                };
                let rw = RewrittenStep {
                    original_id: Some(orig.dup()),
                    id: orig.dup(),
                    encoding: Vec::new(),
                    changed: false,
                };
                proof {
                    assert(rw@.id == result_id(plan, i as int));
                    assert(mapping_entries(plan, i + 1) == mapping_entries(plan, i as int));
                }
                prev_id = orig.dup();
                prev_changed = false;
                steps.push(rw);
            } else {
                let mut parents: Vec<Oid>;
                if i == 0 {
                    parents = dup_oids(&step.data.parents);
                } else {
                    parents = Vec::new();
                    parents.push(prev_id.dup());
                    let np: usize = step.data.parents.len();
                    let mut k: usize = 1;
                    while k < np
                        invariant
                            np == step.data.parents@.len(),
                            1 <= k <= np || (np == 0 && k == 1),
                            parents@.len() == if k <= np {
                                k as int
                            } else {
                                1int
                            },
                            parents@[0]@ == prev_id@,
                            forall|j: int| 1 <= j < k ==> (#[trigger] parents@[j])@ == step.data.parents@[j]@,
                        decreases np - k,
                    {
                        parents.push(step.data.parents[k].dup());
                        k = k + 1;
                    }
                }
                let tree: Oid = if step.id.is_some() {
                    step.data.tree.dup()
                } else if i > 0 {
                    self.plan[i - 1].data.tree.dup()
                } else if step.data.parents.len() == 0 {
                    empty_tree_oid()
                } else {
                    proof {
                        assert(!trees_determined(plan));
                    }
                    return Err(Error::EncodingError(None));
                };
                let rw_data = CommitData {
                    tree,
                    parents,
                    author: step.data.author.dup(),
                    committer: step.data.committer.dup(),
                    message: step.data.message.clone(),
                };
                proof {
                    assert(rw_data@.message =~= step.data@.message);
                    if i == 0 {
                        assert(rw_data@.parents =~= rewritten_data(plan, i as int).parents);
                    } else {
                        let want = rewritten_parents_with(plan[i as int].data, prev_id@);
                        assert(rw_data@.parents =~= want);
                    }
                    assert(rw_data@ =~= rewritten_data(plan, i as int));
                }
                let failed_id: Option<Oid> = match &step.id {
                    Some(o) => Some(o.dup()),
                    None => None,
                };
                let enc: Vec<u8> = match encode_commit(&rw_data) {
                    Ok(enc) => enc,
                    Err(()) => {
                        proof {
                            assert(!commit_encodable(rewritten_data(plan, i as int)));
                            assert(!plan_encodable(plan));
                        }
                        return Err(Error::EncodingError(failed_id));
                    },
                };
                let id: Oid = match hash_commit_bytes(&enc) {
                    Ok(id) => id,
                    Err(()) => {
                        proof {
                            assert(!bytes_hashable(commit_encoding_of(rewritten_data(plan, i as int))));
                            assert(!plan_encodable(plan));
                        }
                        return Err(Error::EncodingError(failed_id));
                    },
                };
                proof {
                    assert(id@ == result_id(plan, i as int));
                }
                let original_id: Option<Oid> = match &step.id {
                    Some(o) => {
                        entries.push((o.dup(), id.dup()));
                        Some(o.dup())
                    },
                    None => None,
                };
                proof {
                    assert(entries@.map_values(|p: (Oid, Oid)| (p.0@, p.1@)) =~= mapping_entries(
                        plan,
                        i + 1,
                    ));
                }
                let rw = RewrittenStep { original_id, id: id.dup(), encoding: enc, changed: true };
                prev_id = id;
                prev_changed = true;
                steps.push(rw);
            }
            i = i + 1;
        }
        let outcome = RebaseOutcome { steps, mapping: CommitMapping { entries } };
        proof {
            if n == 0 {
                assert(trees_determined(plan));
            } else {
                assert(steps@[0]@.changed == step_changed(plan, 0));
                if plan[0].id is None {
                    assert(trees_determined(plan));
                }
            }
            assert(outcome.matches_plan(plan));
            assert(outcome.wf());
            assert(plan_encodable(plan));
        }
        Ok(outcome)
    }
}

} // verus!
