//! A read-only slice of a commit graph: the linear span that an edit session
//! operates on, with the references bound to its nodes.

use vstd::prelude::*;
use crate::id::Oid;
use crate::id::ID_LEN;
use crate::commit::CommitData;

verus! {

/// One node of the graph: a commit identity together with its content.
#[derive(Clone, Debug)]
pub struct GraphNode {
    /// The commit's identity in the object store.
    pub id: Oid,
    /// The commit's fields, as stored.
    pub data: CommitData,
}

/// A named, mutable pointer to a single commit identity.
#[derive(Clone, Debug)]
pub struct GraphRef {
    /// The full reference name, as raw bytes.
    pub name: Vec<u8>,
    /// The identity the reference points at.
    pub target: Oid,
}

/// An in-memory, read-only representation of a commit history slice.
///
/// `nodes` is ordered parent-before-child and describes one linear span:
/// every node after the first has the previous node as its sole or first
/// parent. The first node's parents, if any, lie outside the span and are
/// never touched. `refs` are the named references bound to nodes of the span.
#[derive(Clone, Debug)]
pub struct Graph {
    pub nodes: Vec<GraphNode>,
    pub refs: Vec<GraphRef>,
}

/// Decides whether a commit value is well formed.
pub fn commit_data_ok(data: &CommitData) -> (r: bool)
    ensures
        r == data@.wf(),
{
    if data.tree.as_bytes().len() != ID_LEN {
        assert(!data@.wf());
        return false;
    }
    let np: usize = data.parents.len();
    let mut j: usize = 0;
    while j < np
        invariant
            np == data.parents@.len(),
            j <= np,
            forall|k: int| 0 <= k < j ==> (#[trigger] data@.parents[k]).len() == ID_LEN,
        decreases np - j,
    {
        assert(data@.parents[j as int] == data.parents@[j as int]@);
        if data.parents[j].as_bytes().len() != ID_LEN {
            assert(!data@.wf());
            return false;
        }
        j = j + 1;
    }
    assert(data@.parents.len() == np);
    assert(data@.wf());
    true
}

impl Graph {
    /// The sequence of node identities, root first.
    pub open spec fn ids(self) -> Seq<Seq<u8>> {
        self.nodes@.map_values(|n: GraphNode| n.id@)
    }

    /// The graph invariant: well-formed identities and commit values, no two
    /// nodes sharing an identity, and a linear span in which every node after
    /// the first carries the previous node as its first parent.
    pub open spec fn wf(self) -> bool {
        &&& forall|i: int|
            0 <= i < self.nodes@.len() ==> (#[trigger] self.nodes@[i]).id@.len() == ID_LEN
                && self.nodes@[i].data@.wf()
        &&& forall|i: int, j: int|
            0 <= i < j < self.nodes@.len() ==> self.nodes@[i].id@ != self.nodes@[j].id@
        &&& forall|i: int|
            1 <= i < self.nodes@.len() ==> (#[trigger] self.nodes@[i]).data@.parents.len() >= 1
                && self.nodes@[i].data@.parents[0] == self.nodes@[i - 1].id@
    }

    /// Decides the graph invariant, so that unverified callers can establish
    /// it before opening an edit session.
    pub fn check_wf(&self) -> (r: bool)
        ensures
            r == self.wf(),
    {
        let n: usize = self.nodes.len();
        let mut i: usize = 0;
        while i < n
            invariant
                n == self.nodes@.len(),
                i <= n,
                forall|k: int|
                    0 <= k < i ==> (#[trigger] self.nodes@[k]).id@.len() == ID_LEN
                        && self.nodes@[k].data@.wf(),
                forall|k: int, l: int|
                    0 <= k < l < i ==> self.nodes@[k].id@ != self.nodes@[l].id@,
                forall|k: int|
                    1 <= k < i ==> (#[trigger] self.nodes@[k]).data@.parents.len() >= 1
                        && self.nodes@[k].data@.parents[0] == self.nodes@[k - 1].id@,
            decreases n - i,
        {
            let node = &self.nodes[i];
            if node.id.as_bytes().len() != ID_LEN {
                return false;
            }
            if !commit_data_ok(&node.data) {
                return false;
            }
            let mut j2: usize = 0;
            while j2 < i
                invariant
                    n == self.nodes@.len(),
                    i < n,
                    j2 <= i,
                    forall|l: int| 0 <= l < j2 ==> self.nodes@[l].id@ != self.nodes@[i as int].id@,
                decreases i - j2,
            {
                if self.nodes[j2].id.eq(&self.nodes[i].id) {
                    return false;
                }
                j2 = j2 + 1;
            }
            if i >= 1 {
                if node.data.parents.len() == 0 {
                    return false;
                }
                assert(node.data@.parents[0] == node.data.parents@[0]@);
                if !node.data.parents[0].eq(&self.nodes[i - 1].id) {
                    return false;
                }
            }
            i = i + 1;
        }
        true
    }
}

} // verus!
