//! Commit values: the fields whose encoding a commit identity is a hash of.

use vstd::prelude::*;
use crate::id::Oid;
use crate::id::ID_LEN;

verus! {

/// A timestamp as embedded in a commit signature: seconds since the epoch,
/// plus the timezone offset in seconds.
#[derive(Clone, Copy, Debug, PartialEq, Eq, Structural)]
pub struct Time {
    pub seconds: i64,
    pub offset: i32,
}

/// Who authored or committed a commit, and when.
#[derive(Clone, Debug)]
pub struct Actor {
    pub name: Vec<u8>,
    pub email: Vec<u8>,
    pub time: Time,
}

/// The mathematical value of a [`Actor`].
pub ghost struct ActorSpec {
    pub name: Seq<u8>,
    pub email: Seq<u8>,
    pub time: Time,
}

impl View for Actor {
    type V = ActorSpec;

    open spec fn view(&self) -> ActorSpec {
        ActorSpec { name: self.name@, email: self.email@, time: self.time }
    }
}

impl Actor {
    /// A copy of this signature with the same fields.
    pub fn dup(&self) -> (r: Actor)
        ensures
            r@ == self@,
    {
        let name = self.name.clone();
        let email = self.email.clone();
        proof {
            assert(name@ =~= self.name@);
            assert(email@ =~= self.email@);
        }
        Actor { name, email, time: self.time }
    }
}

/// The date-assignment policy for a newly authored commit.
///
/// The policy is an explicit, named configuration value because it enters the
/// commit's encoded content and therefore its identity.
#[derive(Clone, Copy, Debug, PartialEq, Eq, Structural)]
pub enum DateMode {
    /// Keep both the author and the committer timestamps as authored.
    KeepAsAuthored,
    /// Update both the author and the committer timestamps to the time of
    /// creation.
    UpdateBoth,
}

/// The content of one commit: every field that enters its encoding, and
/// therefore its identity.
#[derive(Clone, Debug)]
pub struct CommitData {
    /// The identity of the tree (content snapshot) this commit points to.
    pub tree: Oid,
    /// The identities of the parent commits; empty for a root commit.
    pub parents: Vec<Oid>,
    pub author: Actor,
    pub committer: Actor,
    /// The commit message, as raw bytes.
    pub message: Vec<u8>,
}

/// The mathematical value of a [`CommitData`].
pub ghost struct CommitSpec {
    pub tree: Seq<u8>,
    pub parents: Seq<Seq<u8>>,
    pub author: ActorSpec,
    pub committer: ActorSpec,
    pub message: Seq<u8>,
}

impl View for CommitData {
    type V = CommitSpec;

    open spec fn view(&self) -> CommitSpec {
        CommitSpec {
            tree: self.tree@,
            parents: self.parents@.map_values(|p: Oid| p@),
            author: self.author@,
            committer: self.committer@,
            message: self.message@,
        }
    }
}

impl CommitSpec {
    /// A commit value is well formed when its tree and parent identities all
    /// have the hash length.
    pub open spec fn wf(self) -> bool {
        &&& self.tree.len() == ID_LEN
        &&& forall|i: int| 0 <= i < self.parents.len() ==> (#[trigger] self.parents[i]).len() == ID_LEN
    }
}

impl CommitData {
    /// A deep copy of this commit value.
    pub fn dup(&self) -> (r: CommitData)
        ensures
            r@ == self@,
    {
        let tree = self.tree.dup();
        let mut parents: Vec<Oid> = Vec::new();
        let n: usize = self.parents.len();
        for i in 0..n
            invariant
                n == self.parents.len(),
                parents@.len() == i,
                forall|j: int| 0 <= j < i ==> parents@[j]@ == self.parents@[j]@,
        {
            parents.push(self.parents[i].dup());
        }
        let message = self.message.clone();
        proof {
            assert(message@ =~= self.message@);
            assert(parents@.map_values(|p: Oid| p@) =~= self.parents@.map_values(|p: Oid| p@));
        }
        let r = CommitData {
            tree,
            parents,
            author: self.author.dup(),
            committer: self.committer.dup(),
            message,
        };
        proof {
            assert(r@ =~= self@);
        }
        r
    }
}

/// The value of a newly authored blank commit, before the rebase executor
/// assigns its parent linkage and tree.
///
/// The commit carries no content of its own: its message is empty, its parent
/// list and tree are placeholders that the executor fills from the insertion
/// point. Under [`DateMode::UpdateBoth`] both timestamps are replaced by
/// `now`; under [`DateMode::KeepAsAuthored`] both are kept as given.
pub open spec fn blank_commit_spec(
    author: ActorSpec,
    committer: ActorSpec,
    mode: DateMode,
    now: Time,
) -> CommitSpec {
    CommitSpec {
        tree: Seq::empty(),
        parents: Seq::empty(),
        author: ActorSpec {
            name: author.name,
            email: author.email,
            time: if mode is UpdateBoth { now } else { author.time },
        },
        committer: ActorSpec {
            name: committer.name,
            email: committer.email,
            time: if mode is UpdateBoth { now } else { committer.time },
        },
        message: Seq::empty(),
    }
}

/// Authors a blank commit: a commit with no tree changes relative to its
/// eventual parent, and no message.
///
/// The tree and parent linkage are left for the rebase executor to assign
/// from the insertion point, so the returned value's tree is an empty
/// placeholder. The date-assignment policy `mode` decides whether the two
/// signatures keep their embedded times or are both updated to `now`.
pub fn author_blank_commit(
    author: &Actor,
    committer: &Actor,
    mode: DateMode,
    now: Time,
) -> (r: CommitData)
    ensures
        r@ == blank_commit_spec(author@, committer@, mode, now),
{
    let author_time: Time = if matches!(mode, DateMode::UpdateBoth) { now } else { author.time };
    let committer_time: Time = if matches!(mode, DateMode::UpdateBoth) { now } else {
        committer.time
    };
    let mut a = author.dup();
    a.time = author_time;
    let mut c = committer.dup();
    c.time = committer_time;
    let r = CommitData {
        tree: Oid::from_bytes(Vec::new()),
        parents: Vec::new(),
        author: a,
        committer: c,
        message: Vec::new(),
    };
    proof {
        assert(r@.tree =~= Seq::<u8>::empty());
        assert(r@.parents =~= Seq::<Seq<u8>>::empty());
        assert(r@.message =~= Seq::<u8>::empty());
        assert(r@ == blank_commit_spec(author@, committer@, mode, now));
    }
    r
}

} // verus!
