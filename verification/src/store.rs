//! The durable, content-addressed object store behind an edit session, and
//! the materializer that writes rewritten commits into it.

use vstd::prelude::*;
use crate::codec::object_hash_of;
use crate::commit::Actor;
use crate::commit::Time;
use crate::errors::Error;
use crate::id::Oid;
use crate::id::ID_LEN;
use crate::rebase::changed_ids_upto;
use crate::rebase::CommitMapping;
use crate::rebase::RebaseOutcome;

verus! {

/// The outside repository handle: the object database and configuration this
/// session writes through, opaque to the verifier.
#[verifier::external_type_specification]
#[verifier::external_body]
pub struct ExRepository(gix::Repository);

/// Writes the encoded bytes of a commit object into the repository's object
/// database and returns the identity it was stored under.
///
/// Relies on gix_object::Write::write_buf through gix::Repository::objects:
/// the store is content-addressed, so the object is stored under the hash of
/// its bytes, that identity is returned, and writing bytes already present
/// leaves the store as it was (write-if-absent).
#[verifier::external_body]
fn repo_write_commit_bytes(repo: &gix::Repository, data: &Vec<u8>) -> (r: Result<Oid, ()>)
    ensures
        r is Ok ==> r->Ok_0@ == object_hash_of(data@) && r->Ok_0@.len() == ID_LEN,
{
    match gix::objs::Write::write_buf(&repo.objects, gix::objs::Kind::Commit, data.as_slice()) {
        Ok(id) => Ok(Oid::from_bytes(id.as_slice().to_vec())),
        Err(_) => Err(()),
    }
}

/// Reads the committer signature from the repository's configuration and
/// environment, with its timestamp; `None` if no committer is configured.
///
/// Relies on gix::Repository::committer; the result depends on configuration
/// and environment, so nothing is assumed of it.
#[verifier::external_body]
fn repo_committer(repo: &gix::Repository) -> Option<Actor> {
    let sig_ref = match repo.committer() {
        Some(Ok(s)) => s,
        _ => return None,
    };
    let sig = match sig_ref.to_owned() {
        Ok(s) => s,
        Err(_) => return None,
    };
    Some(Actor {
        name: sig.name.into(),
        email: sig.email.into(),
        time: Time { seconds: sig.time.seconds, offset: sig.time.offset },
    })
}

/// A durable object store bound to one edit session.
///
/// `ids()` models the identities this session knows to be durably present:
/// it starts empty and grows by exactly the identity of each object written
/// through the session. Nothing else writes to the repository during the
/// session; serializing concurrent writers is the storage layer's concern,
/// not this component's.
pub struct Store {
    repo: gix::Repository,
    ids: Ghost<Set<Seq<u8>>>,
}

impl Store {
    /// The identities written through this session so far.
    pub closed spec fn ids(self) -> Set<Seq<u8>> {
        self.ids@
    }

    /// Binds an edit session to a repository's object store.
    pub fn new(repo: gix::Repository) -> (r: Store)
        ensures
            r.ids() == Set::<Seq<u8>>::empty(),
    {
        Store { repo, ids: Ghost(Set::empty()) }
    }

    /// The committer signature the repository is configured with, if any.
    pub fn committer(&self) -> Option<Actor> {
        repo_committer(&self.repo)
    }

    /// Writes one encoded commit object, returning the identity it is now
    /// durably stored under: the hash of its bytes. Idempotent: writing bytes
    /// already present leaves the store unchanged. A rejected write reports
    /// no detail of its own; the materializer names the failing identity.
    pub fn write_commit(&mut self, data: &Vec<u8>) -> (r: Result<Oid, ()>)
        ensures
            r is Ok ==> r->Ok_0@ == object_hash_of(data@) && r->Ok_0@.len() == ID_LEN
                && final(self).ids() == old(self).ids().insert(object_hash_of(data@)),
            r is Err ==> final(self).ids() == old(self).ids(),
    {
        match repo_write_commit_bytes(&self.repo, data) {
            Ok(id) => {
                proof {
                    self.ids@ = self.ids@.insert(id@);
                }
                Ok(id)
            },
            Err(()) => Err(()),
        }
    }
}

impl RebaseOutcome {
    /// Writes every re-encoded commit of this outcome to durable storage,
    /// parents before children, and returns the accumulated old-to-new
    /// identity mapping.
    ///
    /// Untouched steps are not written: they are byte-identical to objects
    /// the span was read from. Writes are idempotent (the store is
    /// content-addressed), so materializing the same outcome again adds
    /// nothing; a rewritten set with nothing re-encoded writes nothing and
    /// cannot fail. Writes follow plan order, parents before children: at
    /// every moment, failure included, the written set is a prefix of the
    /// re-encoded steps, so no written commit references an unwritten
    /// rewritten parent. If the store rejects a write, the error surfaces at
    /// once, naming the identity that could not be written; the objects
    /// already written stay and nothing else is touched.
    pub fn materialize(&self, store: &mut Store) -> (r: Result<CommitMapping, Error>)
        requires
            self.wf(),
        ensures
            r is Ok ==> final(store).ids() == old(store).ids().union(
                changed_result_ids(self.steps_spec()),
            ) && final(store).ids() == old(store).ids().union(
                written_upto(self.steps_spec(), self.steps_spec().len() as int),
            ) && r->Ok_0@ == self.mapping@,
            r is Err ==> r->Err_0 is StorageWriteError,
            r is Err ==> exists|k: int|
                0 <= k <= self.steps_spec().len() && final(store).ids() == old(
                    store,
                ).ids().union(#[trigger] written_upto(self.steps_spec(), k)),
            (forall|i: int|
                0 <= i < self.steps_spec().len() ==> !(#[trigger] self.steps_spec()[i]).changed)
                ==> r is Ok,
            old(store).ids().subset_of(final(store).ids()),
            final(store).ids().subset_of(
                old(store).ids().union(changed_result_ids(self.steps_spec())),
            ),
    {
        let n: usize = self.steps.len();
        let mut i: usize = 0;
        while i < n
            invariant
                n == self.steps@.len(),
                i <= n,
                self.wf(),
                store.ids() == old(store).ids().union(written_upto(self.steps_spec(), i as int)),
            decreases n - i,
        {
            let step = &self.steps[i];
            proof {
                assert(self.steps_spec()[i as int] == step@);
            }
            if step.changed {
                match store.write_commit(&step.encoding) {
                    Ok(_) => {
                        proof {
                            assert(store.ids() =~= old(store).ids().union(
                                written_upto(self.steps_spec(), i + 1),
                            ));
                        }
                    },
                    Err(()) => {
                        proof {
                            lemma_written_upto_subset(self.steps_spec(), i as int);
                            assert(self.steps_spec()[i as int].changed);
                            assert(store.ids() == old(store).ids().union(
                                written_upto(self.steps_spec(), i as int),
                            ));
                        }
                        return Err(Error::StorageWriteError(step.id.dup()));
                    },
                }
            } else {
                proof {
                    assert(written_upto(self.steps_spec(), i + 1) =~= written_upto(
                        self.steps_spec(),
                        i as int,
                    ));
                }
            }
            i = i + 1;
        }
        proof {
            lemma_written_upto_subset(self.steps_spec(), n as int);
            assert(written_upto(self.steps_spec(), n as int) =~= changed_result_ids(
                self.steps_spec(),
            ));
        }
        Ok(self.mapping.dup())
    }
}

/// The identities of the re-encoded steps among the first `upto` of a
/// rewritten set: what a materialization has written after `upto` steps.
pub open spec fn written_upto(steps: Seq<crate::rebase::RwStepSpec>, upto: int) -> Set<Seq<u8>>
    decreases upto,
{
    if upto <= 0 || upto > steps.len() {
        Set::empty()
    } else {
        let rest = written_upto(steps, upto - 1);
        if steps[upto - 1].changed {
            rest.insert(steps[upto - 1].id)
        } else {
            rest
        }
    }
}

/// The identities of all re-encoded steps of a rewritten set: exactly what a
/// complete materialization writes.
pub open spec fn changed_result_ids(steps: Seq<crate::rebase::RwStepSpec>) -> Set<Seq<u8>> {
    Set::new(
        |id: Seq<u8>|
            exists|i: int|
                0 <= i < steps.len() && (#[trigger] steps[i]).changed && steps[i].id == id,
    )
}

/// Everything written after a prefix of the steps is within what the complete
/// materialization writes.
pub proof fn lemma_written_upto_subset(steps: Seq<crate::rebase::RwStepSpec>, upto: int)
    ensures
        written_upto(steps, upto).subset_of(changed_result_ids(steps)),
        upto == steps.len() ==> written_upto(steps, upto) =~= changed_result_ids(steps),
    decreases upto,
{
    if upto <= 0 || upto > steps.len() {
    } else {
        lemma_written_upto_subset(steps, upto - 1);
    }
    if upto == steps.len() {
        assert forall|id: Seq<u8>| changed_result_ids(steps).contains(id) implies written_upto(
            steps,
            upto,
        ).contains(id) by {
            let i = choose|i: int|
                0 <= i < steps.len() && (#[trigger] steps[i]).changed && steps[i].id == id;
            lemma_written_upto_contains(steps, i, upto);
        }
    }
}

/// A re-encoded step's identity is among what is written once the prefix has
/// passed it.
pub proof fn lemma_written_upto_contains(
    steps: Seq<crate::rebase::RwStepSpec>,
    i: int,
    upto: int,
)
    requires
        0 <= i < upto <= steps.len(),
        steps[i].changed,
    ensures
        written_upto(steps, upto).contains(steps[i].id),
    decreases upto,
{
    if i < upto - 1 {
        lemma_written_upto_contains(steps, i, upto - 1);
    }
}

} // verus!
