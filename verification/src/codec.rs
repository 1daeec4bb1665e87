//! The content-addressed object encoding, consumed from the surrounding
//! version-control object model: commit serialization and identity (hash)
//! computation.

use vstd::prelude::*;
use crate::commit::CommitData;
use crate::commit::CommitSpec;
use crate::commit::Actor;
use crate::errors::Error;
use crate::id::Oid;
use crate::id::ID_LEN;

verus! {

/// The outside object model's commit value, opaque to the verifier.
#[verifier::external_type_specification]
#[verifier::external_body]
pub struct ExGixCommit(gix::objs::Commit);

/// The outside object model's signature value, opaque to the verifier.
#[verifier::external_type_specification]
#[verifier::external_body]
pub struct ExGixSignature(gix::actor::Signature);

/// The canonical serialized form of a commit with the given fields, in the
/// git object format.
pub uninterp spec fn commit_encoding_of(c: CommitSpec) -> Seq<u8>;

/// The content hash that identifies a commit object with the given encoded
/// bytes.
pub uninterp spec fn object_hash_of(data: Seq<u8>) -> Seq<u8>;

/// Whether a commit with the given fields can be serialized: the outside
/// serializer accepts or rejects a commit as a function of its fields alone
/// (identities of the hash length; names and emails free of angle brackets
/// and newlines).
pub uninterp spec fn commit_encodable(c: CommitSpec) -> bool;

/// Whether the given encoded bytes can be hashed: the outside hasher rejects
/// bytes as a function of the bytes alone.
pub uninterp spec fn bytes_hashable(data: Seq<u8>) -> bool;

/// The identity of a commit with the given fields: the hash of its encoding.
pub open spec fn commit_identity(c: CommitSpec) -> Seq<u8> {
    object_hash_of(commit_encoding_of(c))
}

/// The identity of the empty tree: the well-known hash that the surrounding
/// object model assigns to a tree with no entries. A blank commit authored at
/// the root of a history points at this tree.
pub open spec fn empty_tree_bytes() -> Seq<u8> {
    seq![
        0x4bu8, 0x82, 0x5d, 0xc6, 0x42, 0xcb, 0x6e, 0xb9, 0xa0, 0x60, 0xe5, 0x4b, 0xf8, 0xd6,
        0x92, 0x88, 0xfb, 0xee, 0x49, 0x04,
    ]
}

/// The identity of the empty tree, as a value.
pub fn empty_tree_oid() -> (r: Oid)
    ensures
        r@ == empty_tree_bytes(),
        r@.len() == ID_LEN,
{
    let bytes: Vec<u8> = vec![
        0x4bu8, 0x82, 0x5d, 0xc6, 0x42, 0xcb, 0x6e, 0xb9, 0xa0, 0x60, 0xe5, 0x4b, 0xf8, 0xd6,
        0x92, 0x88, 0xfb, 0xee, 0x49, 0x04,
    ];
    let r = Oid::from_bytes(bytes);
    proof {
        assert(r@ =~= empty_tree_bytes());
    }
    r
}

/// Converts one of this library's signatures into the outside object model's
/// signature value, field for field.
///
/// Relies on gix_actor::Signature: a plain record of name, email and time.
#[verifier::external_body]
fn to_gix_signature(s: &Actor) -> gix::actor::Signature {
    gix::actor::Signature {
        name: s.name.as_slice().into(),
        email: s.email.as_slice().into(),
        time: gix::date::Time { seconds: s.time.seconds, offset: s.time.offset },
    }
}

/// Converts one of this library's commit values into the outside object
/// model's commit value, field for field.
///
/// Relies on gix_object::Commit: a plain record of tree, parents, author,
/// committer and message; the optional encoding header and extra headers stay
/// empty, so the fields of the argument determine the value entirely.
#[verifier::external_body]
fn to_gix_commit(c: &CommitData) -> (r: Result<gix::objs::Commit, ()>) {
    let mut parents: Vec<gix::ObjectId> = Vec::new();
    for p in c.parents.iter() {
        parents.push(gix::ObjectId::try_from(p.as_bytes().as_slice()).map_err(|_| ())?);
    }
    Ok(gix::objs::Commit {
        tree: gix::ObjectId::try_from(c.tree.as_bytes().as_slice()).map_err(|_| ())?,
        parents: parents.into(),
        author: to_gix_signature(&c.author),
        committer: to_gix_signature(&c.committer),
        encoding: None,
        message: c.message.as_slice().into(),
        extra_headers: Vec::new(),
    })
}

/// Serializes a commit value into the git object format.
///
/// Relies on gix_object::Commit::write_to: the serialization is a function of
/// the commit's fields alone, the same fields always serialize to the same
/// bytes, and whether serialization succeeds is likewise a function of the
/// fields alone, so success is exactly the named condition.
#[verifier::external_body]
pub fn encode_commit(c: &CommitData) -> (r: Result<Vec<u8>, ()>)
    ensures
        r is Ok <==> commit_encodable(c@),
        r is Ok ==> r->Ok_0@ == commit_encoding_of(c@),
{
    let commit = match to_gix_commit(c) {
        Ok(commit) => commit,
        Err(()) => return Err(()),
    };
    let mut buf: Vec<u8> = Vec::new();
    match gix::objs::WriteTo::write_to(&commit, &mut buf) {
        Ok(()) => Ok(buf),
        Err(_) => Err(()),
    }
}

/// Hashes the encoded bytes of a commit object into its identity.
///
/// Relies on gix_object::compute_hash with the SHA-1 object hash: the result
/// is a function of the bytes alone and is twenty bytes long, and failure
/// (collision-attack detection) is likewise a function of the bytes alone,
/// so success is exactly the named condition.
#[verifier::external_body]
pub fn hash_commit_bytes(data: &Vec<u8>) -> (r: Result<Oid, ()>)
    ensures
        r is Ok <==> bytes_hashable(data@),
        r is Ok ==> r->Ok_0@ == object_hash_of(data@) && r->Ok_0@.len() == ID_LEN,
{
    match gix::objs::compute_hash(gix::hash::Kind::Sha1, gix::objs::Kind::Commit, data.as_slice())
    {
        Ok(id) => Ok(Oid::from_bytes(id.as_slice().to_vec())),
        Err(_) => Err(()),
    }
}

/// Computes the identity a commit value would receive: the hash of its
/// encoding. Nothing is written. Succeeds exactly when the commit can be
/// serialized and its encoding hashed.
pub fn commit_id_of(c: &CommitData) -> (r: Result<Oid, Error>)
    ensures
        r is Ok <==> commit_encodable(c@) && bytes_hashable(commit_encoding_of(c@)),
        r is Ok ==> r->Ok_0@ == commit_identity(c@) && r->Ok_0@.len() == ID_LEN,
        r is Err ==> r->Err_0 == Error::EncodingError(None),
{
    let enc = match encode_commit(c) {
        Ok(enc) => enc,
        Err(()) => return Err(Error::EncodingError(None)),
    };
    match hash_commit_bytes(&enc) {
        Ok(id) => Ok(id),
        Err(()) => Err(Error::EncodingError(None)),
    }
}

} // verus!
