//! Opaque, fixed-size, content-addressed object identities.

use vstd::prelude::*;

verus! {

/// The number of bytes in an object identity (a SHA-1 content hash).
pub const ID_LEN: usize = 20;

/// An opaque object identity: the content hash of a commit or tree.
///
/// Two objects with identical encoded content share an identity; an identity
/// is never reused or mutated in place.
#[derive(Clone, Debug)]
pub struct Oid {
    bytes: Vec<u8>,
}

impl View for Oid {
    type V = Seq<u8>;

    closed spec fn view(&self) -> Seq<u8> {
        self.bytes@
    }
}

impl Oid {
    /// An identity is well formed when it has exactly the hash length.
    pub open spec fn wf(self) -> bool {
        self@.len() == ID_LEN
    }

    /// Builds an identity from its raw hash bytes.
    pub fn from_bytes(bytes: Vec<u8>) -> (r: Oid)
        ensures
            r@ == bytes@,
    {
        Oid { bytes }
    }

    /// The raw hash bytes of this identity.
    pub fn as_bytes(&self) -> (r: &Vec<u8>)
        ensures
            r@ == self@,
    {
        &self.bytes
    }

    /// Identities are equal exactly when their hash bytes are equal.
    pub fn eq(&self, other: &Oid) -> (r: bool)
        ensures
            r == (self@ == other@),
    {
        if self.bytes.len() != other.bytes.len() {
            assert(self@ !~= other@);
            return false;
        }
        let n: usize = self.bytes.len();
        for i in 0..n
            invariant
                n == self@.len() && n == other@.len(),
                forall|j: int| 0 <= j < i ==> self@[j] == other@[j],
        {
            if self.bytes[i] != other.bytes[i] {
                assert(self@ != other@);
                return false;
            }
        }
        proof {
            assert(self@ =~= other@);
        }
        true
    }

    /// A copy of this identity with the same hash bytes.
    pub fn dup(&self) -> (r: Oid)
        ensures
            r@ == self@,
    {
        let bytes = self.bytes.clone();
        proof {
            assert(bytes@ =~= self.bytes@);
        }
        Oid { bytes }
    }
}

} // verus!
