//! A published commitment to a `Secret`.
use crate::encoding::copy_range;
use crate::mac::{digests_equal, hmac_digest, hmac_sha512, KEY_SIZE, OUTPUT_SIZE};
use vstd::prelude::*;

verus! {

/// A commitment to a particular `Secret`: the keyed digest of its encoded
/// value. It reveals nothing of the value or key and can be published.
#[derive(Debug)]
pub struct Commit {
    hash: Vec<u8>,
}

impl View for Commit {
    type V = Seq<u8>;

    /// The digest bytes.
    closed spec fn view(&self) -> Seq<u8> {
        self.hash@
    }
}

impl Commit {
    #[verifier::type_invariant]
    spec fn inv(&self) -> bool {
        self.hash@.len() == OUTPUT_SIZE
    }

    /// The commit of `data` under `key`.
    pub(crate) fn new(key: &[u8], data: &[u8]) -> (r: Self)
        requires
            key@.len() == KEY_SIZE,
        ensures
            r@ == hmac_sha512(key@, data@),
    {
        Commit { hash: hmac_digest(key, data) }
    }

    /// Whether two commits hold the same digest, compared in constant time.
    pub fn ct_eq(&self, other: &Commit) -> (r: bool)
        ensures
            r == (self@ == other@),
    {
        proof {
            use_type_invariant(self);
            use_type_invariant(other);
        }
        digests_equal(self.hash.as_slice(), other.hash.as_slice())
    }

    /// The commit as bytes: its digest, of the output size.
    pub fn to_bytes(&self) -> (r: Vec<u8>)
        ensures
            r@ == self@,
            r@.len() == OUTPUT_SIZE,
    {
        proof {
            use_type_invariant(self);
        }
        self.hash.clone()
    }

    /// The commit whose digest is `bytes`; `None` unless `bytes` has the
    /// output size.
    pub fn from_bytes(bytes: &[u8]) -> (r: Option<Commit>)
        ensures
            r is None <==> commit_from_bytes(bytes@) is None,
            r matches Some(c) ==> commit_from_bytes(bytes@) == Some(c@),
    {
        if bytes.len() == OUTPUT_SIZE {
            let hash = copy_range(bytes, 0, bytes.len());
            assert(hash@ =~= bytes@);
            Some(Commit { hash })
        } else {
            None
        }
    }
}

/// The digest that the bytes `b` of a commit stand for, if any.
pub open spec fn commit_from_bytes(b: Seq<u8>) -> Option<Seq<u8>> {
    if b.len() == OUTPUT_SIZE {
        Some(b)
    } else {
        None
    }
}

/// Reading back the bytes that `Commit::to_bytes` gives for a digest `d`
/// yields `d` again.
pub proof fn lemma_commit_bytes_round_trip(d: Seq<u8>)
    requires
        d.len() == OUTPUT_SIZE,
    ensures
        commit_from_bytes(d) == Some(d),
{
}

} // verus!
