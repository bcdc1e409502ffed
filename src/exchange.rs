//! The commit phase: collecting one `Commit` per participant.
use crate::commit::Commit;
use crate::errors::Error;
use crate::revealing::Reveal;
use crate::secret::Secret;
use std::collections::HashSet;
use vstd::prelude::*;

verus! {

broadcast use vstd::std_specs::hash::group_hash_axioms;

/// Whether some entry of `s` belongs to participant `id`.
pub open spec fn has_id(s: Seq<(u64, Commit)>, id: u64) -> bool {
    exists|i: int| 0 <= i < s.len() && s[i].0 == id
}

/// Whether no two entries of `s` belong to the same participant.
pub open spec fn ids_distinct(s: Seq<(u64, Commit)>) -> bool {
    forall|i: int, j: int| 0 <= i < s.len() && 0 <= j < s.len() && i != j ==> s[i].0 != s[j].0
}

/// Collects `Commit` instances from participants, in the order they came.
pub struct Exchange {
    commits: Vec<(u64, Commit)>,
    ids: HashSet<u64>,
}

impl View for Exchange {
    type V = Seq<(u64, Commit)>;

    /// The participants and their commits, in the order of insertion.
    closed spec fn view(&self) -> Seq<(u64, Commit)> {
        self.commits@
    }
}

impl Exchange {
    #[verifier::type_invariant]
    spec fn inv(&self) -> bool {
        &&& ids_distinct(self.commits@)
        &&& forall|k: u64| #[trigger] self.ids@.contains(k) <==> has_id(self.commits@, k)
    }

    /// An exchange with no commits.
    pub fn new() -> (r: Self)
        ensures
            r@ == Seq::<(u64, Commit)>::empty(),
    {
        Exchange { commits: Vec::new(), ids: HashSet::new() }
    }

    /// Inserts the `Commit` of the participant identified with `id`; refused
    /// with `AlreadyInserted`, and nothing changed, if `id` already has one.
    pub fn insert(&mut self, id: u64, commit: Commit) -> (r: Result<(), Error>)
        ensures
            has_id(old(self)@, id) ==> r == Err::<(), Error>(Error::AlreadyInserted)
                && final(self)@ == old(self)@,
            !has_id(old(self)@, id) ==> r == Ok::<(), Error>(())
                && final(self)@ == old(self)@.push((id, commit)),
    {
        proof {
            use_type_invariant(&*self);
        }
        if self.ids.contains(&id) {
            return Err(Error::AlreadyInserted);
        }
        let mut taken = Exchange::new();
        std::mem::swap(self, &mut taken);
        let Exchange { mut commits, mut ids } = taken;
        proof {
            assert forall|i: int| 0 <= i < commits@.len() implies commits@[i].0 != id by {
                assert(has_id(commits@, commits@[i].0));
            }
        }
        commits.push((id, commit));
        ids.insert(id);
        proof {
            assert forall|k: u64| #[trigger] ids@.contains(k) <==> has_id(commits@, k) by {
                if k != id && has_id(commits@, k) {
                    let i = choose|i: int| 0 <= i < commits@.len() && commits@[i].0 == k;
                    assert(i < commits@.len() - 1);
                    assert(has_id(old(self)@, k));
                }
                if k == id {
                    assert(commits@[commits@.len() - 1].0 == id);
                }
                if k != id && ids@.contains(k) {
                    let i = choose|i: int| 0 <= i < old(self)@.len() && old(self)@[i].0 == k;
                    assert(commits@[i].0 == k);
                }
            }
        }
        *self = Exchange { commits, ids };
        Ok(())
    }

    /// Consumes the exchange once all expected commits have arrived, opening
    /// the reveal phase; refused with `Empty` if no commit was inserted.
    pub fn into_reveal(self) -> (r: Result<Reveal, Error>)
        ensures
            r is Err <==> self@.len() == 0,
            r matches Err(e) ==> e == Error::Empty,
            r matches Ok(v) ==> v.commits() == self@ && v.secrets() == Map::<u64, Secret>::empty(),
    {
        proof {
            use_type_invariant(&self);
        }
        if self.commits.len() == 0 {
            Err(Error::Empty)
        } else {
            Ok(Reveal::new(self.commits, self.ids))
        }
    }
}

} // verus!
