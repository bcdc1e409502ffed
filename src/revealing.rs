//! The reveal phase: collecting secrets, validating them against their
//! commits and combining the values.
use crate::commit::Commit;
use crate::errors::{Error, RevealError, RevealErrorKind};
use crate::exchange::{has_id, ids_distinct};
use crate::secret::{validated, Secret};
use std::collections::{HashMap, HashSet};
use vstd::prelude::*;

verus! {

broadcast use vstd::std_specs::hash::group_hash_axioms;

/// What `Reveal::insert` of a secret for `id` answers, given the commits and
/// the secrets held so far.
pub open spec fn insert_result(commits: Seq<(u64, Commit)>, secrets: Map<u64, Secret>, id: u64) -> Result<(), Error> {
    if !has_id(commits, id) {
        Err(Error::NotPresent)
    } else if secrets.contains_key(id) {
        Err(Error::AlreadyInserted)
    } else {
        Ok(())
    }
}

/// The secrets held after `Reveal::insert` of `s` for `id`.
pub open spec fn secrets_after_insert(
    commits: Seq<(u64, Commit)>,
    secrets: Map<u64, Secret>,
    id: u64,
    s: Secret,
) -> Map<u64, Secret> {
    if insert_result(commits, secrets, id) is Ok {
        secrets.insert(id, s)
    } else {
        secrets
    }
}

/// Whether the secret held for `id` validates against the commit `c`.
pub open spec fn is_valid(secrets: Map<u64, Secret>, id: u64, c: Commit) -> bool {
    secrets.contains_key(id) && validated(secrets[id]@.0, secrets[id]@.1, c@) is Ok
}

/// The participants of `commits` that failed, in order, with their failure:
/// no secret, or a secret that does not validate against the commit.
pub open spec fn failures(commits: Seq<(u64, Commit)>, secrets: Map<u64, Secret>) -> Seq<(RevealErrorKind, u64)>
    decreases commits.len(),
{
    if commits.len() == 0 {
        Seq::empty()
    } else {
        let prev = failures(commits.drop_last(), secrets);
        let id = commits.last().0;
        if !secrets.contains_key(id) {
            prev.push((RevealErrorKind::MissingSecret, id))
        } else if !is_valid(secrets, id, commits.last().1) {
            prev.push((RevealErrorKind::ValidationFailed, id))
        } else {
            prev
        }
    }
}

/// What the entry `e` of a commit adds to the combined value: the
/// participant's value if its secret validates, and nothing otherwise.
pub open spec fn contribution(secrets: Map<u64, Secret>, e: (u64, Commit)) -> u64 {
    if is_valid(secrets, e.0, e.1) {
        secrets[e.0]@.0
    } else {
        0
    }
}

/// The XOR of the values of the participants of `commits` whose secrets
/// validate.
pub open spec fn combined(commits: Seq<(u64, Commit)>, secrets: Map<u64, Secret>) -> u64
    decreases commits.len(),
{
    if commits.len() == 0 {
        0
    } else {
        combined(commits.drop_last(), secrets) ^ contribution(secrets, commits.last())
    }
}

/// The outcome of the reveal: the combined value if every participant
/// revealed a valid secret, and otherwise the list of failures alone.
pub open spec fn outcome(commits: Seq<(u64, Commit)>, secrets: Map<u64, Secret>) -> Result<u64, Seq<(RevealErrorKind, u64)>> {
    if failures(commits, secrets).len() == 0 {
        Ok(combined(commits, secrets))
    } else {
        Err(failures(commits, secrets))
    }
}

/// Collects `Secret` instances from participants and validates them against
/// the `Commit` instances collected before.
pub struct Reveal {
    commits: Vec<(u64, Commit)>,
    ids: HashSet<u64>,
    secrets: HashMap<u64, Secret>,
}

impl Reveal {
    #[verifier::type_invariant]
    spec fn inv(&self) -> bool {
        &&& self.commits@.len() > 0
        &&& ids_distinct(self.commits@)
        &&& forall|k: u64| #[trigger] self.ids@.contains(k) <==> has_id(self.commits@, k)
        &&& forall|k: u64| self.secrets@.contains_key(k) ==> has_id(self.commits@, k)
    }

    /// The participants and their commits, in the order of the commit phase.
    pub closed spec fn commits(&self) -> Seq<(u64, Commit)> {
        self.commits@
    }

    /// The secrets inserted so far, by participant.
    pub closed spec fn secrets(&self) -> Map<u64, Secret> {
        self.secrets@
    }

    pub(crate) fn new(commits: Vec<(u64, Commit)>, ids: HashSet<u64>) -> (r: Self)
        requires
            commits@.len() > 0,
            ids_distinct(commits@),
            forall|k: u64| #[trigger] ids@.contains(k) <==> has_id(commits@, k),
        ensures
            r.commits() == commits@,
            r.secrets() == Map::<u64, Secret>::empty(),
    {
        Reveal { commits, ids, secrets: HashMap::new() }
    }

    /// Inserts the `Secret` of the participant identified with `id`. Refused,
    /// with nothing changed, with `NotPresent` if `id` has no commit and with
    /// `AlreadyInserted` if `id` already has a secret.
    pub fn insert(&mut self, id: u64, secret: Secret) -> (r: Result<(), Error>)
        ensures
            r == insert_result(old(self).commits(), old(self).secrets(), id),
            final(self).commits() == old(self).commits(),
            final(self).secrets() == secrets_after_insert(old(self).commits(), old(self).secrets(), id, secret),
    {
        proof {
            use_type_invariant(&*self);
        }
        if !self.ids.contains(&id) {
            return Err(Error::NotPresent);
        }
        if self.secrets.contains_key(&id) {
            return Err(Error::AlreadyInserted);
        }
        let mut secrets: HashMap<u64, Secret> = HashMap::new();
        std::mem::swap(&mut self.secrets, &mut secrets);
        secrets.insert(id, secret);
        self.secrets = secrets;
        Ok(())
    }

    /// Consumes the reveal: validates every participant's secret against its
    /// commit and, if all are valid, returns the XOR of their values. Otherwise
    /// returns every participant that failed, and no value.
    pub fn get(self) -> (r: Result<u64, RevealError>)
        ensures
            match r {
                Ok(v) => outcome(self.commits(), self.secrets()) == Ok::<u64, Seq<(RevealErrorKind, u64)>>(v),
                Err(e) => outcome(self.commits(), self.secrets()) == Err::<u64, Seq<(RevealErrorKind, u64)>>(e@),
            },
    {
        proof {
            use_type_invariant(&self);
        }
        let Reveal { commits, ids: _, secrets } = self;
        let mut secrets = secrets;
        let ghost orig = secrets@;
        let mut failed: Vec<(RevealErrorKind, u64)> = Vec::new();
        let mut acc: u64 = 0;
        let mut i: usize = 0;
        while i < commits.len()
            invariant
                i <= commits@.len(),
                ids_distinct(commits@),
                failed@ == failures(commits@.take(i as int), orig),
                acc == combined(commits@.take(i as int), orig),
                forall|j: int|
                    i <= j < commits@.len() ==> (#[trigger] secrets@.contains_key(commits@[j].0)
                        == orig.contains_key(commits@[j].0)) && (orig.contains_key(commits@[j].0)
                        ==> secrets@[commits@[j].0] == orig[commits@[j].0]),
            decreases commits@.len() - i,
        {
            let id = commits[i].0;
            let commit = &commits[i].1;
            proof {
                assert(commits@.take(i + 1).drop_last() =~= commits@.take(i as int));
                assert(commits@.take(i + 1).last() == commits@[i as int]);
                assert forall|j: int| i < j < commits@.len() implies commits@[j].0 != id by {}
            }
            let ghost before = secrets@;
            match secrets.remove(&id) {
                None => {
                    assert(acc ^ 0u64 == acc) by (bit_vector);
                    failed.push((RevealErrorKind::MissingSecret, id));
                },
                Some(s) => {
                    match s.validate(commit) {
                        Ok(v) => {
                            acc = acc ^ v;
                        },
                        Err(_) => {
                            assert(acc ^ 0u64 == acc) by (bit_vector);
                            failed.push((RevealErrorKind::ValidationFailed, id));
                        },
                    }
                },
            }
            proof {
                assert(secrets@ == before.remove(id));
                assert forall|j: int| i < j < commits@.len() implies (#[trigger] secrets@.contains_key(
                    commits@[j].0,
                ) == orig.contains_key(commits@[j].0)) && (orig.contains_key(commits@[j].0)
                    ==> secrets@[commits@[j].0] == orig[commits@[j].0]) by {
                    assert(commits@[j].0 != id);
                    assert(before.contains_key(commits@[j].0) == orig.contains_key(commits@[j].0));
                }
            }
            i += 1;
        }
        assert(commits@.take(commits@.len() as int) =~= commits@);
        if failed.len() == 0 {
            Ok(acc)
        } else {
            Err(RevealError::new(failed))
        }
    }
}

/// Whether no two of `pairs` belong to the same participant.
pub open spec fn pair_ids_distinct(pairs: Seq<(u64, Secret)>) -> bool {
    forall|i: int, j: int|
        0 <= i < pairs.len() && 0 <= j < pairs.len() && i != j ==> pairs[i].0 != pairs[j].0
}

/// The secrets held after `Reveal::insert` of each of `pairs` in turn,
/// starting from `secrets`.
pub open spec fn secrets_after_all(
    commits: Seq<(u64, Commit)>,
    secrets: Map<u64, Secret>,
    pairs: Seq<(u64, Secret)>,
) -> Map<u64, Secret>
    decreases pairs.len(),
{
    if pairs.len() == 0 {
        secrets
    } else {
        secrets_after_insert(
            commits,
            secrets_after_all(commits, secrets, pairs.drop_last()),
            pairs.last().0,
            pairs.last().1,
        )
    }
}

/// What the secrets held after inserting `pairs` of distinct participants
/// are: the earlier secrets, and the secret of each committed participant
/// that had none.
proof fn lemma_secrets_after_all(
    commits: Seq<(u64, Commit)>,
    secrets: Map<u64, Secret>,
    pairs: Seq<(u64, Secret)>,
)
    requires
        pair_ids_distinct(pairs),
    ensures
        forall|k: u64|
            #[trigger] secrets_after_all(commits, secrets, pairs).contains_key(k) <==> (
            secrets.contains_key(k) || (has_id(commits, k) && exists|i: int|
                0 <= i < pairs.len() && pairs[i].0 == k)),
        forall|k: u64|
            secrets.contains_key(k) ==> #[trigger] secrets_after_all(commits, secrets, pairs)[k]
                == secrets[k],
        forall|i: int|
            0 <= i < pairs.len() && !secrets.contains_key(pairs[i].0) && has_id(
                commits,
                pairs[i].0,
            ) ==> #[trigger] secrets_after_all(commits, secrets, pairs)[pairs[i].0] == pairs[i].1,
    decreases pairs.len(),
{
    if pairs.len() > 0 {
        let prev = pairs.drop_last();
        let n = pairs.len() - 1;
        let id = pairs.last().0;
        lemma_secrets_after_all(commits, secrets, prev);
        let before = secrets_after_all(commits, secrets, prev);
        let after = secrets_after_all(commits, secrets, pairs);
        assert forall|i: int| 0 <= i < prev.len() implies prev[i] == pairs[i] && prev[i].0 != id by {
            assert(i != n);
        }
        assert(before.contains_key(id) <==> secrets.contains_key(id));
        assert forall|k: u64| #[trigger] after.contains_key(k) <==> (secrets.contains_key(k) || (
        has_id(commits, k) && exists|i: int| 0 <= i < pairs.len() && pairs[i].0 == k)) by {
            if exists|i: int| 0 <= i < pairs.len() && pairs[i].0 == k {
                let i = choose|i: int| 0 <= i < pairs.len() && pairs[i].0 == k;
                if i < n {
                    assert(prev[i].0 == k);
                }
            }
            if exists|i: int| 0 <= i < prev.len() && prev[i].0 == k {
                let i = choose|i: int| 0 <= i < prev.len() && prev[i].0 == k;
                assert(pairs[i].0 == k);
            }
        }
        assert forall|i: int|
            0 <= i < pairs.len() && !secrets.contains_key(pairs[i].0) && has_id(
                commits,
                pairs[i].0,
            ) implies #[trigger] after[pairs[i].0] == pairs[i].1 by {
            if i < n {
                assert(prev[i] == pairs[i]);
            }
        }
    }
}

/// The order in which participants reveal does not matter: inserting the
/// secrets of distinct participants in one order or in any permutation of it
/// leaves the same secrets, and so the same outcome of `Reveal::get`.
pub proof fn lemma_insert_order_irrelevant(
    commits: Seq<(u64, Commit)>,
    secrets: Map<u64, Secret>,
    pairs: Seq<(u64, Secret)>,
    permuted: Seq<(u64, Secret)>,
)
    requires
        pair_ids_distinct(pairs),
        permuted.to_multiset() == pairs.to_multiset(),
    ensures
        secrets_after_all(commits, secrets, permuted) == secrets_after_all(commits, secrets, pairs),
        outcome(commits, secrets_after_all(commits, secrets, permuted)) == outcome(
            commits,
            secrets_after_all(commits, secrets, pairs),
        ),
{
    permuted.to_multiset_ensures();
    pairs.to_multiset_ensures();
    assert forall|x: (u64, Secret)| permuted.contains(x) <==> pairs.contains(x) by {
        assert(permuted.to_multiset().count(x) == pairs.to_multiset().count(x));
        assert(permuted.contains(x) <==> permuted.to_multiset().count(x) > 0);
        assert(pairs.contains(x) <==> pairs.to_multiset().count(x) > 0);
    }
    assert(pairs.no_duplicates());
    pairs.lemma_multiset_has_no_duplicates();
    assert forall|x: (u64, Secret)| permuted.to_multiset().contains(x) implies permuted.to_multiset().count(x) == 1 by {}
    permuted.lemma_multiset_has_no_duplicates_conv();
    assert(pair_ids_distinct(permuted)) by {
        assert forall|i: int, j: int|
            0 <= i < permuted.len() && 0 <= j < permuted.len() && i != j implies permuted[i].0
            != permuted[j].0 by {
            if permuted[i].0 == permuted[j].0 {
                assert(pairs.contains(permuted[i]));
                assert(pairs.contains(permuted[j]));
                let a = choose|a: int| 0 <= a < pairs.len() && pairs[a] == permuted[i];
                let b = choose|b: int| 0 <= b < pairs.len() && pairs[b] == permuted[j];
                assert(a == b);
                assert(permuted[i] == permuted[j]);
            }
        }
    }
    lemma_secrets_after_all(commits, secrets, pairs);
    lemma_secrets_after_all(commits, secrets, permuted);
    let x = secrets_after_all(commits, secrets, permuted);
    let y = secrets_after_all(commits, secrets, pairs);
    assert forall|k: u64| #[trigger] x.contains_key(k) <==> y.contains_key(k) by {
        if exists|i: int| 0 <= i < pairs.len() && pairs[i].0 == k {
            let i = choose|i: int| 0 <= i < pairs.len() && pairs[i].0 == k;
            assert(pairs.contains(pairs[i]));
            assert(permuted.contains(pairs[i]));
        }
        if exists|i: int| 0 <= i < permuted.len() && permuted[i].0 == k {
            let i = choose|i: int| 0 <= i < permuted.len() && permuted[i].0 == k;
            assert(permuted.contains(permuted[i]));
            assert(pairs.contains(permuted[i]));
        }
    }
    assert forall|k: u64| x.contains_key(k) implies #[trigger] x[k] == y[k] by {
        if !secrets.contains_key(k) {
            let i = choose|i: int| 0 <= i < pairs.len() && pairs[i].0 == k;
            assert(pairs.contains(pairs[i]));
            assert(permuted.contains(pairs[i]));
            let j = choose|j: int| 0 <= j < permuted.len() && permuted[j] == pairs[i];
            assert(x[permuted[j].0] == permuted[j].1);
            assert(y[pairs[i].0] == pairs[i].1);
        }
    }
    assert(x =~= y);
}

/// Taking the entry at `i` out of `commits` takes its contribution out of
/// the combined value, and its failure, if any, out of the failures.
proof fn lemma_remove_entry(commits: Seq<(u64, Commit)>, secrets: Map<u64, Secret>, i: int)
    requires
        0 <= i < commits.len(),
    ensures
        combined(commits, secrets) == combined(commits.remove(i), secrets) ^ contribution(
            secrets,
            commits[i],
        ),
        failures(commits, secrets).len() == failures(commits.remove(i), secrets).len() + (if is_valid(
            secrets,
            commits[i].0,
            commits[i].1,
        ) {
            0int
        } else {
            1int
        }),
    decreases commits.len(),
{
    if i == commits.len() - 1 {
        assert(commits.remove(i) =~= commits.drop_last());
    } else {
        let t = commits.drop_last();
        lemma_remove_entry(t, secrets, i);
        let r = commits.remove(i);
        assert(r.drop_last() =~= t.remove(i));
        assert(r.last() == commits.last());
        let (a, b, c) = (
            combined(t.remove(i), secrets),
            contribution(secrets, commits[i]),
            contribution(secrets, commits.last()),
        );
        assert((a ^ b) ^ c == (a ^ c) ^ b) by (bit_vector);
    }
}

/// The order in which commits arrive does not matter: any permutation of
/// the commits gives the same combined value and the same number of
/// failures, so the reveal succeeds for both or for neither, and with the
/// same value.
pub proof fn lemma_commit_order_irrelevant(
    commits: Seq<(u64, Commit)>,
    permuted: Seq<(u64, Commit)>,
    secrets: Map<u64, Secret>,
)
    requires
        permuted.to_multiset() == commits.to_multiset(),
    ensures
        combined(permuted, secrets) == combined(commits, secrets),
        failures(permuted, secrets).len() == failures(commits, secrets).len(),
        outcome(permuted, secrets) is Ok <==> outcome(commits, secrets) is Ok,
        outcome(permuted, secrets) is Ok ==> outcome(permuted, secrets) == outcome(commits, secrets),
    decreases commits.len(),
{
    commits.to_multiset_ensures();
    permuted.to_multiset_ensures();
    if commits.len() > 0 {
        let x = commits.last();
        let prev = commits.drop_last();
        prev.to_multiset_ensures();
        assert(prev.push(x) =~= commits);
        assert(commits.to_multiset().count(x) > 0);
        assert(permuted.contains(x));
        let i = choose|i: int| 0 <= i < permuted.len() && permuted[i] == x;
        let rest = permuted.remove(i);
        assert(rest.to_multiset() =~= prev.to_multiset());
        lemma_commit_order_irrelevant(prev, rest, secrets);
        lemma_remove_entry(permuted, secrets, i);
    }
}

} // verus!
