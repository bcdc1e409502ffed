//! A participant's private contribution and the key that hides it.
use crate::commit::Commit;
use crate::encoding::{
    copy_range, decode_value, encode_value, le_bytes, lemma_le_bytes_injective, VALUE_SIZE,
};
use crate::errors::{Error, RevealErrorKind};
use crate::mac::{hmac_sha512, mac_key_size, KEY_SIZE};
use rand::rngs::ThreadRng;
use rand::RngCore;
use vstd::prelude::*;

verus! {

#[verifier::external_type_specification]
#[verifier::external_body]
pub struct ExThreadRng(ThreadRng);

/// Relies on rand's `RngCore::fill_bytes` for `ThreadRng`, a cryptographically
/// secure generator: it overwrites the bytes of `buf` in place.
#[verifier::external_body]
fn fill_random(rng: &mut ThreadRng, buf: &mut Vec<u8>)
    ensures
        final(buf)@.len() == old(buf)@.len(),
{
    rng.fill_bytes(buf.as_mut_slice());
}

/// The digest that commits to `value` under `key`: the keyed digest of the
/// value's encoding.
pub open spec fn commitment(value: u64, key: Seq<u8>) -> Seq<u8> {
    hmac_sha512(key, le_bytes(value))
}

/// What validating the secret `(value, key)` against the digest `c` gives:
/// the value when `c` commits to it under `key`, and a failure otherwise.
pub open spec fn validated(value: u64, key: Seq<u8>, c: Seq<u8>) -> Result<u64, RevealErrorKind> {
    if c == commitment(value, key) {
        Ok(value)
    } else {
        Err(RevealErrorKind::ValidationFailed)
    }
}

/// The bytes of the secret `(value, key)`: the value's encoding, then the key.
pub open spec fn secret_to_bytes(value: u64, key: Seq<u8>) -> Seq<u8> {
    le_bytes(value) + key
}

/// The secret `(value, key)` that the bytes `b` stand for, if any.
pub open spec fn secret_from_bytes(b: Seq<u8>) -> Option<(u64, Seq<u8>)> {
    if b.len() == VALUE_SIZE + KEY_SIZE && exists|v: u64| le_bytes(v) == b.subrange(0, VALUE_SIZE as int) {
        let v = choose|v: u64| le_bytes(v) == b.subrange(0, VALUE_SIZE as int);
        Some((v, b.subrange(VALUE_SIZE as int, b.len() as int)))
    } else {
        None
    }
}

/// An individual participant's contribution to a randomly generated number,
/// with the random key that hides it in its commit.
#[derive(Debug)]
pub struct Secret {
    value: u64,
    key: Vec<u8>,
}

impl View for Secret {
    type V = (u64, Seq<u8>);

    /// The value and the key.
    closed spec fn view(&self) -> (u64, Seq<u8>) {
        (self.value, self.key@)
    }
}

impl Secret {
    #[verifier::type_invariant]
    spec fn inv(&self) -> bool {
        self.key@.len() == KEY_SIZE
    }

    /// A new secret holding `value` and a key of random bytes drawn from `rng`.
    pub fn new(rng: &mut ThreadRng, value: u64) -> (r: Self)
        ensures
            r@.0 == value,
            r@.1.len() == KEY_SIZE,
    {
        let n = mac_key_size();
        let mut key: Vec<u8> = Vec::with_capacity(n);
        let mut i: usize = 0;
        while i < n
            invariant
                i <= n,
                key@.len() == i,
            decreases n - i,
        {
            key.push(0u8);
            i += 1;
        }
        fill_random(rng, &mut key);
        Secret { value, key }
    }

    /// The contributed value.
    pub fn value(&self) -> (r: u64)
        ensures
            r == self@.0,
    {
        self.value
    }

    /// A copy of the key.
    pub fn key(&self) -> (r: Vec<u8>)
        ensures
            r@ == self@.1,
            r@.len() == KEY_SIZE,
    {
        proof {
            use_type_invariant(self);
        }
        self.key.clone()
    }

    /// The `Commit` that is published before the reveal phase and against
    /// which this secret is validated.
    pub fn commit(&self) -> (r: Result<Commit, Error>)
        ensures
            r is Ok,
            r matches Ok(c) ==> c@ == commitment(self@.0, self@.1),
    {
        proof {
            use_type_invariant(self);
        }
        match encode_value(self.value) {
            Ok(bytes) => Ok(Commit::new(self.key.as_slice(), bytes.as_slice())),
            Err(_) => Err(Error::Serialize),
        }
    }

    /// Consumes the secret: its value if `commit` commits to it, compared in
    /// constant time, and `ValidationFailed` otherwise.
    pub fn validate(self, commit: &Commit) -> (r: Result<u64, RevealErrorKind>)
        ensures
            r == validated(self@.0, self@.1, commit@),
    {
        match self.commit() {
            Ok(mine) => {
                if mine.ct_eq(commit) {
                    Ok(self.value)
                } else {
                    Err(RevealErrorKind::ValidationFailed)
                }
            },
            Err(_) => Err(RevealErrorKind::ValidationFailed),
        }
    }

    /// The secret as bytes: the encoding of its value, then its key.
    pub fn to_bytes(&self) -> (r: Vec<u8>)
        ensures
            r@ == secret_to_bytes(self@.0, self@.1),
    {
        let mut r = encode_value(self.value).unwrap();
        let mut i: usize = 0;
        while i < self.key.len()
            invariant
                i <= self.key@.len(),
                r@ == le_bytes(self.value) + self.key@.subrange(0, i as int),
            decreases self.key@.len() - i,
        {
            r.push(self.key[i]);
            i += 1;
            assert(r@ =~= le_bytes(self.value) + self.key@.subrange(0, i as int));
        }
        assert(self.key@.subrange(0, i as int) =~= self.key@);
        r
    }

    /// The secret that `bytes` stand for; `None` unless `bytes` holds a
    /// value's encoding followed by a key.
    pub fn from_bytes(bytes: &[u8]) -> (r: Option<Secret>)
        ensures
            r is None <==> secret_from_bytes(bytes@) is None,
            r matches Some(s) ==> secret_from_bytes(bytes@) == Some(s@),
    {
        if bytes.len() != VALUE_SIZE + KEY_SIZE {
            return None;
        }
        match decode_value(bytes) {
            Ok(value) => {
                let key = copy_range(bytes, VALUE_SIZE, bytes.len());
                proof {
                    let p = bytes@.subrange(0, VALUE_SIZE as int);
                    let w = choose|w: u64| le_bytes(w) == p;
                    lemma_le_bytes_injective(w, value);
                }
                Some(Secret { value, key })
            },
            Err(_) => None,
        }
    }
}

/// The commit derived from a secret validates that same secret, and the
/// validation gives back its value.
pub proof fn lemma_commit_then_validate(value: u64, key: Seq<u8>)
    ensures
        validated(value, key, commitment(value, key)) == Ok::<u64, RevealErrorKind>(value),
{
}

/// Reading back the bytes of a secret gives the same value and key.
pub proof fn lemma_secret_bytes_round_trip(value: u64, key: Seq<u8>)
    requires
        key.len() == KEY_SIZE,
    ensures
        secret_from_bytes(secret_to_bytes(value, key)) == Some((value, key)),
{
    let b = secret_to_bytes(value, key);
    assert(b.subrange(0, VALUE_SIZE as int) =~= le_bytes(value));
    assert(b.subrange(VALUE_SIZE as int, b.len() as int) =~= key);
    let w = choose|w: u64| le_bytes(w) == b.subrange(0, VALUE_SIZE as int);
    lemma_le_bytes_injective(w, value);
}

} // verus!
