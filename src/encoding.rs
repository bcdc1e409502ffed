//! The deterministic encoding of a contributed value: bincode's default
//! fixed-width, little-endian layout.
use vstd::prelude::*;

verus! {

/// Number of bytes in the encoding of a value.
pub const VALUE_SIZE: usize = 8;

/// The eight little-endian bytes of `v`.
pub open spec fn le_bytes(v: u64) -> Seq<u8> {
    seq![
        v as u8,
        (v >> 8u64) as u8,
        (v >> 16u64) as u8,
        (v >> 24u64) as u8,
        (v >> 32u64) as u8,
        (v >> 40u64) as u8,
        (v >> 48u64) as u8,
        (v >> 56u64) as u8,
    ]
}

/// Distinct values have distinct encodings.
pub proof fn lemma_le_bytes_injective(a: u64, b: u64)
    requires
        le_bytes(a) == le_bytes(b),
    ensures
        a == b,
{
    let (x, y) = (le_bytes(a), le_bytes(b));
    assert(x[0] == y[0] && x[1] == y[1] && x[2] == y[2] && x[3] == y[3]);
    assert(x[4] == y[4] && x[5] == y[5] && x[6] == y[6] && x[7] == y[7]);
    assert(a == b) by (bit_vector)
        requires
            a as u8 == b as u8,
            (a >> 8u64) as u8 == (b >> 8u64) as u8,
            (a >> 16u64) as u8 == (b >> 16u64) as u8,
            (a >> 24u64) as u8 == (b >> 24u64) as u8,
            (a >> 32u64) as u8 == (b >> 32u64) as u8,
            (a >> 40u64) as u8 == (b >> 40u64) as u8,
            (a >> 48u64) as u8 == (b >> 48u64) as u8,
            (a >> 56u64) as u8 == (b >> 56u64) as u8,
    ;
}

/// A copy of the bytes of `b` from `start` up to `end`.
pub(crate) fn copy_range(b: &[u8], start: usize, end: usize) -> (r: Vec<u8>)
    requires
        start <= end <= b@.len(),
    ensures
        r@ == b@.subrange(start as int, end as int),
{
    let mut r: Vec<u8> = Vec::with_capacity(end - start);
    let mut i: usize = start;
    while i < end
        invariant
            start <= i <= end <= b@.len(),
            r@ == b@.subrange(start as int, i as int),
        decreases end - i,
    {
        r.push(b[i]);
        i += 1;
        assert(r@ =~= b@.subrange(start as int, i as int));
    }
    r
}

#[verifier::external_type_specification]
#[verifier::external_body]
pub struct ExBincodeErrorKind(bincode::ErrorKind);

/// Relies on `bincode::serialize`: with the default options a `u64` is
/// written as eight little-endian bytes, and writing into a `Vec` under no
/// size limit does not fail.
#[verifier::external_body]
pub(crate) fn encode_value(v: u64) -> (r: Result<Vec<u8>, bincode::Error>)
    ensures
        r is Ok,
        r is Ok ==> r->Ok_0@ == le_bytes(v),
{
    bincode::serialize(&v)
}

/// Relies on `bincode::deserialize`: with the default options a `u64` is read
/// from the first eight bytes, little-endian, trailing bytes being allowed;
/// fewer than eight bytes is an error.
#[verifier::external_body]
pub(crate) fn decode_value(b: &[u8]) -> (r: Result<u64, bincode::Error>)
    ensures
        match r {
            Ok(v) => b@.len() >= VALUE_SIZE && le_bytes(v) == b@.subrange(0, VALUE_SIZE as int),
            Err(_) => b@.len() < VALUE_SIZE,
        },
{
    bincode::deserialize(b)
}

} // verus!
