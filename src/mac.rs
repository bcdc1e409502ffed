//! The keyed digest that binds and hides a committed value: HMAC-SHA-512.
use crypto_mac::generic_array::GenericArray;
use crypto_mac::{Mac, MacResult};
use hmac::Hmac;
use sha2::Sha512;
use typenum::Unsigned;
use vstd::prelude::*;

verus! {

/// Length in bytes of the key of the keyed digest (the SHA-512 block size).
pub const KEY_SIZE: usize = 128;

/// Length in bytes of a digest.
pub const OUTPUT_SIZE: usize = 64;

/// HMAC-SHA-512 of `msg` under `key`.
pub uninterp spec fn hmac_sha512(key: Seq<u8>, msg: Seq<u8>) -> Seq<u8>;

/// Relies on typenum's `Unsigned::to_usize` on the key size of `Hmac<Sha512>`,
/// which crypto-mac defines as SHA-512's block size, `U128`.
#[verifier::external_body]
pub(crate) fn mac_key_size() -> (r: usize)
    ensures
        r == KEY_SIZE,
{
    <Hmac<Sha512> as Mac>::KeySize::to_usize()
}

/// Relies on `Mac::new`, `Mac::input` and `Mac::result` of `Hmac<Sha512>`:
/// the HMAC-SHA-512 code of `data` under `key`, 64 bytes long.
/// `GenericArray::from_slice` panics unless `key` has the block size.
#[verifier::external_body]
pub(crate) fn hmac_digest(key: &[u8], data: &[u8]) -> (r: Vec<u8>)
    requires
        key@.len() == KEY_SIZE,
    ensures
        r@ == hmac_sha512(key@, data@),
        r@.len() == OUTPUT_SIZE,
{
    let mut mac = <Hmac<Sha512> as Mac>::new(GenericArray::from_slice(key));
    mac.input(data);
    mac.result().code().to_vec()
}

/// Relies on the equality of crypto-mac's `MacResult`, which compares two
/// codes byte by byte in constant time through subtle's `ConstantTimeEq`.
/// `GenericArray::clone_from_slice` panics unless each slice has the output size.
#[verifier::external_body]
pub(crate) fn digests_equal(a: &[u8], b: &[u8]) -> (r: bool)
    requires
        a@.len() == OUTPUT_SIZE,
        b@.len() == OUTPUT_SIZE,
    ensures
        r == (a@ == b@),
{
    let x: MacResult<<Hmac<Sha512> as Mac>::OutputSize> = MacResult::new(
        GenericArray::clone_from_slice(a),
    );
    let y: MacResult<<Hmac<Sha512> as Mac>::OutputSize> = MacResult::new(
        GenericArray::clone_from_slice(b),
    );
    x == y
}

} // verus!
