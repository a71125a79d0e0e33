use base64::Engine;
use vstd::prelude::*;

verus! {

/// What Base64 encoding (standard alphabet, with padding) makes of bytes.
pub uninterp spec fn base64_of(bytes: Seq<u8>) -> Seq<char>;

/// Relies on `base64::engine::general_purpose::STANDARD.encode`: padded
/// standard Base64, four characters for each started group of three bytes.
/// The length computation panics on overflow, which the bound rules out.
#[verifier::external_body]
fn base64_encode(bytes: &Vec<u8>) -> (r: String)
    requires
        bytes.len() <= usize::MAX / 2,
    ensures
        r@ == base64_of(bytes@),
        r@.len() == 4 * ((bytes.len() + 2) / 3),
{
    base64::engine::general_purpose::STANDARD.encode(bytes)
}

/// Relies on `rand::random`: a value drawn from the thread-local generator;
/// nothing is promised of it.
pub assume_specification<T>[ rand::random::<T> ]() -> (r: T)
    where
        rand::distributions::Standard: rand::distributions::Distribution<T>,
;

/// The number of random bytes in a tunnel secret.
pub const SECRET_BYTES: usize = 32;

/// A fresh tunnel secret: thirty-two random bytes in padded Base64.
pub fn new_tunnel_secret() -> (r: String)
    ensures
        r@.len() == 44,
        exists|b: Seq<u8>| b.len() == SECRET_BYTES && r@ == base64_of(b),
{
    let mut bytes: Vec<u8> = Vec::new();
    let mut i: usize = 0;
    while i < SECRET_BYTES
        invariant
            i <= SECRET_BYTES,
            bytes.len() == i,
        decreases SECRET_BYTES - i,
    {
        let b: u8 = rand::random::<u8>();
        bytes.push(b);
        i = i + 1;
    }
    let r = base64_encode(&bytes);
    assert(bytes@.len() == SECRET_BYTES);
    r
}

} // verus!
