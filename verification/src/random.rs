//! Random bytes from the operating system's generator.
use vstd::prelude::*;
use ring::rand::SecureRandom;

verus! {

/// Fills `dest` with random bytes (`ring::rand::SecureRandom::fill` on a
/// `SystemRandom`); returns whether the generator succeeded. The length of
/// `dest` is kept; nothing is stated of the bytes, which come by chance.
#[verifier::external_body]
pub(crate) fn fill_random(dest: &mut Vec<u8>) -> (ok: bool)
    ensures
        final(dest)@.len() == old(dest)@.len(),
{
    ring::rand::SystemRandom::new().fill(dest.as_mut_slice()).is_ok()
}

/// `n` random bytes, or `None` if the generator failed.
pub fn random_bytes(n: usize) -> (r: Option<Vec<u8>>)
    ensures
        r matches Some(v) ==> v@.len() == n,
{
    let mut buf: Vec<u8> = Vec::new();
    let mut i: usize = 0;
    while i < n
        invariant
            i <= n,
            buf@.len() == i,
        decreases n - i,
    {
        buf.push(0u8);
        i = i + 1;
    }
    if fill_random(&mut buf) {
        Some(buf)
    } else {
        None
    }
}

} // verus!
