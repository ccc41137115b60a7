use vstd::prelude::*;

verus! {

/// Relies on rand's `OsRng::try_fill_bytes`: on success the buffer has been
/// filled to the requested length from the operating system's secure random
/// source. Nothing can be promised of the bytes themselves.
#[verifier::external_body]
pub(crate) fn try_random_bytes(n: usize) -> (r: Result<Vec<u8>, ()>)
    ensures
        r matches Ok(b) ==> b@.len() == n,
{
    let mut buf = vec![0u8; n];
    match rand::RngCore::try_fill_bytes(&mut rand::rngs::OsRng, buf.as_mut_slice()) {
        Ok(()) => Ok(buf),
        Err(_) => Err(()),
    }
}

} // verus!
