use vstd::prelude::*;

verus! {

/// Relies on zeroize's `Zeroize` impl for `Vec<u8>`: it overwrites the
/// buffer's contents and its spare capacity with zeroes and then clears it,
/// so the buffer comes back empty.
#[verifier::external_body]
pub(crate) fn wipe_bytes(buf: &mut Vec<u8>)
    ensures
        final(buf)@.len() == 0,
{
    zeroize::Zeroize::zeroize(buf);
}

} // verus!
