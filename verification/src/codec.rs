//! What the lane takes from the SCALE codec.

use vstd::prelude::*;

verus! {

/// `parity_scale_codec::Error`, the reason why a payload could not be decoded. The lane carries it
/// to the dispatcher and never looks inside.
#[verifier::external_type_specification]
#[verifier::external_body]
pub struct ExCodecError(parity_scale_codec::Error);

/// Calls `parity_scale_codec::MaxEncodedLen::max_encoded_len` of `u64`, the type of a nonce. The
/// codec gives the size of the integer in memory, which is eight bytes.
#[verifier::external_body]
pub(crate) fn nonce_max_encoded_len() -> (len: usize)
    ensures
        len == 8,
{
    <u64 as parity_scale_codec::MaxEncodedLen>::max_encoded_len()
}

} // verus!
