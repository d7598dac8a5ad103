//! Random secret generation for authorization codes and opaque tokens.

use vstd::prelude::*;

verus! {

/// An ASCII alphanumeric code point: 0-9, A-Z or a-z.
pub open spec fn spec_is_alphanumeric_ascii(c: char) -> bool {
    ||| (48 <= c as u32 && c as u32 <= 57)
    ||| (65 <= c as u32 && c as u32 <= 90)
    ||| (97 <= c as u32 && c as u32 <= 122)
}

/// Relies on rand's `Alphanumeric` distribution through
/// `DistString::sample_string`: the sample holds exactly `len` characters,
/// each drawn from the ASCII alphanumeric alphabet.  Nothing is assumed
/// about which characters come out: every caller must hold for every
/// possible sample.
#[verifier::external_body]
pub fn random_alphanumeric(len: usize) -> (r: String)
    ensures
        r@.len() == len as int,
        forall|i: int| 0 <= i < r@.len() ==> spec_is_alphanumeric_ascii(#[trigger] r@[i]),
{
    rand::distributions::DistString::sample_string(
        &rand::distributions::Alphanumeric,
        &mut rand::thread_rng(),
        len,
    )
}

} // verus!
