//! Short-code generation: a fixed-length alias drawn from the alphanumeric
//! alphabet. Codes are random and not guaranteed unique across calls;
//! uniqueness, if needed, is the caller's concern.

use vstd::prelude::*;
use rand::Rng;

verus! {

/// The alphabet a short code is drawn from: `A`-`Z`, `a`-`z`, `0`-`9`.
pub open spec fn spec_is_alphanumeric(c: char) -> bool {
    ('A' <= c && c <= 'Z') || ('a' <= c && c <= 'z') || ('0' <= c && c <= '9')
}

/// Relies on rand's `Alphanumeric` distribution: every sample is one byte
/// out of `A`-`Z`, `a`-`z`, `0`-`9`, drawn uniformly.
#[verifier::external_body]
fn sample_alphanumeric() -> (r: String)
    ensures
        r@.len() == 1,
        spec_is_alphanumeric(r@[0]),
{
    let b: u8 = rand::thread_rng().sample(rand::distributions::Alphanumeric);
    String::from(char::from(b))
}

/// Produces a random alias of exactly `length` alphanumeric characters;
/// `length` 0 yields the empty string.
pub fn generate_random_characters(length: usize) -> (r: String)
    ensures
        r@.len() == length,
        forall|i: int| 0 <= i < r@.len() ==> spec_is_alphanumeric(r@[i]),
{
    let mut r = String::new();
    let mut i: usize = 0;
    while i < length
        invariant
            i <= length,
            r@.len() == i,
            forall|j: int| 0 <= j < r@.len() ==> spec_is_alphanumeric(r@[j]),
        decreases length - i,
    {
        let c = sample_alphanumeric();
        r.append(c.as_str());
        i = i + 1;
    }
    r
}

} // verus!
