//! The scalar generators' source of randomness.
//!
//! Every draw constructs a fresh, entropy-seeded generator, so repeated and
//! concurrent calls share no mutable state and impose no ordering on one
//! another.  Nothing can be promised about which value comes back, except
//! for the alphanumeric strings, whose length and alphabet the distribution
//! fixes.

use vstd::prelude::*;
use crate::document::alnum_char;
use rand::{Rng, SeedableRng};
use rand::distributions::{Alphanumeric, Standard};
use rand::rngs::StdRng;

verus! {

/// Relies on rand's `StdRng::from_entropy` and `Standard`: one uniformly
/// drawn `i32`; any value may come back.
#[verifier::external_body]
pub(crate) fn random_i32() -> i32 {
    StdRng::from_entropy().sample(Standard)
}

/// Relies on rand's `StdRng::from_entropy` and `Standard`: one uniformly
/// drawn `u32`; any value may come back.
#[verifier::external_body]
pub(crate) fn random_u32() -> u32 {
    StdRng::from_entropy().sample(Standard)
}

/// Relies on rand's `StdRng::from_entropy` and `Standard`: one fair `bool`;
/// either value may come back.
#[verifier::external_body]
pub(crate) fn random_bool() -> bool {
    StdRng::from_entropy().sample(Standard)
}

/// Relies on rand's `Alphanumeric` distribution: each sampled byte is an
/// ASCII letter or digit, and `sample_iter` yields one byte per draw, so
/// taking `len` of them gives a `len`-character alphanumeric string.
#[verifier::external_body]
pub(crate) fn random_alphanumeric(len: usize) -> (r: String)
    ensures
        r@.len() == len as nat,
        forall|i: int| 0 <= i < r@.len() ==> alnum_char(#[trigger] r@[i]),
{
    StdRng::from_entropy().sample_iter(Alphanumeric).take(len).map(char::from).collect()
}

} // verus!
