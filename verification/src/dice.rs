//! The die.

use rand::Rng;
use vstd::prelude::*;

verus! {

/// The lowest face of the die.
pub const DIE_MIN: u32 = 1;

/// The highest face of the die.
pub const DIE_MAX: u32 = 6;

/// A number drawn by `rand::Rng::gen_range` over `low..=high` from the
/// generator that `rand::thread_rng` hands out.
///
/// Trusted, not proved: the number lies in the range. Nothing is said of which
/// number it is, and two draws may differ. `gen_range` panics on an empty
/// range, which `low <= high` rules out; `thread_rng` panics where the
/// operating system can give it no seed.
#[verifier::external_body]
fn random_between(low: u32, high: u32) -> (drawn: u32)
    requires
        low <= high,
    ensures
        low <= drawn <= high,
{
    rand::thread_rng().gen_range(low..=high)
}

/// One throw of the die: one of the faces [`DIE_MIN`] to [`DIE_MAX`].
pub fn throw_die() -> (face: u32)
    ensures
        DIE_MIN <= face <= DIE_MAX,
{
    random_between(DIE_MIN, DIE_MAX)
}

} // verus!
