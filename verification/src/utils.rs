//! Small helpers of the optimizer: the sanitizer of undefined probes and the
//! source of random signs.

use vstd::prelude::*;
use rand::rngs::StdRng;
use rand::Rng;
use crate::ieee::{is_nan, nan, ZERO};
use crate::vec::LANES;

verus! {

/// The standard generator of the `rand` crate; nothing of its inner state
/// is visible here.
#[verifier::external_type_specification]
#[verifier::external_body]
pub struct ExStdRng(StdRng);

/// Draws one `bool` from the generator with `Rng::gen::<bool>`, which
/// advances the generator by one 32-bit word. The draw depends on the
/// generator's state, which is opaque here, so nothing is claimed of the
/// value.
#[verifier::external_body]
fn flip(rng: &mut StdRng) -> (heads: bool) {
    rng.gen::<bool>()
}

/// The sign that one random bit stands for: `1` for `true`, `-1` for `false`.
pub fn sign(heads: bool) -> (s: i8)
    ensures
        s == (if heads { 1i8 } else { -1i8 }),
{
    if heads {
        1
    } else {
        -1
    }
}

/// One vector of random signs: four draws, in lane order, each mapped to
/// `1` or `-1`.
pub fn randsign(rng: &mut StdRng) -> (signs: [i8; 4])
    ensures
        forall|lane: int| 0 <= lane < LANES ==> signs[lane] == 1 || signs[lane] == -1,
{
    let first: i8 = sign(flip(rng));
    let second: i8 = sign(flip(rng));
    let third: i8 = sign(flip(rng));
    let fourth: i8 = sign(flip(rng));
    [first, second, third, fourth]
}

/// Replaces a value that is not a number by zero: a probe that fell outside
/// the feasible region carries no information about the gradient.
pub fn nz(f: u64) -> (r: u64)
    ensures
        r == (if nan(f) { ZERO } else { f }),
{
    if is_nan(f) {
        ZERO
    } else {
        f
    }
}

} // verus!
