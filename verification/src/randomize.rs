//! The randomize operation's draw of a formula variant.
//!
//! Randomizing the configuration draws fresh color and shape parameters
//! and one of the five formula variants. The variant draw is an integer
//! sample mapped over the closed list of variants; it lives here, with
//! the mapping pinned down. The real-valued draws are the caller's.

use rand::Rng;
use vstd::prelude::*;

use crate::state::FractalType;

verus! {

/// Relies on rand's `Rng::gen_range` on the thread-local generator: a
/// uniform draw from the half-open range below `n`. It panics only on
/// an empty range, which `n >= 1` rules out.
#[verifier::external_body]
fn sample_below(n: u32) -> (r: u32)
    requires
        n >= 1,
    ensures
        r < n,
{
    rand::thread_rng().gen_range(0..n)
}

/// The formula variant that a draw of `i` selects: the five variants in
/// declaration order, every out-of-range draw folded onto the last.
pub open spec fn fractal_type_of_index_spec(i: int) -> FractalType {
    if i == 0 {
        FractalType::Classic
    } else if i == 1 {
        FractalType::Spiral
    } else if i == 2 {
        FractalType::Flower
    } else if i == 3 {
        FractalType::Phoenix
    } else {
        FractalType::Butterfly
    }
}

/// Maps a draw to its formula variant.
pub fn fractal_type_of_index(i: u32) -> (t: FractalType)
    ensures
        t == fractal_type_of_index_spec(i as int),
{
    match i {
        0 => FractalType::Classic,
        1 => FractalType::Spiral,
        2 => FractalType::Flower,
        3 => FractalType::Phoenix,
        _ => FractalType::Butterfly,
    }
}

/// Draws one of the five formula variants, uniformly as far as the
/// generator is: whatever came back, the result is the variant its
/// index selects.
pub fn random_fractal_type() -> (t: FractalType)
    ensures
        exists|i: int| 0 <= i < 5 && t == fractal_type_of_index_spec(i),
{
    let i = sample_below(5);
    let t = fractal_type_of_index(i);
    proof {
        assert(0 <= (i as int) && (i as int) < 5 && t == fractal_type_of_index_spec(i as int));
    }
    t
}

} // verus!
