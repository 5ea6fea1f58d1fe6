//! Mapping escape-time iteration counts to grayscale colour channels.

use vstd::arithmetic::div_mod::{lemma_div_by_multiple, lemma_div_is_ordered, lemma_div_pos_is_pos};
use vstd::arithmetic::mul::{lemma_mul_inequality, lemma_mul_nonnegative};
use vstd::prelude::*;

verus! {

/// The grayscale intensity of a pixel whose point survived `iteration` of
/// the `max_iterations` allowed escape-time iterations: the ratio of the two,
/// scaled to the 8-bit range and truncated.
pub open spec fn gray_level(iteration: int, max_iterations: int) -> int {
    iteration * 255 / max_iterations
}

/// As long as the iteration count does not exceed the budget, the grayscale
/// level fits in a byte.
pub proof fn lemma_gray_level_in_range(iteration: int, max_iterations: int)
    requires
        0 <= iteration <= max_iterations,
        0 < max_iterations,
    ensures
        0 <= gray_level(iteration, max_iterations) <= 255,
{
    lemma_mul_nonnegative(iteration, 255);
    lemma_div_pos_is_pos(iteration * 255, max_iterations);
    lemma_mul_inequality(iteration, max_iterations, 255);
    lemma_div_is_ordered(iteration * 255, max_iterations * 255, max_iterations);
    lemma_div_by_multiple(255, max_iterations);
}

/// A higher iteration count never renders darker: the grayscale level is
/// monotone in the count.
pub proof fn lemma_gray_level_monotonic(lo: int, hi: int, max_iterations: int)
    requires
        0 <= lo <= hi,
        0 < max_iterations,
    ensures
        gray_level(lo, max_iterations) <= gray_level(hi, max_iterations),
{
    lemma_mul_inequality(lo, hi, 255);
    lemma_div_is_ordered(lo * 255, hi * 255, max_iterations);
}

/// A pixel whose count reaches the full budget is rendered at the brightest
/// level, pure white.
pub proof fn lemma_full_budget_is_white(max_iterations: int)
    requires
        0 < max_iterations,
    ensures
        gray_level(max_iterations, max_iterations) == 255,
{
    lemma_div_by_multiple(255, max_iterations);
}

/// With a budget of a single iteration, only the two extreme levels can
/// appear: a pixel is either black (escaped at once) or white (survived).
pub proof fn lemma_unit_budget_is_black_or_white(iteration: int)
    requires
        0 <= iteration <= 1,
    ensures
        gray_level(iteration, 1) == 0 || gray_level(iteration, 1) == 255,
{
}

/// A count that stays small against a large budget renders dark: the level
/// is bounded by that of the small count itself.
pub proof fn lemma_early_escape_is_dark(iteration: int, bound: int, max_iterations: int)
    requires
        0 <= iteration <= bound,
        0 < max_iterations,
    ensures
        gray_level(iteration, max_iterations) <= bound * 255 / max_iterations,
{
    lemma_gray_level_monotonic(iteration, bound, max_iterations);
}

/// The three colour channels of a pixel: the same grayscale level placed in
/// red, green and blue.
pub fn iteration_to_rgb(iteration: i32, max_iterations: i32) -> (rgb: [u8; 3])
    requires
        0 <= iteration <= max_iterations,
        0 < max_iterations,
    ensures
        forall|j: int|
            0 <= j < 3 ==> rgb[j] == gray_level(iteration as int, max_iterations as int),
{
    proof {
        lemma_gray_level_in_range(iteration as int, max_iterations as int);
    }
    let g: u8 = ((iteration as u64) * 255 / (max_iterations as u64)) as u8;
    [g, g, g]
}

} // verus!
