//! The renderer: the raster traversal order and the filling of a pixel
//! buffer with RGBA8 bytes from per-pixel escape counts.
//!
//! A render call walks the pixels row by row, top row first. Each pixel is
//! identified by its integer offsets from the image centre: the horizontal
//! offset runs over `-width/2 .. width/2` and the vertical offset over
//! `-height/2 .. height/2`, both under truncating division, so an odd
//! dimension leaves its extra column or row uncovered. The escape-time
//! iteration that turns an offset pair into an iteration count runs in
//! floating point outside this library; [`calculate`] takes those counts
//! and writes the bytes of the image.

use crate::color::{gray_level, iteration_to_rgb, lemma_gray_level_in_range};
use vstd::arithmetic::div_mod::{
    lemma_div_pos_is_pos, lemma_fundamental_div_mod_converse_div,
    lemma_fundamental_div_mod_converse_mod, lemma_mod_division_less_than_divisor,
};
use vstd::arithmetic::mul::{
    lemma_mul_basics, lemma_mul_is_commutative, lemma_mul_is_distributive_add_other_way,
};
use vstd::prelude::*;

verus! {

/// How many pixel columns one render call covers for a given width.
pub open spec fn cols(width: int) -> int {
    2 * (width / 2)
}

/// How many pixel rows one render call covers for a given height.
pub open spec fn rows(height: int) -> int {
    2 * (height / 2)
}

/// How many pixels one render call covers.
pub open spec fn pixel_count(width: int, height: int) -> int {
    rows(height) * cols(width)
}

/// The horizontal centre offset of the `k`-th pixel in raster order.
pub open spec fn x_offset(width: int, k: int) -> int {
    k % cols(width) - width / 2
}

/// The vertical centre offset of the `k`-th pixel in raster order.
pub open spec fn y_offset(width: int, height: int, k: int) -> int {
    k / cols(width) - height / 2
}

/// The raster traversal of one render call: the centre offsets `(x, y)` of
/// every covered pixel, row by row from the top row, left to right within a
/// row.
pub fn pixel_offsets(width: i32, height: i32) -> (offsets: Vec<(i32, i32)>)
    requires
        0 <= width,
        0 <= height,
    ensures
        offsets@.len() == pixel_count(width as int, height as int),
        forall|k: int|
            0 <= k < offsets@.len() ==> (#[trigger] offsets@[k]).0 == x_offset(width as int, k)
                && offsets@[k].1 == y_offset(width as int, height as int, k),
{
    let half_width: i32 = width / 2;
    let half_height: i32 = height / 2;
    let ghost c: int = cols(width as int);
    let mut offsets: Vec<(i32, i32)> = Vec::new();
    let mut y: i32 = -half_height;
    proof {
        lemma_mul_basics(c);
    }
    while y < half_height
        invariant
            0 <= half_width == width as int / 2,
            0 <= half_height == height as int / 2,
            c == cols(width as int),
            -half_height <= y <= half_height,
            offsets@.len() == (y + half_height) * c,
            forall|k: int|
                0 <= k < offsets@.len() ==> (#[trigger] offsets@[k]).0 == x_offset(width as int, k)
                    && offsets@[k].1 == y_offset(width as int, height as int, k),
        decreases half_height - y,
    {
        let mut x: i32 = -half_width;
        while x < half_width
            invariant
                0 <= half_width == width as int / 2,
                0 <= half_height == height as int / 2,
                c == cols(width as int),
                -half_height <= y < half_height,
                -half_width <= x <= half_width,
                offsets@.len() == (y + half_height) * c + (x + half_width),
                forall|k: int|
                    0 <= k < offsets@.len() ==> (#[trigger] offsets@[k]).0 == x_offset(width as int, k)
                        && offsets@[k].1 == y_offset(width as int, height as int, k),
            decreases half_width - x,
        {
            proof {
                let k: int = (y + half_height) * c + (x + half_width);
                lemma_fundamental_div_mod_converse_mod(k, c, y + half_height, x + half_width);
                lemma_fundamental_div_mod_converse_div(k, c, y + half_height, x + half_width);
            }
            offsets.push((x, y));
            x = x + 1;
        }
        proof {
            lemma_mul_is_distributive_add_other_way(c, y + half_height, 1);
            lemma_mul_basics(c);
        }
        y = y + 1;
    }
    offsets
}

/// One byte of the rendered image: pixels lie four bytes apart, the first
/// three channels of a pixel carry its grayscale level and the fourth its
/// alpha, always fully opaque.
pub open spec fn rendered_byte(counts: Seq<i32>, max_iterations: int, i: int) -> u8 {
    if i % 4 == 3 {
        255u8
    } else {
        gray_level(counts[i / 4] as int, max_iterations) as u8
    }
}

/// The bytes of a whole rendered image: four bytes per escape count, in the
/// order the counts come in.
pub open spec fn rendered_bytes(counts: Seq<i32>, max_iterations: int) -> Seq<u8> {
    Seq::new((counts.len() * 4) as nat, |i: int| rendered_byte(counts, max_iterations, i))
}

/// The renderer never covers more than the nominal image area of
/// `width * height` pixels; with an odd dimension it covers less.
pub proof fn lemma_pixel_count_within_area(width: int, height: int)
    requires
        0 <= width,
        0 <= height,
    ensures
        0 <= pixel_count(width, height) <= width * height,
{
    assert(0 <= rows(height) <= height);
    assert(0 <= cols(width) <= width);
    assert(0 <= rows(height) * cols(width) <= height * width) by (nonlinear_arith)
        requires
            0 <= rows(height) <= height,
            0 <= cols(width) <= width,
    ;
    lemma_mul_is_commutative(height, width);
}

/// With both dimensions even, one render call covers the image in full: it
/// writes exactly `width * height * 4` bytes, four per pixel.
pub proof fn lemma_even_dimensions_cover_fully(
    width: int,
    height: int,
    counts: Seq<i32>,
    max_iterations: int,
)
    requires
        0 <= width,
        0 <= height,
        width % 2 == 0,
        height % 2 == 0,
        counts.len() == pixel_count(width, height),
    ensures
        rendered_bytes(counts, max_iterations).len() == width * height * 4,
{
    assert(rows(height) == height);
    assert(cols(width) == width);
    lemma_mul_is_commutative(height, width);
}

/// Every rendered image is fully opaque: each fourth byte, the alpha
/// channel of its pixel, is 255.
pub proof fn lemma_alpha_opaque(counts: Seq<i32>, max_iterations: int)
    ensures
        forall|i: int|
            0 <= i < rendered_bytes(counts, max_iterations).len() && i % 4 == 3
                ==> rendered_bytes(counts, max_iterations)[i] == 255u8,
{
}

/// Rendering is deterministic: the output bytes are a function of the
/// escape counts, the iteration budget and the untouched tail alone, with
/// no hidden state, so any two buffers produced by [`calculate`] from
/// identical inputs are byte-identical.
pub proof fn lemma_render_deterministic(
    counts: Seq<i32>,
    max_iterations: int,
    out_a: Seq<u8>,
    out_b: Seq<u8>,
    rest: Seq<u8>,
)
    requires
        out_a == rendered_bytes(counts, max_iterations) + rest,
        out_b == rendered_bytes(counts, max_iterations) + rest,
    ensures
        out_a == out_b,
{
}

/// Every covered pixel lies in the centred window that one render call
/// walks: horizontal offsets in `-width/2 .. width/2` and vertical offsets
/// in `-height/2 .. height/2`, both under truncating division.
pub proof fn lemma_offsets_lie_in_window(width: int, height: int, k: int)
    requires
        0 <= width,
        0 <= height,
        0 <= k < pixel_count(width, height),
    ensures
        -(width / 2) <= x_offset(width, k) < width / 2,
        -(height / 2) <= y_offset(width, height, k) < height / 2,
{
    let r: int = rows(height);
    let c: int = cols(width);
    assert(0 < c && 0 < r) by (nonlinear_arith)
        requires
            0 <= c,
            0 <= r,
            0 <= k < r * c,
    ;
    lemma_mod_division_less_than_divisor(k, c);
    lemma_div_pos_is_pos(k, c);
    assert(k / c < r) by (nonlinear_arith)
        requires
            0 <= k < r * c,
            0 < c,
    ;
}

/// Fills the front of `buf` with the image that the escape counts in
/// `counts` describe, one RGBA8 pixel per count in raster order; the bytes
/// past the image are left untouched. The counts come from the escape-time
/// iteration run over [`pixel_offsets`], one count per covered pixel, each
/// at most the budget `max_iterations`.
pub fn calculate(
    buf: &mut Vec<u8>,
    width: i32,
    height: i32,
    max_iterations: i32,
    counts: &Vec<i32>,
)
    requires
        0 <= width,
        0 <= height,
        0 < max_iterations,
        counts@.len() == pixel_count(width as int, height as int),
        forall|k: int| 0 <= k < counts@.len() ==> 0 <= #[trigger] counts@[k] <= max_iterations,
        old(buf)@.len() >= counts@.len() * 4,
    ensures
        final(buf)@.len() == old(buf)@.len(),
        final(buf)@ == rendered_bytes(counts@, max_iterations as int) + old(buf)@.skip(
            counts@.len() * 4 as int,
        ),
{
    let ghost orig: Seq<u8> = buf@;
    let total: usize = buf.len();
    let pixels: usize = counts.len();
    let mut k: usize = 0;
    while k < pixels
        invariant
            0 <= k <= pixels == counts@.len(),
            0 < max_iterations,
            forall|j: int| 0 <= j < counts@.len() ==> 0 <= #[trigger] counts@[j] <= max_iterations,
            orig.len() >= counts@.len() * 4,
            orig.len() == total,
            buf@.len() == orig.len(),
            forall|i: int|
                0 <= i < 4 * k ==> buf@[i] == rendered_byte(
                    counts@,
                    max_iterations as int,
                    i,
                ),
            forall|i: int| 4 * k <= i < orig.len() ==> buf@[i] == orig[i],
        decreases counts@.len() - k,
    {
        let rgb = iteration_to_rgb(counts[k], max_iterations);
        proof {
            lemma_gray_level_in_range(counts@[k as int] as int, max_iterations as int);
        }
        buf.set(4 * k, rgb[0]);
        buf.set(4 * k + 1, rgb[1]);
        buf.set(4 * k + 2, rgb[2]);
        buf.set(4 * k + 3, 255u8);
        k = k + 1;
    }
    proof {
        assert(buf@ =~= rendered_bytes(counts@, max_iterations as int) + orig.skip(
            counts@.len() * 4 as int,
        ));
    }
}

} // verus!
