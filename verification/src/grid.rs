//! Tile addressing: a page of `width x height` pixels is served as a grid of
//! fixed 256-unit square tiles, addressed row-major by a single index.

use vstd::arithmetic::div_mod::{
    lemma_div_plus_one, lemma_fundamental_div_mod, lemma_fundamental_div_mod_converse,
};
use vstd::prelude::*;

verus! {

/// Side length of every tile; edge tiles may decode to something smaller.
pub const TILE_SIZE: u32 = 256;

/// Ceiling division for non-negative `a` and positive `b`.
pub open spec fn ceil_div(a: int, b: int) -> int
    recommends
        a >= 0,
        b >= 1,
{
    (a + b - 1) / b
}

/// Column of the tile with the given row-major index.
pub open spec fn spec_x_index(index: int, horizontal_count: int) -> int
    recommends
        horizontal_count >= 1,
{
    index % horizontal_count
}

/// Row of the tile with the given row-major index.
pub open spec fn spec_y_index(index: int, horizontal_count: int) -> int
    recommends
        horizontal_count >= 1,
{
    index / horizontal_count
}

/// Row-major index of the tile in column `x_index`, row `y_index`.
pub open spec fn spec_tile_index(x_index: int, y_index: int, horizontal_count: int) -> int {
    y_index * horizontal_count + x_index
}

/// `ceil_div` really is the ceiling: the quotient covers `a`, and one tile
/// less would not.
pub proof fn lemma_ceil_div_is_ceiling(a: int, b: int) by (nonlinear_arith)
    requires
        a >= 1,
        b >= 1,
    ensures
        ceil_div(a, b) * b >= a,
        (ceil_div(a, b) - 1) * b < a,
        ceil_div(a, b) >= 1,
{
}

/// Grid shape for a page: `(horizontal_count, vertical_count)`, each the
/// ceiling of the page dimension over the 256-unit tile size.
pub fn tile_counts(width: u32, height: u32) -> (counts: (u32, u32))
    requires
        width >= 1,
        height >= 1,
    ensures
        counts.0 == ceil_div(width as int, TILE_SIZE as int),
        counts.1 == ceil_div(height as int, TILE_SIZE as int),
        1 <= counts.0 <= 0x100_0000,
        1 <= counts.1 <= 0x100_0000,
{
    proof {
        lemma_div_plus_one((width - 1) as int, TILE_SIZE as int);
        lemma_div_plus_one((height - 1) as int, TILE_SIZE as int);
    }
    let horizontal_count: u32 = (width - 1) / TILE_SIZE + 1;
    let vertical_count: u32 = (height - 1) / TILE_SIZE + 1;
    (horizontal_count, vertical_count)
}

/// Pixel origin `(x, y)` of the tile with the given row-major index.
pub fn tile_origin(index: u32, horizontal_count: u32) -> (origin: (u32, u32))
    requires
        1 <= horizontal_count <= 0x100_0000,
        spec_y_index(index as int, horizontal_count as int) < 0x100_0000,
    ensures
        origin.0 == spec_x_index(index as int, horizontal_count as int) * TILE_SIZE,
        origin.1 == spec_y_index(index as int, horizontal_count as int) * TILE_SIZE,
{
    let x_index: u32 = index % horizontal_count;
    let y_index: u32 = index / horizontal_count;
    (x_index * TILE_SIZE, y_index * TILE_SIZE)
}

/// Recovering `(x_index, y_index)` from a row-major index and re-encoding it
/// round-trips exactly, and the recovered coordinates lie inside the grid.
pub proof fn lemma_index_to_coords_roundtrip(index: int, horizontal_count: int, vertical_count: int)
    requires
        horizontal_count >= 1,
        vertical_count >= 1,
        0 <= index < horizontal_count * vertical_count,
    ensures
        0 <= spec_x_index(index, horizontal_count) < horizontal_count,
        0 <= spec_y_index(index, horizontal_count) < vertical_count,
        spec_tile_index(
            spec_x_index(index, horizontal_count),
            spec_y_index(index, horizontal_count),
            horizontal_count,
        ) == index,
{
    lemma_fundamental_div_mod(index, horizontal_count);
    assert(spec_y_index(index, horizontal_count) < vertical_count) by (nonlinear_arith)
        requires
            horizontal_count >= 1,
            vertical_count >= 1,
            0 <= index < horizontal_count * vertical_count,
            index == horizontal_count * spec_y_index(index, horizontal_count) + index
                % horizontal_count,
            0 <= index % horizontal_count < horizontal_count,
    {
    }
    assert(horizontal_count * (index / horizontal_count) == (index / horizontal_count)
        * horizontal_count) by (nonlinear_arith);
}

/// Encoding in-range `(x_index, y_index)` as a row-major index and decoding
/// it again round-trips exactly, and the index lies inside the grid.
pub proof fn lemma_coords_to_index_roundtrip(
    x_index: int,
    y_index: int,
    horizontal_count: int,
    vertical_count: int,
)
    requires
        horizontal_count >= 1,
        vertical_count >= 1,
        0 <= x_index < horizontal_count,
        0 <= y_index < vertical_count,
    ensures
        0 <= spec_tile_index(x_index, y_index, horizontal_count) < horizontal_count
            * vertical_count,
        spec_x_index(spec_tile_index(x_index, y_index, horizontal_count), horizontal_count)
            == x_index,
        spec_y_index(spec_tile_index(x_index, y_index, horizontal_count), horizontal_count)
            == y_index,
{
    let index = spec_tile_index(x_index, y_index, horizontal_count);
    assert(0 <= index < horizontal_count * vertical_count) by (nonlinear_arith)
        requires
            horizontal_count >= 1,
            vertical_count >= 1,
            0 <= x_index < horizontal_count,
            0 <= y_index < vertical_count,
            index == y_index * horizontal_count + x_index,
    {
    }
    lemma_fundamental_div_mod_converse(index, horizontal_count, y_index, x_index);
}

} // verus!
