//! One page, end to end: the collected per-tile fetch outcomes become either
//! the page's finished image or its single page-level failure.
//!
//! The caller launches every tile fetch for the page (under the network
//! limiter), stores each outcome at its tile's row-major index, and hands
//! the whole sequence here once all fetches have settled; decoding,
//! composing and encoding then run under the assembly limiter. A failed
//! fetch fails the whole page — tiles that already succeeded are discarded,
//! and no partial image is ever produced.

use crate::assemble::{assembly_outcome, concat_jpeg_tile, encoded_views};
use crate::collect::collect_tile_results;
use crate::errors::PageError;
use vstd::prelude::*;

verus! {

/// The byte buffers of the successfully fetched tiles, in grid order.
pub open spec fn fetched_views(results: Seq<Option<Vec<u8>>>) -> Seq<Seq<u8>> {
    Seq::new(results.len(), |i: int| results[i]->0@)
}

/// Every tile fetch of the page succeeded.
pub open spec fn all_tiles_fetched(results: Seq<Option<Vec<u8>>>) -> bool {
    forall|i: int| 0 <= i < results.len() ==> (#[trigger] results[i]) is Some
}

/// Produces one page's finished image from its per-tile fetch outcomes:
/// position `i` of `results` holds what the fetch of grid index `i`
/// returned, or `None` where that fetch exhausted its retries. If any tile
/// is missing the page fails with `TileFetchFailed` naming the first
/// missing index; otherwise the result is exactly what the assembly stage
/// promises for the fetched tile buffers (see `assembly_outcome`).
pub fn produce_page(width: u32, height: u32, results: Vec<Option<Vec<u8>>>) -> (result: Result<
    Vec<u8>,
    PageError,
>)
    requires
        width >= 1,
        height >= 1,
        3 * width * height <= usize::MAX,
    ensures
        (result matches Err(e) ==> (e matches PageError::TileFetchFailed { tile_index }
            ==> tile_index < results@.len() && results@[tile_index as int] is None && (forall|
            j: int,
        | 0 <= j < tile_index ==> (#[trigger] results@[j]) is Some))),
        !all_tiles_fetched(results@) ==> (result matches Err(e) && e matches
            PageError::TileFetchFailed { .. }),
        all_tiles_fetched(results@) ==> assembly_outcome(
            width as int,
            height as int,
            fetched_views(results@),
            result,
        ),
{
    let ghost outcomes = results@;
    let tiles = match collect_tile_results(results) {
        Ok(tiles) => tiles,
        Err(e) => {
            return Err(e);
        },
    };
    proof {
        assert(encoded_views(tiles@) =~= fetched_views(outcomes));
    }
    concat_jpeg_tile(width, height, &tiles)
}

} // verus!
