//! Collecting the per-tile fetch outcomes of one page, in grid order.
//!
//! Tile fetches complete in any order; the caller stores each outcome at its
//! tile's row-major index and hands the whole sequence here. Collection is
//! all-or-nothing: either every tile is present and the tiles come back in
//! index order, or the page fails with the first missing tile's error and
//! every already-fetched tile is discarded.

use crate::errors::PageError;
use vstd::prelude::*;

verus! {

/// Turns the per-tile outcomes of one page into the ordered tile sequence,
/// or into the page's failure. Position `i` of the result corresponds to
/// grid index `i` of the input. If any tile is missing, the whole page fails
/// with `TileFetchFailed` naming the first missing index.
#[verifier::loop_isolation(false)]
pub fn collect_tile_results(results: Vec<Option<Vec<u8>>>) -> (collected: Result<
    Vec<Vec<u8>>,
    PageError,
>)
    ensures
        collected is Ok <==> (forall|i: int| 0 <= i < results@.len() ==> results@[i] is Some),
        collected matches Ok(tiles) ==> tiles@.len() == results@.len() && (forall|i: int|
            0 <= i < results@.len() ==> tiles@[i] == results@[i]->0),
        collected matches Err(e) ==> (e matches PageError::TileFetchFailed { tile_index }
            && tile_index < results@.len() && results@[tile_index as int] is None && (forall|j: int|
            0 <= j < tile_index ==> results@[j] is Some)),
{
    let ghost all = results@;
    let mut remaining = results;
    let mut tiles: Vec<Vec<u8>> = Vec::new();
    while remaining.len() > 0
        invariant
            tiles@.len() + remaining@.len() == all.len(),
            remaining@ =~= all.subrange(tiles@.len() as int, all.len() as int),
            forall|j: int| #![trigger all[j]]
                0 <= j < tiles@.len() ==> all[j] is Some && tiles@[j] == all[j]->0,
        decreases remaining@.len(),
    {
        let ghost index = tiles@.len() as int;
        let head = remaining.remove(0);
        proof {
            assert(head == all[index]);
            assert(all.subrange(index, all.len() as int).remove(0) =~= all.subrange(
                index + 1,
                all.len() as int,
            ));
        }
        match head {
            Some(bytes) => {
                proof {
                    assert(all[index] is Some);
                }
                let ghost tiles_before = tiles@;
                tiles.push(bytes);
                proof {
                    assert(tiles@[index] == all[index]->0);
                    assert forall|j: int| #![trigger all[j]]
                        0 <= j < tiles@.len() implies all[j] is Some && tiles@[j] == all[j]->0 by {
                        if j < index {
                            assert(tiles@[j] == tiles_before[j]);
                        }
                    }
                }
            },
            None => {
                proof {
                    assert(all[index] is None);
                }
                return Err(PageError::TileFetchFailed { tile_index: tiles.len() });
            },
        }
    }
    Ok(tiles)
}

} // verus!
