//! Page-level failure conditions. Any failure while fetching or assembling a
//! page aborts that page's result entirely: no partial image ever escapes.

use vstd::prelude::*;

verus! {

/// Why producing one page's image failed. Each variant that concerns a single
/// tile names that tile's row-major grid index.
#[derive(Clone, Copy, Debug, PartialEq, Eq, Structural)]
pub enum PageError {
    /// A tile's fetch still failed after the last retry attempt.
    TileFetchFailed { tile_index: usize },
    /// A tile's bytes arrived but could not be decoded as an image.
    TileDecodeFailed { tile_index: usize },
    /// A decoded tile does not fit inside the output buffer at its grid
    /// placement.
    CompositionFailed { tile_index: usize },
    /// The composed full-resolution buffer could not be encoded into the
    /// output format.
    EncodingFailed,
}

impl PageError {
    /// Short description of the failure, for callers that report it.
    pub fn describe(&self) -> (message: &'static str)
        ensures
            message@.len() > 0,
    {
        proof {
            reveal_strlit("tile fetch exhausted all retry attempts");
            reveal_strlit("tile bytes could not be decoded");
            reveal_strlit("decoded tile does not fit its grid placement");
            reveal_strlit("composed page could not be encoded");
        }
        match self {
            PageError::TileFetchFailed { .. } => "tile fetch exhausted all retry attempts",
            PageError::TileDecodeFailed { .. } => "tile bytes could not be decoded",
            PageError::CompositionFailed { .. } => "decoded tile does not fit its grid placement",
            PageError::EncodingFailed => "composed page could not be encoded",
        }
    }
}

/// A page-range specifier did not parse.
#[derive(Clone, Copy, Debug, PartialEq, Eq, Structural)]
pub enum PageSpecError {
    /// Some piece of the specifier is not a valid unsigned number.
    InvalidNumber,
}

} // verus!
