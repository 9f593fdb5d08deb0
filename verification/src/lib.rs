//! Reassembles a large page image that a remote server serves only as a grid
//! of fixed-size tiles: computes the tile grid for a page, plans the fetch of
//! every tile with retry/backoff under a bounded network budget, and composes
//! the decoded tiles into one contiguous output image under a separate
//! assembly budget.

use vstd::prelude::*;

pub mod assemble;
pub mod collect;
pub mod errors;
pub mod grid;
pub mod limiter;
pub mod pagespec;
pub mod pipeline;
pub mod request;
pub mod retry;
pub mod state;

verus! {

/// Remote-server addressing needed to build a tile-fetch URL.
pub struct Settings {
    pub iip_server_url: String,
    pub image_dir: String,
    pub object_data: String,
}

/// One page of the document, as the manifest describes it.
pub struct Page {
    pub zoom: u32,
    pub width: u32,
    pub height: u32,
    pub filename: String,
}

} // verus!
