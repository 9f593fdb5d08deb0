use tilebook::assemble::{compose_tiles, DecodedTile};
use tilebook::errors::PageError;

fn solid_tile(width: u32, height: u32, rgb: [u8; 3]) -> DecodedTile {
    let mut pixels = Vec::with_capacity((3 * width * height) as usize);
    for _ in 0..width * height {
        pixels.extend_from_slice(&rgb);
    }
    DecodedTile {
        width,
        height,
        pixels,
    }
}

fn pixel(buffer: &[u8], width: u32, x: u32, y: u32) -> [u8; 3] {
    let offset = (3 * (y * width + x)) as usize;
    [buffer[offset], buffer[offset + 1], buffer[offset + 2]]
}

#[test]
fn four_quadrants_match_their_tiles() {
    // A 512x512 page from a 2x2 grid of solid 256x256 tiles: each quadrant
    // of the output must match its tile's pixel content exactly.
    let colors = [[255, 0, 0], [0, 255, 0], [0, 0, 255], [255, 255, 255]];
    let tiles: Vec<DecodedTile> = colors.iter().map(|c| solid_tile(256, 256, *c)).collect();
    let buffer = compose_tiles(512, 512, &tiles).expect("composition should succeed");
    assert_eq!(buffer.len(), 3 * 512 * 512);
    for y in 0..512u32 {
        for x in 0..512u32 {
            let quadrant = (y / 256) * 2 + x / 256;
            assert_eq!(
                pixel(&buffer, 512, x, y),
                colors[quadrant as usize],
                "pixel ({x},{y})"
            );
        }
    }
}

#[test]
fn edge_tiles_sit_flush_and_keep_their_extent() {
    // A 300x300 page: 2x2 grid with 44-pixel right/bottom edge tiles placed
    // flush at (256,0), (0,256) and (256,256).
    let colors = [[10, 10, 10], [20, 20, 20], [30, 30, 30], [40, 40, 40]];
    let tiles = vec![
        solid_tile(256, 256, colors[0]),
        solid_tile(44, 256, colors[1]),
        solid_tile(256, 44, colors[2]),
        solid_tile(44, 44, colors[3]),
    ];
    let buffer = compose_tiles(300, 300, &tiles).expect("composition should succeed");
    assert_eq!(buffer.len(), 3 * 300 * 300);
    assert_eq!(pixel(&buffer, 300, 255, 0), colors[0]);
    assert_eq!(pixel(&buffer, 300, 256, 0), colors[1]);
    assert_eq!(pixel(&buffer, 300, 299, 255), colors[1]);
    assert_eq!(pixel(&buffer, 300, 0, 256), colors[2]);
    assert_eq!(pixel(&buffer, 300, 255, 299), colors[2]);
    assert_eq!(pixel(&buffer, 300, 256, 256), colors[3]);
    assert_eq!(pixel(&buffer, 300, 299, 299), colors[3]);
}

#[test]
fn uncovered_pixels_stay_zero() {
    // One 100x100 tile on a 300x300 page (2x2 grid): everything outside the
    // tile's own extent stays zero.
    let tiles = vec![solid_tile(100, 100, [200, 100, 50])];
    let buffer = compose_tiles(300, 300, &tiles).expect("composition should succeed");
    assert_eq!(pixel(&buffer, 300, 99, 99), [200, 100, 50]);
    assert_eq!(pixel(&buffer, 300, 100, 100), [0, 0, 0]);
    assert_eq!(pixel(&buffer, 300, 299, 299), [0, 0, 0]);
}

#[test]
fn oversized_edge_tile_fails_composition() {
    // Tile index 1 sits at x = 256; 50 pixels of width overrun a 300-pixel
    // page, which is a composition failure naming that tile.
    let tiles = vec![
        solid_tile(256, 256, [1, 2, 3]),
        solid_tile(50, 256, [4, 5, 6]),
    ];
    let result = compose_tiles(300, 300, &tiles);
    assert_eq!(result, Err(PageError::CompositionFailed { tile_index: 1 }));
}

#[test]
fn tile_beyond_grid_fails_composition() {
    // A fifth tile on a 2x2 grid would sit below the page.
    let tiles = vec![
        solid_tile(256, 256, [1, 1, 1]),
        solid_tile(44, 256, [2, 2, 2]),
        solid_tile(256, 44, [3, 3, 3]),
        solid_tile(44, 44, [4, 4, 4]),
        solid_tile(1, 1, [5, 5, 5]),
    ];
    let result = compose_tiles(300, 300, &tiles);
    assert_eq!(result, Err(PageError::CompositionFailed { tile_index: 4 }));
}

#[test]
fn error_descriptions_are_not_empty() {
    let errors = [
        PageError::TileFetchFailed { tile_index: 0 },
        PageError::TileDecodeFailed { tile_index: 1 },
        PageError::CompositionFailed { tile_index: 2 },
        PageError::EncodingFailed,
    ];
    for error in errors {
        assert!(!error.describe().is_empty());
    }
}
