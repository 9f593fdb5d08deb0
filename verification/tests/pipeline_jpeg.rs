use tilebook::assemble::concat_jpeg_tile;
use tilebook::collect::collect_tile_results;
use tilebook::errors::PageError;
use tilebook::pipeline::produce_page;

fn solid_jpeg(width: u32, height: u32, rgb: [u8; 3]) -> Vec<u8> {
    let img = image::RgbImage::from_pixel(width, height, image::Rgb(rgb));
    let mut out = Vec::new();
    img.write_to(
        &mut std::io::Cursor::new(&mut out),
        image::ImageFormat::Jpeg,
    )
    .expect("encoding a test tile should succeed");
    out
}

fn decode_jpeg(bytes: &[u8]) -> image::RgbImage {
    image::ImageReader::with_format(std::io::Cursor::new(bytes), image::ImageFormat::Jpeg)
        .decode()
        .expect("decoding the page output should succeed")
        .to_rgb8()
}

fn assert_near(actual: [u8; 3], expected: [u8; 3], tolerance: i16) {
    for channel in 0..3 {
        let delta = (actual[channel] as i16 - expected[channel] as i16).abs();
        assert!(
            delta <= tolerance,
            "channel {channel}: {actual:?} vs {expected:?}"
        );
    }
}

#[test]
fn collect_keeps_grid_order() {
    let results = vec![
        Some(vec![0u8]),
        Some(vec![1u8]),
        Some(vec![2u8]),
        Some(vec![3u8]),
    ];
    let tiles = collect_tile_results(results).expect("all tiles present");
    assert_eq!(tiles, vec![vec![0u8], vec![1u8], vec![2u8], vec![3u8]]);
}

#[test]
fn collect_fails_on_first_missing_tile() {
    // The 3rd of 6 tiles failed all retries: the page fails with that
    // tile's index and no tile sequence is produced.
    let results = vec![
        Some(vec![0u8]),
        Some(vec![1u8]),
        None,
        Some(vec![3u8]),
        None,
        Some(vec![5u8]),
    ];
    let result = collect_tile_results(results);
    assert_eq!(result, Err(PageError::TileFetchFailed { tile_index: 2 }));
}

#[test]
fn produce_page_fails_without_assembling_when_a_tile_is_missing() {
    let results = vec![
        Some(solid_jpeg(256, 256, [255, 0, 0])),
        Some(solid_jpeg(256, 256, [0, 255, 0])),
        None,
        Some(solid_jpeg(256, 256, [0, 0, 255])),
        Some(solid_jpeg(256, 256, [9, 9, 9])),
        Some(solid_jpeg(256, 256, [7, 7, 7])),
    ];
    let result = produce_page(512, 768, results);
    assert_eq!(result, Err(PageError::TileFetchFailed { tile_index: 2 }));
}

#[test]
fn assembled_page_quadrants_match_the_tiles() {
    // Four solid 256x256 JPEG tiles into a 512x512 page; the output decodes
    // to four quadrants matching the tiles' colors.
    let colors = [[250, 10, 10], [10, 250, 10], [10, 10, 250], [128, 128, 128]];
    let tiles: Vec<Vec<u8>> = colors.iter().map(|c| solid_jpeg(256, 256, *c)).collect();
    let encoded = concat_jpeg_tile(512, 512, &tiles).expect("assembly should succeed");
    let output = decode_jpeg(&encoded);
    assert_eq!(output.width(), 512);
    assert_eq!(output.height(), 512);
    let probes = [(128u32, 128u32, 0), (384, 128, 1), (128, 384, 2), (384, 384, 3)];
    for (x, y, quadrant) in probes {
        assert_near(output.get_pixel(x, y).0, colors[quadrant], 8);
    }
}

#[test]
fn assembled_page_handles_cropped_edge_tiles() {
    // 300x300: right/bottom edge tiles are 44 pixels; they land flush at
    // (256,0), (0,256) and (256,256).
    let tiles = vec![
        solid_jpeg(256, 256, [240, 240, 240]),
        solid_jpeg(44, 256, [200, 20, 20]),
        solid_jpeg(256, 44, [20, 200, 20]),
        solid_jpeg(44, 44, [20, 20, 200]),
    ];
    let encoded = concat_jpeg_tile(300, 300, &tiles).expect("assembly should succeed");
    let output = decode_jpeg(&encoded);
    assert_eq!(output.width(), 300);
    assert_eq!(output.height(), 300);
    assert_near(output.get_pixel(128, 128).0, [240, 240, 240], 8);
    assert_near(output.get_pixel(280, 128).0, [200, 20, 20], 8);
    assert_near(output.get_pixel(128, 280).0, [20, 200, 20], 8);
    assert_near(output.get_pixel(280, 280).0, [20, 20, 200], 8);
}

#[test]
fn undecodable_tile_fails_with_its_index() {
    let tiles = vec![
        solid_jpeg(256, 256, [1, 1, 1]),
        vec![0xde, 0xad, 0xbe, 0xef],
    ];
    let result = concat_jpeg_tile(512, 256, &tiles);
    assert_eq!(result, Err(PageError::TileDecodeFailed { tile_index: 1 }));
}

#[test]
fn page_wider_than_the_format_fails_encoding() {
    // 65536 pixels exceed the JPEG frame field; every tile decodes and
    // fits, so the failure is the encoding itself.
    let tiles = vec![solid_jpeg(1, 1, [5, 5, 5])];
    let result = concat_jpeg_tile(65536, 1, &tiles);
    assert_eq!(result, Err(PageError::EncodingFailed));
}

#[test]
fn widest_page_the_format_holds_encodes() {
    let tiles = vec![solid_jpeg(1, 1, [5, 5, 5])];
    let encoded = concat_jpeg_tile(65535, 1, &tiles).expect("within the format's limit");
    let output = decode_jpeg(&encoded);
    assert_eq!((output.width(), output.height()), (65535, 1));
}

#[test]
fn produce_page_composes_when_every_tile_arrived() {
    let results = vec![
        Some(solid_jpeg(256, 256, [50, 100, 150])),
        Some(solid_jpeg(44, 256, [150, 100, 50])),
    ];
    let encoded = produce_page(300, 256, results).expect("page should be produced");
    let output = decode_jpeg(&encoded);
    assert_eq!((output.width(), output.height()), (300, 256));
    assert_near(output.get_pixel(100, 100).0, [50, 100, 150], 8);
    assert_near(output.get_pixel(280, 100).0, [150, 100, 50], 8);
}
