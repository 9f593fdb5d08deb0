//! Composing one page's decoded tiles into a single full-resolution image.
//!
//! The output is an uncompressed 3-channel (RGB, row-major, one byte per
//! sample) buffer of exactly `width x height` pixels. Each tile is placed at
//! the pixel origin its row-major grid index dictates, without scaling or
//! padding; later tiles overwrite earlier ones where they overlap, and
//! pixels no tile covers stay zero. A tile whose decoded extent does not fit
//! inside the output at its placement fails the whole page.

use crate::errors::PageError;
use crate::grid::{ceil_div, spec_x_index, spec_y_index, tile_counts, TILE_SIZE};
use vstd::arithmetic::div_mod::{
    lemma_fundamental_div_mod, lemma_fundamental_div_mod_converse, lemma_mod_bound,
    lemma_multiply_divide_lt,
};
use vstd::prelude::*;

verus! {

/// One tile decoded into raw pixels: 3 bytes per pixel, row-major, so the
/// sample of channel `c` of pixel `(x, y)` sits at `3 * (y * width + x) + c`.
pub struct DecodedTile {
    pub width: u32,
    pub height: u32,
    pub pixels: Vec<u8>,
}

impl DecodedTile {
    /// The pixel buffer holds exactly 3 samples per pixel.
    pub open spec fn wf(self) -> bool {
        self.pixels@.len() == 3 * self.width * self.height
    }

    /// The tile as a mathematical value: `(width, height, samples)`.
    pub open spec fn model(self) -> (nat, nat, Seq<u8>) {
        (self.width as nat, self.height as nat, self.pixels@)
    }
}

/// The tiles of a page as mathematical values, in grid order.
pub open spec fn tile_models(tiles: Seq<DecodedTile>) -> Seq<(nat, nat, Seq<u8>)> {
    Seq::new(tiles.len(), |i: int| tiles[i].model())
}

/// Byte offset of channel `c` of pixel `(px, py)` in a 3-channel row-major
/// buffer that is `width` pixels wide.
pub open spec fn buffer_offset(width: int, px: int, py: int, c: int) -> int {
    3 * (py * width + px) + c
}

/// Pixel origin of the tile with row-major grid index `i`.
pub open spec fn spec_tile_x0(i: int, horizontal_count: int) -> int {
    spec_x_index(i, horizontal_count) * (TILE_SIZE as int)
}

/// Pixel origin of the tile with row-major grid index `i`.
pub open spec fn spec_tile_y0(i: int, horizontal_count: int) -> int {
    spec_y_index(i, horizontal_count) * (TILE_SIZE as int)
}

/// The tile `m = (width, height, samples)` at grid index `i` lies entirely
/// inside a `width x height` output image.
pub open spec fn tile_fits(
    m: (nat, nat, Seq<u8>),
    i: int,
    horizontal_count: int,
    width: int,
    height: int,
) -> bool {
    &&& spec_tile_x0(i, horizontal_count) + m.0 <= width
    &&& spec_tile_y0(i, horizontal_count) + m.1 <= height
}

/// The tile `m` at grid index `i` covers output pixel `(px, py)`.
pub open spec fn tile_covers(
    m: (nat, nat, Seq<u8>),
    i: int,
    horizontal_count: int,
    px: int,
    py: int,
) -> bool {
    &&& spec_tile_x0(i, horizontal_count) <= px < spec_tile_x0(i, horizontal_count) + m.0
    &&& spec_tile_y0(i, horizontal_count) <= py < spec_tile_y0(i, horizontal_count) + m.1
}

/// The sample tile `m` at grid index `i` contributes to channel `c` of
/// output pixel `(px, py)` it covers.
pub open spec fn tile_sample(
    m: (nat, nat, Seq<u8>),
    i: int,
    horizontal_count: int,
    px: int,
    py: int,
    c: int,
) -> u8 {
    m.2[3 * ((py - spec_tile_y0(i, horizontal_count)) * m.0 + (px - spec_tile_x0(
        i,
        horizontal_count,
    ))) + c]
}

/// Channel `c` of output pixel `(px, py)` once the tiles `models` have been
/// placed in grid order: the last tile covering the pixel wins, and a pixel
/// no tile covers is zero.
pub open spec fn composed_at(
    models: Seq<(nat, nat, Seq<u8>)>,
    horizontal_count: int,
    px: int,
    py: int,
    c: int,
) -> u8
    decreases models.len(),
{
    if models.len() == 0 {
        0u8
    } else {
        let i = models.len() - 1;
        if tile_covers(models[i], i, horizontal_count, px, py) {
            tile_sample(models[i], i, horizontal_count, px, py, c)
        } else {
            composed_at(models.drop_last(), horizontal_count, px, py, c)
        }
    }
}

/// The whole composed buffer of a `width x height` page, as a byte sequence.
pub open spec fn composed_buffer(
    models: Seq<(nat, nat, Seq<u8>)>,
    width: int,
    height: int,
) -> Seq<u8> {
    Seq::new(
        (3 * width * height) as nat,
        |k: int|
            composed_at(
                models,
                ceil_div(width, TILE_SIZE as int),
                (k / 3) % width,
                (k / 3) / width,
                k % 3,
            ),
    )
}

/// Every tile's decoded extent stays within one 256-unit grid cell (the
/// regular case: full tiles are exactly 256 x 256, and right/bottom edge
/// tiles are smaller).
pub open spec fn tiles_within_cell(models: Seq<(nat, nat, Seq<u8>)>) -> bool {
    forall|j: int|
        0 <= j < models.len() ==> (#[trigger] models[j]).0 <= TILE_SIZE && models[j].1 <= TILE_SIZE
}

/// When every tile stays within its own grid cell, no two distinct tiles
/// cover the same pixel.
proof fn lemma_cover_unique(
    models: Seq<(nat, nat, Seq<u8>)>,
    horizontal_count: int,
    px: int,
    py: int,
    i: int,
    j: int,
)
    requires
        horizontal_count >= 1,
        tiles_within_cell(models),
        0 <= i < models.len(),
        0 <= j < models.len(),
        tile_covers(models[i], i, horizontal_count, px, py),
        tile_covers(models[j], j, horizontal_count, px, py),
    ensures
        i == j,
{
    let t = TILE_SIZE as int;
    lemma_fundamental_div_mod_converse(
        px,
        t,
        spec_x_index(i, horizontal_count),
        px - spec_tile_x0(i, horizontal_count),
    );
    lemma_fundamental_div_mod_converse(
        px,
        t,
        spec_x_index(j, horizontal_count),
        px - spec_tile_x0(j, horizontal_count),
    );
    lemma_fundamental_div_mod_converse(
        py,
        t,
        spec_y_index(i, horizontal_count),
        py - spec_tile_y0(i, horizontal_count),
    );
    lemma_fundamental_div_mod_converse(
        py,
        t,
        spec_y_index(j, horizontal_count),
        py - spec_tile_y0(j, horizontal_count),
    );
    assert(spec_x_index(i, horizontal_count) == spec_x_index(j, horizontal_count));
    assert(spec_y_index(i, horizontal_count) == spec_y_index(j, horizontal_count));
    lemma_fundamental_div_mod(i, horizontal_count);
    lemma_fundamental_div_mod(j, horizontal_count);
    assert(i == j) by (nonlinear_arith)
        requires
            i == horizontal_count * (i / horizontal_count) + i % horizontal_count,
            j == horizontal_count * (j / horizontal_count) + j % horizontal_count,
            i % horizontal_count == j % horizontal_count,
            i / horizontal_count == j / horizontal_count,
    ;
}

/// The law of regular composition: when every tile stays within its own
/// grid cell, each sample a tile covers equals that tile's own sample —
/// each tile occupies exactly its own decoded extent at its grid placement.
pub proof fn lemma_composed_sample_of_cover(
    models: Seq<(nat, nat, Seq<u8>)>,
    horizontal_count: int,
    px: int,
    py: int,
    c: int,
    i: int,
)
    requires
        horizontal_count >= 1,
        tiles_within_cell(models),
        0 <= i < models.len(),
        tile_covers(models[i], i, horizontal_count, px, py),
    ensures
        composed_at(models, horizontal_count, px, py, c) == tile_sample(
            models[i],
            i,
            horizontal_count,
            px,
            py,
            c,
        ),
    decreases models.len(),
{
    let last = models.len() - 1;
    if i < last {
        if tile_covers(models[last], last, horizontal_count, px, py) {
            lemma_cover_unique(models, horizontal_count, px, py, i, last);
        }
        assert(models.drop_last()[i] == models[i]);
        lemma_composed_sample_of_cover(models.drop_last(), horizontal_count, px, py, c, i);
    }
}

/// The complement: a sample no tile covers stays zero.
pub proof fn lemma_composed_sample_uncovered(
    models: Seq<(nat, nat, Seq<u8>)>,
    horizontal_count: int,
    px: int,
    py: int,
    c: int,
)
    requires
        forall|j: int|
            0 <= j < models.len() ==> !tile_covers(#[trigger] models[j], j, horizontal_count, px, py),
    ensures
        composed_at(models, horizontal_count, px, py, c) == 0u8,
    decreases models.len(),
{
    if models.len() > 0 {
        lemma_composed_sample_uncovered(models.drop_last(), horizontal_count, px, py, c);
    }
}

/// Distinct in-range `(px, py, c)` triples have distinct buffer offsets.
proof fn lemma_buffer_offset_injective(
    width: int,
    px1: int,
    py1: int,
    c1: int,
    px2: int,
    py2: int,
    c2: int,
) by (nonlinear_arith)
    requires
        width >= 1,
        0 <= px1 < width,
        0 <= py1,
        0 <= c1 < 3,
        0 <= px2 < width,
        0 <= py2,
        0 <= c2 < 3,
        buffer_offset(width, px1, py1, c1) == buffer_offset(width, px2, py2, c2),
    ensures
        px1 == px2 && py1 == py2 && c1 == c2,
{
}

/// A zero-filled byte buffer of the given length.
fn zero_buffer(len: usize) -> (buf: Vec<u8>)
    ensures
        buf@.len() == len,
        forall|k: int| 0 <= k < len ==> buf@[k] == 0u8,
{
    let mut buf: Vec<u8> = Vec::new();
    while buf.len() < len
        invariant
            buf@.len() <= len,
            forall|k: int| 0 <= k < buf@.len() ==> buf@[k] == 0u8,
        decreases len - buf@.len(),
    {
        buf.push(0u8);
    }
    buf
}

/// The buffer agrees with the blit of `m` at `(x0, y0)` on every sample the
/// blit has reached — the rows before `rows`, the first `cols` pixels of row
/// `rows`, and the first `chans` channels of pixel `(cols, rows)` of the
/// tile — and with the previous buffer contents everywhere else.
spec fn blit_inv(
    old_buf: Seq<u8>,
    new_buf: Seq<u8>,
    m: (nat, nat, Seq<u8>),
    x0: int,
    y0: int,
    width: int,
    height: int,
    rows: int,
    cols: int,
    chans: int,
) -> bool {
    &&& new_buf.len() == old_buf.len()
    &&& forall|px: int, py: int, c: int|
        0 <= px < width && 0 <= py < height && 0 <= c < 3 ==> #[trigger] new_buf[buffer_offset(
            width,
            px,
            py,
            c,
        )] == if x0 <= px < x0 + m.0 && y0 <= py < y0 + m.1 && (py - y0 < rows || (py - y0 == rows
            && (px - x0 < cols || (px - x0 == cols && c < chans)))) {
            m.2[3 * ((py - y0) * m.0 + (px - x0)) + c]
        } else {
            old_buf[buffer_offset(width, px, py, c)]
        }
}

/// Copies one decoded tile into the output buffer at pixel origin
/// `(x0, y0)`: every sample inside the tile's extent takes the tile's value,
/// every sample outside it is untouched.
#[verifier::loop_isolation(false)]
fn blit_tile(buf: &mut Vec<u8>, width: u32, height: u32, tile: &DecodedTile, x0: u32, y0: u32)
    requires
        width >= 1,
        height >= 1,
        3 * width * height <= usize::MAX,
        old(buf)@.len() == 3 * width * height,
        tile.wf(),
        x0 + tile.width <= width,
        y0 + tile.height <= height,
    ensures
        final(buf)@.len() == old(buf)@.len(),
        forall|px: int, py: int, c: int|
            0 <= px < width && 0 <= py < height && 0 <= c < 3 ==> #[trigger] final(
                buf
            )@[buffer_offset(width as int, px, py, c)] == if x0 <= px < x0 + tile.width && y0 <= py
                < y0 + tile.height {
                tile.pixels@[3 * ((py - y0) * tile.width + (px - x0)) + c]
            } else {
                old(buf)@[buffer_offset(width as int, px, py, c)]
            },
{
    let ghost m = tile.model();
    let ghost old_buf = old(buf)@;
    let mut ty: u32 = 0;
    while ty < tile.height
        invariant
            0 <= ty <= tile.height,
            blit_inv(
                old_buf,
                buf@,
                m,
                x0 as int,
                y0 as int,
                width as int,
                height as int,
                ty as int,
                0,
                0,
            ),
        decreases tile.height - ty,
    {
        let mut tx: u32 = 0;
        while tx < tile.width
            invariant
                0 <= ty < tile.height,
                0 <= tx <= tile.width,
                blit_inv(
                    old_buf,
                    buf@,
                    m,
                    x0 as int,
                    y0 as int,
                    width as int,
                    height as int,
                    ty as int,
                    tx as int,
                    0,
                ),
            decreases tile.width - tx,
        {
            proof {
                assert(0 <= (y0 + ty) * width && (y0 + ty) * width + (x0 + tx) < width * height
                    && 3 * ((y0 + ty) * width + (x0 + tx)) + 2 < 3 * width * height) by (
                nonlinear_arith)
                    requires
                        0 <= x0 + tx < width,
                        0 <= y0 + ty < height,
                        width >= 1,
                        height >= 1,
                ;
                assert(0 <= ty * tile.width && ty * tile.width + tx < tile.width * tile.height && 3
                    * (ty * tile.width + tx) + 2 < 3 * tile.width * tile.height && 3 * tile.width
                    * tile.height <= 3 * width * height) by (nonlinear_arith)
                    requires
                        0 <= tx < tile.width,
                        0 <= ty < tile.height,
                        tile.width <= width,
                        tile.height <= height,
                ;
            }
            let dst_base: usize = 3 * ((y0 + ty) as usize * width as usize + (x0 + tx) as usize);
            let src_base: usize = 3 * (ty as usize * tile.width as usize + tx as usize);
            let mut c: usize = 0;
            while c < 3
                invariant
                    0 <= c <= 3,
                    0 <= tx < tile.width,
                    0 <= ty < tile.height,
                    dst_base == 3 * ((y0 + ty) * width + (x0 + tx)),
                    src_base == 3 * (ty * tile.width + tx),
                    blit_inv(
                        old_buf,
                        buf@,
                        m,
                        x0 as int,
                        y0 as int,
                        width as int,
                        height as int,
                        ty as int,
                        tx as int,
                        c as int,
                    ),
                decreases 3 - c,
            {
                let ghost pre = buf@;
                let v: u8 = tile.pixels[src_base + c];
                buf.set(dst_base + c, v);
                proof {
                    assert(dst_base + c == buffer_offset(
                        width as int,
                        x0 + tx,
                        y0 + ty,
                        c as int,
                    ));
                    assert(v == m.2[3 * ((ty as int) * m.0 + tx as int) + c]);
                    assert forall|px: int, py: int, cc: int|
                        0 <= px < width && 0 <= py < height && 0 <= cc < 3 implies #[trigger] buf@[buffer_offset(
                        width as int,
                        px,
                        py,
                        cc,
                    )] == if x0 <= px < x0 + m.0 && y0 <= py < y0 + m.1 && (py - y0 < ty || (py - y0
                        == ty && (px - x0 < tx || (px - x0 == tx && cc < c + 1)))) {
                        m.2[3 * ((py - y0) * m.0 + (px - x0)) + cc]
                    } else {
                        old_buf[buffer_offset(width as int, px, py, cc)]
                    } by {
                        assert(0 <= buffer_offset(width as int, px, py, cc) < 3 * width * height)
                            by (nonlinear_arith)
                            requires
                                0 <= px < width,
                                0 <= py < height,
                                0 <= cc < 3,
                        ;
                        if buffer_offset(width as int, px, py, cc) == dst_base + c {
                            lemma_buffer_offset_injective(
                                width as int,
                                px,
                                py,
                                cc,
                                x0 + tx,
                                y0 + ty,
                                c as int,
                            );
                            assert(px == x0 + tx && py == y0 + ty && cc == c);
                        } else {
                            assert(buf@[buffer_offset(width as int, px, py, cc)]
                                == pre[buffer_offset(width as int, px, py, cc)]);
                        }
                    }
                }
                c = c + 1;
            }
        tx = tx + 1;
        }
        ty = ty + 1;
    }
}

/// Composes the decoded tiles of one page, in grid order, into one
/// 3-channel row-major buffer of exactly `width x height` pixels. Fails with
/// `CompositionFailed` naming the first tile whose decoded extent does not
/// fit inside the output at its grid placement; otherwise every sample is
/// exactly what `composed_at` says: the last covering tile's sample, or zero
/// where no tile reaches.
#[verifier::loop_isolation(false)]
pub fn compose_tiles(width: u32, height: u32, tiles: &Vec<DecodedTile>) -> (result: Result<
    Vec<u8>,
    PageError,
>)
    requires
        width >= 1,
        height >= 1,
        3 * width * height <= usize::MAX,
        forall|i: int| 0 <= i < tiles@.len() ==> (#[trigger] tiles@[i]).wf(),
    ensures
        ({
            let horizontal_count = ceil_div(width as int, TILE_SIZE as int);
            let models = tile_models(tiles@);
            &&& (result is Ok <==> (forall|i: int|
                0 <= i < models.len() ==> tile_fits(
                    #[trigger] models[i],
                    i,
                    horizontal_count,
                    width as int,
                    height as int,
                )))
            &&& (result matches Err(e) ==> e matches PageError::CompositionFailed { tile_index }
                && tile_index < models.len() && !tile_fits(
                models[tile_index as int],
                tile_index as int,
                horizontal_count,
                width as int,
                height as int,
            ) && (forall|j: int|
                0 <= j < tile_index ==> tile_fits(
                    #[trigger] models[j],
                    j,
                    horizontal_count,
                    width as int,
                    height as int,
                )))
            &&& (result matches Ok(buf) ==> buf@.len() == 3 * width * height && (forall|
                px: int,
                py: int,
                c: int,
            |
                0 <= px < width && 0 <= py < height && 0 <= c < 3 ==> #[trigger] buf@[buffer_offset(
                    width as int,
                    px,
                    py,
                    c,
                )] == composed_at(models, horizontal_count, px, py, c)))
        }),
{
    let ghost models = tile_models(tiles@);
    let (horizontal_count, _vertical_count) = tile_counts(width, height);
    proof {
        assert(3 * width <= 3 * width * height) by (nonlinear_arith)
            requires
                width >= 1,
                height >= 1,
        ;
    }
    let mut buf = zero_buffer(3 * (width as usize) * (height as usize));
    proof {
        assert(models.take(0) =~= Seq::<(nat, nat, Seq<u8>)>::empty());
        assert forall|px: int, py: int, c: int|
            0 <= px < width && 0 <= py < height && 0 <= c < 3 implies #[trigger] buf@[buffer_offset(
            width as int,
            px,
            py,
            c,
        )] == composed_at(models.take(0), horizontal_count as int, px, py, c) by {
            assert(0 <= buffer_offset(width as int, px, py, c) < 3 * width * height) by (
            nonlinear_arith)
                requires
                    0 <= px < width,
                    0 <= py < height,
                    0 <= c < 3,
            ;
        }
    }
    let mut i: usize = 0;
    while i < tiles.len()
        invariant
            0 <= i <= tiles@.len(),
            buf@.len() == 3 * width * height,
            forall|j: int|
                0 <= j < i ==> tile_fits(
                    #[trigger] models[j],
                    j,
                    horizontal_count as int,
                    width as int,
                    height as int,
                ),
            forall|px: int, py: int, c: int|
                0 <= px < width && 0 <= py < height && 0 <= c < 3 ==> #[trigger] buf@[buffer_offset(
                    width as int,
                    px,
                    py,
                    c,
                )] == composed_at(models.take(i as int), horizontal_count as int, px, py, c),
        decreases tiles@.len() - i,
    {
        let tile = &tiles[i];
        let y_index: u64 = i as u64 / horizontal_count as u64;
        if y_index > height as u64 / TILE_SIZE as u64 {
            proof {
                assert((height as int / TILE_SIZE as int + 1) * TILE_SIZE as int > height as int
                    && spec_y_index(i as int, horizontal_count as int) * TILE_SIZE as int >= (
                height as int / TILE_SIZE as int + 1) * TILE_SIZE as int) by (nonlinear_arith)
                    requires
                        TILE_SIZE as int >= 1,
                        height as int >= 1,
                        spec_y_index(i as int, horizontal_count as int) > height as int
                            / TILE_SIZE as int,
                ;
                assert(!tile_fits(
                    models[i as int],
                    i as int,
                    horizontal_count as int,
                    width as int,
                    height as int,
                ));
            }
            return Err(PageError::CompositionFailed { tile_index: i });
        }
        let x0: u64 = (i as u64 % horizontal_count as u64) * TILE_SIZE as u64;
        let y0: u64 = y_index * TILE_SIZE as u64;
        if x0 + tile.width as u64 > width as u64 || y0 + tile.height as u64 > height as u64 {
            proof {
                assert(!tile_fits(
                    models[i as int],
                    i as int,
                    horizontal_count as int,
                    width as int,
                    height as int,
                ));
            }
            return Err(PageError::CompositionFailed { tile_index: i });
        }
        blit_tile(&mut buf, width, height, tile, x0 as u32, y0 as u32);
        proof {
            assert(models.take(i + 1).drop_last() =~= models.take(i as int));
            assert(models.take(i + 1)[i as int] == models[i as int]);
            assert forall|px: int, py: int, c: int|
                0 <= px < width && 0 <= py < height && 0 <= c < 3 implies #[trigger] buf@[buffer_offset(
                width as int,
                px,
                py,
                c,
            )] == composed_at(
                models.take(i + 1),
                horizontal_count as int,
                px,
                py,
                c,
            ) by {
                assert(composed_at(models.take(i + 1), horizontal_count as int, px, py, c)
                    == if tile_covers(models[i as int], i as int, horizontal_count as int, px, py) {
                    tile_sample(models[i as int], i as int, horizontal_count as int, px, py, c)
                } else {
                    composed_at(models.take(i as int), horizontal_count as int, px, py, c)
                });
            }
        }
        i = i + 1;
    }
    proof {
        assert(models.take(tiles@.len() as int) =~= models);
    }
    Ok(buf)
}

/// What image's JPEG decoder makes of a byte buffer: `None` where the bytes
/// are not a decodable JPEG image, otherwise the decoded
/// `(width, height, RGB samples)`. The decoder is deterministic, so this is
/// a function of the bytes alone.
pub uninterp spec fn jpeg_decoded(bytes: Seq<u8>) -> Option<(nat, nat, Seq<u8>)>;

/// What image's JPEG encoder makes of a 3-channel row-major
/// `width x height` sample buffer. The encoder (at its default settings) is
/// deterministic, so this is a function of the dimensions and samples alone.
pub uninterp spec fn jpeg_encoded(width: nat, height: nat, pixels: Seq<u8>) -> Seq<u8>;

/// Relies on image's `ImageReader::decode` (with the format forced to JPEG)
/// and `DynamicImage::to_rgb8`: decoding is a deterministic function of the
/// input bytes, and the RGB buffer it yields holds exactly
/// `3 * width * height` samples, row-major.
#[verifier::external_body]
fn decode_jpeg_tile(bytes: &Vec<u8>) -> (decoded: Option<DecodedTile>)
    ensures
        match decoded {
            Some(tile) => jpeg_decoded(bytes@) == Some(tile.model()) && tile.wf(),
            None => jpeg_decoded(bytes@) is None,
        },
{
    let reader = image::ImageReader::with_format(
        std::io::Cursor::new(&bytes[..]),
        image::ImageFormat::Jpeg,
    );
    match reader.decode() {
        Ok(img) => {
            let rgb = img.to_rgb8();
            let width = rgb.width();
            let height = rgb.height();
            Some(DecodedTile { width, height, pixels: rgb.into_raw() })
        },
        Err(_) => None,
    }
}

/// The largest width or height the JPEG output format can hold.
pub const JPEG_MAX_DIMENSION: u32 = 65535;

/// Relies on image's `ImageBuffer::from_raw` and `write_to` with the JPEG
/// format. `from_raw` accepts a buffer of exactly `3 * width * height`
/// samples; the JPEG encoder then fails exactly when a dimension is zero or
/// above 65535 (it must fit the format's 16-bit frame fields), and writing
/// into an in-memory `Vec` cannot fail — so `Some` comes back if and only
/// if both dimensions are in `1 ..= 65535`. Encoding at the default
/// settings is a deterministic function of the dimensions and samples.
#[verifier::external_body]
fn encode_jpeg_page(width: u32, height: u32, pixels: &Vec<u8>) -> (encoded: Option<Vec<u8>>)
    requires
        pixels@.len() == 3 * width * height,
    ensures
        encoded is Some <==> (1 <= width <= JPEG_MAX_DIMENSION && 1 <= height
            <= JPEG_MAX_DIMENSION),
        encoded matches Some(bytes) ==> bytes@ == jpeg_encoded(
            width as nat,
            height as nat,
            pixels@,
        ),
{
    let image: image::RgbImage = match image::ImageBuffer::from_raw(width, height, pixels.clone()) {
        Some(image) => image,
        None => {
            return None;
        },
    };
    let mut out: Vec<u8> = Vec::new();
    match image.write_to(&mut std::io::Cursor::new(&mut out), image::ImageFormat::Jpeg) {
        Ok(()) => Some(out),
        Err(_) => None,
    }
}

/// The byte buffers of a page's fetched tiles, as sequences, in grid order.
pub open spec fn encoded_views(tiles: Seq<Vec<u8>>) -> Seq<Seq<u8>> {
    Seq::new(tiles.len(), |i: int| tiles[i]@)
}

/// Every tile buffer decodes as a JPEG image.
pub open spec fn all_tiles_decode(encoded: Seq<Seq<u8>>) -> bool {
    forall|i: int| 0 <= i < encoded.len() ==> (#[trigger] jpeg_decoded(encoded[i])) is Some
}

/// The decoded `(width, height, samples)` of each tile buffer, in grid
/// order.
pub open spec fn decoded_tile_models(encoded: Seq<Seq<u8>>) -> Seq<(nat, nat, Seq<u8>)> {
    Seq::new(encoded.len(), |i: int| jpeg_decoded(encoded[i])->0)
}

/// Every tile lies inside the `width x height` page at its grid placement.
pub open spec fn all_tiles_fit(models: Seq<(nat, nat, Seq<u8>)>, width: int, height: int) -> bool {
    forall|i: int|
        0 <= i < models.len() ==> tile_fits(
            #[trigger] models[i],
            i,
            ceil_div(width, TILE_SIZE as int),
            width,
            height,
        )
}

/// Everything the assembly stage promises of its result for one page, given
/// the page dimensions and the fetched tile buffers `enc` in grid order:
/// the first undecodable tile or the first ill-placed tile fails the page
/// with the matching error; a page dimension beyond what the output format
/// can hold fails it with `EncodingFailed`, and that error comes on no
/// other input; otherwise the result is owed, and is exactly the encoding
/// of the composed buffer.
pub open spec fn assembly_outcome(
    width: int,
    height: int,
    enc: Seq<Seq<u8>>,
    result: Result<Vec<u8>, PageError>,
) -> bool {
    let models = decoded_tile_models(enc);
    let horizontal_count = ceil_div(width, TILE_SIZE as int);
    &&& (result matches Err(e) ==> (e matches PageError::TileDecodeFailed { tile_index }
        ==> tile_index < enc.len() && jpeg_decoded(enc[tile_index as int]) is None && (forall|
        j: int,
    | 0 <= j < tile_index ==> (#[trigger] jpeg_decoded(enc[j])) is Some)))
    &&& (!all_tiles_decode(enc) ==> (result matches Err(e) && e matches
        PageError::TileDecodeFailed { .. }))
    &&& (result matches Err(e) ==> (e matches PageError::CompositionFailed { tile_index }
        ==> all_tiles_decode(enc) && tile_index < models.len() && !tile_fits(
        models[tile_index as int],
        tile_index as int,
        horizontal_count,
        width,
        height,
    ) && (forall|j: int|
        0 <= j < tile_index ==> tile_fits(#[trigger] models[j], j, horizontal_count, width, height))))
    &&& (all_tiles_decode(enc) && !all_tiles_fit(models, width, height) ==> (result matches Err(e)
        && e matches PageError::CompositionFailed { .. }))
    &&& (result == Err::<Vec<u8>, PageError>(PageError::EncodingFailed) ==> all_tiles_decode(enc)
        && all_tiles_fit(models, width, height) && !(1 <= width <= JPEG_MAX_DIMENSION && 1
        <= height <= JPEG_MAX_DIMENSION))
    &&& (result matches Ok(bytes) ==> all_tiles_decode(enc) && all_tiles_fit(models, width, height)
        && bytes@ == jpeg_encoded(
        width as nat,
        height as nat,
        composed_buffer(models, width, height),
    ))
    &&& (all_tiles_decode(enc) && all_tiles_fit(models, width, height) && 1 <= width
        <= JPEG_MAX_DIMENSION && 1 <= height <= JPEG_MAX_DIMENSION ==> result is Ok)
    &&& (result matches Err(e) ==> !(e matches PageError::TileFetchFailed { .. }))
}

/// Decodes every fetched tile of one page, composes them in grid order into
/// one `width x height` RGB buffer, and encodes that buffer as the page's
/// output image. Fails with `TileDecodeFailed` at the first tile that does
/// not decode, with `CompositionFailed` at the first decoded tile that does
/// not fit its grid placement, and with `EncodingFailed` exactly where a
/// page dimension exceeds what the JPEG format can hold; on every other
/// input the result is owed, and is exactly the encoding of the composed
/// buffer — see `assembly_outcome`.
#[verifier::loop_isolation(false)]
pub fn concat_jpeg_tile(width: u32, height: u32, encoded_tiles: &Vec<Vec<u8>>) -> (result: Result<
    Vec<u8>,
    PageError,
>)
    requires
        width >= 1,
        height >= 1,
        3 * width * height <= usize::MAX,
    ensures
        assembly_outcome(width as int, height as int, encoded_views(encoded_tiles@), result),
{
    let ghost enc = encoded_views(encoded_tiles@);
    let ghost models = decoded_tile_models(enc);
    let mut decoded: Vec<DecodedTile> = Vec::new();
    let mut i: usize = 0;
    while i < encoded_tiles.len()
        invariant
            0 <= i <= encoded_tiles@.len(),
            decoded@.len() == i,
            forall|j: int|
                0 <= j < i ==> (#[trigger] jpeg_decoded(enc[j])) is Some && decoded@[j].model()
                    == jpeg_decoded(enc[j])->0 && decoded@[j].wf(),
        decreases encoded_tiles@.len() - i,
    {
        match decode_jpeg_tile(&encoded_tiles[i]) {
            Some(tile) => {
                decoded.push(tile);
            },
            None => {
                proof {
                    assert(jpeg_decoded(enc[i as int]) is None);
                }
                return Err(PageError::TileDecodeFailed { tile_index: i });
            },
        }
        i = i + 1;
    }
    proof {
        assert(tile_models(decoded@) =~= models);
        assert forall|j: int| 0 <= j < decoded@.len() implies (#[trigger] decoded@[j]).wf() by {
            assert(jpeg_decoded(enc[j]) is Some);
        }
    }
    let composed = match compose_tiles(width, height, &decoded) {
        Ok(buf) => buf,
        Err(e) => {
            return Err(e);
        },
    };
    proof {
        assert forall|k: int| 0 <= k < 3 * width * height implies composed@[k] == composed_buffer(
            models,
            width as int,
            height as int,
        )[k] by {
            let px = (k / 3) % (width as int);
            let py = (k / 3) / (width as int);
            let c = k % 3;
            lemma_fundamental_div_mod(k, 3);
            lemma_mod_bound(k, 3);
            lemma_fundamental_div_mod(k / 3, width as int);
            lemma_mod_bound(k / 3, width as int);
            assert(k / 3 < (width as int) * (height as int)) by (nonlinear_arith)
                requires
                    0 <= k < 3 * width * height,
            ;
            lemma_multiply_divide_lt(k / 3, width as int, height as int);
            assert(buffer_offset(width as int, px, py, c) == k);
        }
        assert(composed@ =~= composed_buffer(models, width as int, height as int));
    }
    match encode_jpeg_page(width, height, &composed) {
        Some(bytes) => Ok(bytes),
        None => Err(PageError::EncodingFailed),
    }
}

} // verus!
