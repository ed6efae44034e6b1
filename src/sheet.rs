//! Sprite sheets and the square tiles cut out of them.
use vstd::prelude::*;

verus! {

#[verifier::external_type_specification]
#[verifier::external_body]
pub struct ExImageError(image::ImageError);

/// The width, height and 8-bit RGB pixels that the image codec reads from an
/// encoded image, or `None` where it cannot decode the bytes.
pub uninterp spec fn decoded_rgb(bytes: Seq<u8>) -> Option<(u32, u32, Seq<u8>)>;

/// Relies on image's `load_from_memory`, which guesses the format from the bytes
/// and decodes them, and on `DynamicImage::into_rgb8`, which converts the result
/// to 8-bit RGB. An `ImageBuffer` always holds at least three bytes per RGB
/// pixel.
#[verifier::external_body]
fn decode_rgb(bytes: &[u8]) -> (r: Result<(u32, u32, Vec<u8>), image::ImageError>)
    ensures
        r matches Ok((w, h, p)) ==> decoded_rgb(bytes@) == Some((w, h, p@)) && 3 * (w as int)
            * (h as int) <= p@.len(),
        r is Err ==> decoded_rgb(bytes@) is None,
{
    match image::load_from_memory(bytes) {
        Ok(img) => {
            let rgb = img.into_rgb8();
            let (w, h) = rgb.dimensions();
            Ok((w, h, rgb.into_raw()))
        },
        Err(e) => Err(e),
    }
}

/// Why a sprite sheet could not be loaded.
#[derive(Debug, Clone, Copy, PartialEq, Eq, Structural)]
pub enum DecodeError {
    /// The image codec could not read the bytes.
    Undecodable,
    /// The sheet is wide enough for a tile but shorter than one.
    ShorterThanTile,
}

/// A decoded sprite sheet: `width` by `height` RGB pixels, row-major, three
/// bytes per pixel.
pub struct SpriteSheet {
    pub width: u32,
    pub height: u32,
    pub pixels: Vec<u8>,
}

impl SpriteSheet {
    /// The buffer holds at least every pixel of the sheet.
    pub open spec fn wf(&self) -> bool {
        3 * (self.width as int) * (self.height as int) <= self.pixels@.len()
    }

    /// Makes a sheet from an RGB buffer, or `None` when the buffer is too short
    /// for the given size.
    pub fn from_rgb(width: u32, height: u32, pixels: Vec<u8>) -> (r: Option<SpriteSheet>)
        ensures
            r is Some <==> 3 * (width as int) * (height as int) <= pixels@.len(),
            r matches Some(s) ==> s.wf() && s.width == width && s.height == height && s.pixels@
                == pixels@,
    {
        let w: u64 = width as u64;
        let h: u64 = height as u64;
        proof {
            assert(w * h <= 0xffff_ffff_ffff_ffffu64) by (nonlinear_arith)
                requires
                    w <= 0xffff_ffff,
                    h <= 0xffff_ffff,
            ;
        }
        let area: u64 = w * h;
        proof {
            assert(area * 3 == 3 * (width as int) * (height as int)) by (nonlinear_arith)
                requires
                    area == w * h,
                    w == width,
                    h == height,
            ;
        }
        match area.checked_mul(3) {
            Some(needed) => {
                let len: usize = pixels.len();
                assert(len as u64 as int == len as int);
                if needed <= len as u64 {
                    Some(SpriteSheet { width, height, pixels })
                } else {
                    None
                }
            },
            None => {
                let len: usize = pixels.len();
                assert(len as int <= 0xffff_ffff_ffff_ffff);
                None
            },
        }
    }

    /// Decodes an encoded image into an RGB sheet; `Undecodable` where the
    /// codec cannot read the bytes.
    pub fn decode(bytes: &[u8]) -> (r: Result<SpriteSheet, DecodeError>)
        ensures
            r is Err <==> decoded_rgb(bytes@) is None,
            r matches Err(e) ==> e == DecodeError::Undecodable,
            r matches Ok(s) ==> s.wf() && decoded_rgb(bytes@) == Some(
                (s.width, s.height, s.pixels@),
            ),
    {
        match decode_rgb(bytes) {
            Ok((width, height, pixels)) => Ok(SpriteSheet { width, height, pixels }),
            Err(_) => Err(DecodeError::Undecodable),
        }
    }
}

/// A square tile of `edge` by `edge` RGB pixels, row-major.
pub struct TileBitmap {
    pub edge: u32,
    pub pixels: Vec<u8>,
}

impl TileBitmap {
    /// The buffer holds exactly the tile's pixels.
    pub open spec fn wf(&self) -> bool {
        self.pixels@.len() == 3 * (self.edge as int) * (self.edge as int)
    }
}

/// Position of byte `b` of row `row` inside a tile of edge `t`.
pub open spec fn tile_offset(t: int, row: int, b: int) -> int {
    row * (3 * t) + b
}

/// Position of byte `b` of row `row` of tile `i` inside a sheet of width `w`
/// cut into tiles of edge `t`: the tile starts at column `i * t`.
pub open spec fn sheet_offset(w: int, t: int, i: int, row: int, b: int) -> int {
    row * (3 * w) + 3 * (i * t) + b
}

/// `tile` is the `t` by `t` square at horizontal offset `i * t` of the sheet
/// whose rows of `width` RGB pixels are laid out in `pixels`.
pub open spec fn is_tile_of(pixels: Seq<u8>, width: int, t: int, i: int, tile: &TileBitmap) -> bool {
    &&& tile.edge as int == t
    &&& tile.wf()
    &&& forall|row: int, b: int|
        #![trigger tile_offset(t, row, b)]
        0 <= row < t && 0 <= b < 3 * t ==> tile.pixels@[tile_offset(t, row, b)]
            == pixels[sheet_offset(width, t, i, row, b)]
}

proof fn lemma_offsets_in_bounds(w: int, h: int, t: int, i: int, row: int, b: int)
    requires
        0 <= i,
        0 <= row < t,
        t <= h,
        0 <= b < 3 * t,
        (i + 1) * t <= w,
    ensures
        0 <= tile_offset(t, row, b) < 3 * t * t,
        0 <= sheet_offset(w, t, i, row, b) < 3 * w * h,
{
    assert(0 <= row * (3 * t) + b < 3 * t * t) by (nonlinear_arith)
        requires
            0 <= row < t,
            0 <= b < 3 * t,
    ;
    assert(0 <= row * (3 * w) + 3 * (i * t) + b < 3 * w * h) by (nonlinear_arith)
        requires
            0 <= i,
            0 <= row < t,
            t <= h,
            0 <= b < 3 * t,
            (i + 1) * t <= w,
    ;
}

proof fn lemma_earlier_rows_before(t: int, row: int, r: int, b: int)
    requires
        0 <= r < row,
        0 <= b < 3 * t,
    ensures
        tile_offset(t, r, b) < row * (3 * t),
        0 <= tile_offset(t, r, b),
{
    assert(r * (3 * t) + b < row * (3 * t) && 0 <= r * (3 * t) + b) by (nonlinear_arith)
        requires
            0 <= r < row,
            0 <= b < 3 * t,
    ;
}

/// Copies the tile at horizontal offset `i * t` out of `sheet`.
fn cut_tile(sheet: &SpriteSheet, t: u32, i: u32) -> (r: TileBitmap)
    requires
        sheet.wf(),
        0 < t <= sheet.height,
        (i as int + 1) * (t as int) <= sheet.width as int,
    ensures
        is_tile_of(sheet.pixels@, sheet.width as int, t as int, i as int, &r),
{
    let ghost w = sheet.width as int;
    let ghost h = sheet.height as int;
    let ghost ti = t as int;
    proof {
        lemma_offsets_in_bounds(w, h, ti, i as int, 0, 0);
        assert(3 * ti * ti <= 3 * w * h) by (nonlinear_arith)
            requires
                0 < ti <= h,
                (i + 1) * ti <= w,
                0 <= i,
        ;
        assert(3 * (i as int) * ti <= 3 * w) by (nonlinear_arith)
            requires
                (i + 1) * ti <= w,
                0 <= i,
                0 < ti,
        ;
    }
    let n: usize = sheet.pixels.len();
    proof {
        assert(ti <= w) by (nonlinear_arith)
            requires
                (i + 1) * ti <= w,
                0 <= i,
                0 < ti,
        ;
        assert(3 * ti <= 3 * ti * ti && 3 * w <= 3 * w * h) by (nonlinear_arith)
            requires
                0 < ti <= h,
                ti <= w,
        ;
        assert((i as int) * ti <= w && 3 * (i as int) <= 3 * w) by (nonlinear_arith)
            requires
                (i + 1) * ti <= w,
                0 <= i,
                0 < ti,
        ;
    }
    let tu: usize = t as usize;
    let row_bytes: usize = 3 * tu;
    let stride: usize = 3 * (sheet.width as usize);
    let x0: usize = 3 * ((i as usize) * tu);
    let mut pixels: Vec<u8> = Vec::new();
    let mut row: usize = 0;
    while row < tu
        invariant
            sheet.wf(),
            n == sheet.pixels@.len(),
            w == sheet.width as int,
            h == sheet.height as int,
            ti == t as int,
            0 < ti <= h,
            (i as int + 1) * ti <= w,
            tu as int == ti,
            row_bytes as int == 3 * ti,
            stride as int == 3 * w,
            x0 as int == 3 * (i as int * ti),
            row <= tu,
            pixels@.len() == row * (3 * ti),
            forall|r: int, b: int|
                #![trigger tile_offset(ti, r, b)]
                0 <= r < row && 0 <= b < 3 * ti ==> pixels@[tile_offset(ti, r, b)]
                    == sheet.pixels@[sheet_offset(w, ti, i as int, r, b)],
        decreases tu - row,
    {
        proof {
            lemma_offsets_in_bounds(w, h, ti, i as int, row as int, 0);
            assert(row * stride <= row * stride + x0 <= 3 * w * h) by (nonlinear_arith)
                requires
                    stride as int == 3 * w,
                    x0 >= 0,
                    sheet_offset(w, ti, i as int, row as int, 0) < 3 * w * h,
                    sheet_offset(w, ti, i as int, row as int, 0) == row * (3 * w) + x0,
            ;
        }
        let base: usize = row * stride + x0;
        let mut b: usize = 0;
        while b < row_bytes
            invariant
                sheet.wf(),
                n == sheet.pixels@.len(),
                w == sheet.width as int,
                h == sheet.height as int,
                0 < ti <= h,
                (i as int + 1) * ti <= w,
                row_bytes as int == 3 * ti,
                row < tu,
                tu as int == ti,
                base as int == sheet_offset(w, ti, i as int, row as int, 0),
                b <= row_bytes,
                pixels@.len() == row * (3 * ti) + b,
                forall|r: int, bb: int|
                    #![trigger tile_offset(ti, r, bb)]
                    0 <= r < row && 0 <= bb < 3 * ti ==> pixels@[tile_offset(ti, r, bb)]
                        == sheet.pixels@[sheet_offset(w, ti, i as int, r, bb)],
                forall|bb: int|
                    #![trigger tile_offset(ti, row as int, bb)]
                    0 <= bb < b ==> pixels@[tile_offset(ti, row as int, bb)]
                        == sheet.pixels@[sheet_offset(w, ti, i as int, row as int, bb)],
            decreases row_bytes - b,
        {
            proof {
                lemma_offsets_in_bounds(w, h, ti, i as int, row as int, b as int);
            }
            let ghost before = pixels@;
            pixels.push(sheet.pixels[base + b]);
            proof {
                assert forall|r: int, bb: int|
                    #![trigger tile_offset(ti, r, bb)]
                    0 <= r < row && 0 <= bb < 3 * ti implies pixels@[tile_offset(ti, r, bb)]
                        == sheet.pixels@[sheet_offset(w, ti, i as int, r, bb)] by {
                    lemma_earlier_rows_before(ti, row as int, r, bb);
                    assert(pixels@[tile_offset(ti, r, bb)] == before[tile_offset(ti, r, bb)]);
                }
            }
            b = b + 1;
        }
        row = row + 1;
        proof {
            assert(pixels@.len() == row * (3 * ti)) by (nonlinear_arith)
                requires
                    pixels@.len() == (row - 1) * (3 * ti) + 3 * ti,
            ;
        }
    }
    proof {
        assert(pixels@.len() == 3 * ti * ti) by (nonlinear_arith)
            requires
                pixels@.len() == ti * (3 * ti),
        ;
    }
    TileBitmap { edge: t, pixels }
}

/// Cuts a one-row sheet into tiles of edge `tile_edge`, left to right. A
/// column remainder narrower than a tile is dropped; a sheet narrower than one
/// tile gives no tiles, whatever its height. Only the top `tile_edge` rows are
/// read.
pub fn slice(sheet: &SpriteSheet, tile_edge: u32) -> (r: Vec<TileBitmap>)
    requires
        sheet.wf(),
        0 < tile_edge,
        sheet.width < tile_edge || tile_edge <= sheet.height,
    ensures
        r@.len() == sheet.width / tile_edge,
        sheet.width < tile_edge ==> r@.len() == 0,
        forall|i: int| 0 <= i < r@.len() ==> is_tile_of(sheet.pixels@, sheet.width as int, tile_edge as int, i, &#[trigger] r@[i]),
{
    let count: u32 = sheet.width / tile_edge;
    let mut tiles: Vec<TileBitmap> = Vec::new();
    let mut i: u32 = 0;
    while i < count
        invariant
            sheet.wf(),
            0 < tile_edge,
            sheet.width < tile_edge || tile_edge <= sheet.height,
            count == sheet.width / tile_edge,
            i <= count,
            tiles@.len() == i,
            forall|j: int| 0 <= j < i ==> is_tile_of(sheet.pixels@, sheet.width as int, tile_edge as int, j, &#[trigger] tiles@[j]),
        decreases count - i,
    {
        proof {
            assert((i as int + 1) * (tile_edge as int) <= sheet.width as int) by (nonlinear_arith)
                requires
                    i < count,
                    count == sheet.width / tile_edge,
                    0 < tile_edge,
            ;
            assert(tile_edge <= sheet.width) by (nonlinear_arith)
                requires
                    (i as int + 1) * (tile_edge as int) <= sheet.width as int,
                    0 < tile_edge,
            ;
        }
        let tile = cut_tile(sheet, tile_edge, i);
        tiles.push(tile);
        i = i + 1;
    }
    proof {
        assert(sheet.width < tile_edge ==> sheet.width / tile_edge == 0) by (nonlinear_arith)
            requires
                0 < tile_edge,
        ;
    }
    tiles
}

/// The tiles that `slice` cuts at edge `t` do not overlap: column `x` of tile
/// `i1` and column `y` of tile `i2` are the same sheet column only when they
/// are the same column of the same tile.
pub proof fn tile_columns_disjoint(t: int, i1: int, x: int, i2: int, y: int)
    requires
        0 < t,
        0 <= i1,
        0 <= i2,
        0 <= x < t,
        0 <= y < t,
        i1 * t + x == i2 * t + y,
    ensures
        i1 == i2,
        x == y,
{
    if i1 < i2 {
        assert(i1 * t + x < i2 * t + y) by (nonlinear_arith)
            requires
                i1 < i2,
                0 <= x < t,
                0 <= y,
        ;
    } else if i2 < i1 {
        assert(i2 * t + y < i1 * t + x) by (nonlinear_arith)
            requires
                i2 < i1,
                0 <= y < t,
                0 <= x,
        ;
    }
}

/// The tiles that `slice` cuts from a sheet of width `w` at edge `t` leave no
/// gap: every column `c` left of the dropped remainder is column `c % t` of
/// tile `c / t`, which is one of the `w / t` tiles.
pub proof fn tile_columns_cover(w: int, t: int, c: int)
    requires
        0 < t,
        0 <= w,
        0 <= c < (w / t) * t,
    ensures
        0 <= c / t < w / t,
        0 <= c % t < t,
        c == (c / t) * t + c % t,
{
    assert(c == (c / t) * t + c % t && 0 <= c % t < t && 0 <= c / t) by (nonlinear_arith)
        requires
            0 < t,
            0 <= c,
    ;
    assert(c / t < w / t) by (nonlinear_arith)
        requires
            0 < t,
            0 <= c < (w / t) * t,
            c == (c / t) * t + c % t,
            0 <= c % t,
    ;
}

} // verus!
