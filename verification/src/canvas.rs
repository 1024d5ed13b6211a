//! The canvas: a panorama centred on an image twice as wide as it is high.

use vstd::prelude::*;
use crate::config::TileConfig;
use crate::raster::{byte_index, lemma_byte_index, lemma_row_index, max_bytes, Pixels, Raster};

verus! {

/// Whether an image of this size is cut into tiles: it is at least twice as
/// wide as it is high, and at least `min_side` pixels wide.
pub open spec fn eligible(width: int, height: int, min_side: int) -> bool {
    width >= 2 * height && width >= min_side
}

/// Height of the canvas of an image that is `width` pixels wide.
pub open spec fn canvas_height(width: int) -> int {
    width / 2
}

/// Number of empty canvas rows above the image. An image higher than the
/// canvas would start above the canvas; it is put at the top instead.
pub open spec fn vertical_offset(width: int, height: int) -> int {
    if canvas_height(width) >= height {
        (canvas_height(width) - height) / 2
    } else {
        0
    }
}

/// Side of a square tile when `columns` tiles share the width. The pixels
/// that are left over at the right and at the bottom belong to no tile.
pub open spec fn tile_side(width: int, columns: int) -> int {
    width / columns
}

/// Number of bytes of the canvas of an image that is `width` pixels wide.
pub open spec fn canvas_bytes(width: int) -> int {
    3 * width * canvas_height(width)
}

/// Why an image gets no tiles.
#[derive(Clone, Copy, Debug, PartialEq, Eq, Structural)]
pub enum Skip {
    /// The image is less than twice as wide as it is high.
    TooNarrow,
    /// The image is narrower than the configured minimum.
    TooSmall,
    /// The canvas would not fit into one allocation.
    TooLarge,
}

/// The measures of a canvas.
#[derive(Clone, Copy, Debug, PartialEq, Eq, Structural)]
pub struct CanvasPlan {
    /// Width of the canvas, which is that of the image.
    pub width: u32,
    /// Height of the canvas.
    pub height: u32,
    /// Number of empty rows above the image.
    pub offset: u32,
    /// Side of a tile.
    pub tile: u32,
}

/// The plan for an image of the given size, where it gets one.
pub open spec fn plan_of(width: int, height: int, cfg: TileConfig) -> Result<CanvasPlan, Skip> {
    if width < 2 * height {
        Err(Skip::TooNarrow)
    } else if width < cfg.min_side {
        Err(Skip::TooSmall)
    } else if canvas_bytes(width) > max_bytes() {
        Err(Skip::TooLarge)
    } else {
        Ok(
            CanvasPlan {
                width: width as u32,
                height: canvas_height(width) as u32,
                offset: vertical_offset(width, height) as u32,
                tile: tile_side(width, cfg.columns as int) as u32,
            },
        )
    }
}

/// Number of empty canvas rows above an image of the given size.
pub fn offset_for(width: u32, height: u32) -> (offset: u32)
    ensures
        offset == vertical_offset(width as int, height as int),
{
    let half: u32 = width / 2;
    if half >= height {
        (half - height) / 2
    } else {
        0
    }
}

/// Decides whether an image of the given size gets tiles, and measures its
/// canvas if it does.
pub fn plan_canvas(width: u32, height: u32, cfg: &TileConfig) -> (out: Result<CanvasPlan, Skip>)
    requires
        cfg.wf(),
    ensures
        out == plan_of(width as int, height as int, *cfg),
        out is Ok <==> eligible(width as int, height as int, cfg.min_side as int) && canvas_bytes(
            width as int,
        ) <= max_bytes(),
        out matches Ok(plan) ==> plan.offset + height <= plan.height,
{
    if (width as u64) < 2 * (height as u64) {
        return Err(Skip::TooNarrow);
    }
    if width < cfg.min_side {
        return Err(Skip::TooSmall);
    }
    let half: u32 = width / 2;
    assert(3 * width * half <= 3 * 0xffff_ffff * 0xffff_ffff) by (nonlinear_arith)
        requires
            0 <= width <= 0xffff_ffff,
            0 <= half <= 0xffff_ffff,
    ;
    let bytes: u128 = 3 * (width as u128) * (half as u128);
    if bytes > isize::MAX as u128 {
        return Err(Skip::TooLarge);
    }
    Ok(
        CanvasPlan {
            width,
            height: half,
            offset: offset_for(width, height),
            tile: width / cfg.columns,
        },
    )
}

/// Channel `c` of pixel `(x, y)` of the canvas of `src`: the image's own
/// pixels in the rows that it takes, black above and below.
pub open spec fn canvas_at(src: Pixels, x: int, y: int, c: int) -> u8 {
    let offset = vertical_offset(src.width as int, src.height as int);
    if offset <= y < offset + src.height {
        src.at(x, y - offset, c)
    } else {
        0
    }
}

/// Whether `canvas` is the canvas of `src`: as wide as `src`, half as high
/// as wide, and with the pixels that `canvas_at` gives.
pub open spec fn is_canvas_of(canvas: Pixels, src: Pixels) -> bool {
    &&& canvas.wf()
    &&& canvas.width == src.width
    &&& canvas.height == canvas_height(src.width as int)
    &&& forall|x: int, y: int, c: int|
        canvas.has(x, y) && 0 <= c < 3 ==> #[trigger] canvas.at(x, y, c) == canvas_at(src, x, y, c)
}

/// The canvas holds every pixel of an image that is no higher than the
/// canvas, `vertical_offset` rows below the place that it has in the image.
pub proof fn lemma_canvas_holds_image(canvas: Pixels, src: Pixels, x: int, y: int, c: int)
    requires
        is_canvas_of(canvas, src),
        src.height <= canvas_height(src.width as int),
        src.has(x, y),
        0 <= c < 3,
    ensures
        canvas.has(x, y + vertical_offset(src.width as int, src.height as int)),
        canvas.at(x, y + vertical_offset(src.width as int, src.height as int), c) == src.at(
            x,
            y,
            c,
        ),
{
    let offset = vertical_offset(src.width as int, src.height as int);
    assert(canvas.at(x, y + offset, c) == canvas_at(src, x, y + offset, c));
}

/// The byte at place `i` of `bytes` with `top` zero bytes put before
/// them and zero bytes after them.
pub open spec fn padded_at(bytes: Seq<u8>, top: int, i: int) -> u8 {
    if top <= i < top + bytes.len() {
        bytes[i - top]
    } else {
        0
    }
}

/// Puts `top` zero bytes before `bytes` and as many after them as it takes
/// to make `total` bytes.
fn padded(bytes: &[u8], top: usize, total: usize) -> (out: Vec<u8>)
    requires
        top + bytes@.len() <= total,
    ensures
        out@.len() == total,
        forall|i: int| 0 <= i < total ==> #[trigger] out@[i] == padded_at(bytes@, top as int, i),
{
    let mut out: Vec<u8> = Vec::new();
    out.resize(top, 0u8);
    let ghost above = out@;
    out.extend_from_slice(bytes);
    let ghost filled = out@;
    out.resize(total, 0u8);
    assert forall|i: int| 0 <= i < total implies #[trigger] out@[i] == padded_at(
        bytes@,
        top as int,
        i,
    ) by {
        if i < filled.len() {
            assert(out@[i] == filled[i]) by {
                if total > filled.len() {
                    assert(out@.subrange(0, filled.len() as int)[i] == filled[i]);
                }
            }
            if i < top {
                assert(filled[i] == above[i]);
            }
        }
    }
    out
}

/// Rows of `stride` bytes each: the bytes of `a + b` rows are those of `a`
/// rows and those of `b` rows.
proof fn lemma_rows_add(stride: int, a: int, b: int)
    by (nonlinear_arith)
    ensures
        (a + b) * stride == a * stride + b * stride,
{
}

/// An image whose rows stand between `offset` rows of zero bytes above and
/// rows of zero bytes below is on its canvas.
proof fn lemma_padded_is_canvas(canvas: Pixels, src: Pixels)
    requires
        src.wf(),
        canvas.wf(),
        canvas.width == src.width,
        canvas.height == canvas_height(src.width as int),
        src.height <= canvas.height,
        forall|i: int|
            0 <= i < canvas.data.len() ==> #[trigger] canvas.data[i] == padded_at(
                src.data,
                vertical_offset(src.width as int, src.height as int) * (3 * src.width),
                i,
            ),
    ensures
        is_canvas_of(canvas, src),
{
    let width = src.width as int;
    let stride = 3 * width;
    let offset = vertical_offset(width, src.height as int);
    let top = offset * stride;
    assert forall|x: int, y: int, c: int| canvas.has(x, y) && 0 <= c < 3 implies #[trigger] canvas.at(
        x,
        y,
        c,
    ) == canvas_at(src, x, y, c) by {
        lemma_byte_index(width, canvas.height as int, x, y, c);
        let i = byte_index(width, x, y, c);
        assert(canvas.data[i] == padded_at(src.data, top, i));
        assert(src.data.len() == src.height * stride) by (nonlinear_arith)
            requires
                src.data.len() == 3 * src.width * src.height,
                stride == 3 * src.width,
        ;
        if y < offset {
            lemma_row_index(stride, offset, y, 3 * x + c);
        } else if y < offset + src.height {
            lemma_byte_index(width, src.height as int, x, y - offset, c);
            lemma_rows_add(stride, offset, y - offset);
        } else {
            lemma_rows_add(stride, offset + src.height, y - offset - src.height);
            lemma_rows_add(stride, offset, src.height as int);
            assert(0 <= (y - offset - src.height) * stride) by (nonlinear_arith)
                requires
                    y - offset - src.height >= 0,
                    stride >= 0,
            ;
        }
    }
}

/// Puts an image that gets tiles on its canvas: as wide as the image, half
/// as high as wide, the image's rows in the middle and black rows above and
/// below. Says why, where the image gets no tiles.
pub fn normalize(src: &Raster, cfg: &TileConfig) -> (out: Result<Raster, Skip>)
    requires
        src.wf(),
        cfg.wf(),
    ensures
        match out {
            Ok(canvas) => plan_of(src@.width as int, src@.height as int, *cfg) is Ok
                && is_canvas_of(canvas@, src@),
            Err(skip) => plan_of(src@.width as int, src@.height as int, *cfg) == Err::<
                CanvasPlan,
                Skip,
            >(skip),
        },
{
    let width: u32 = src.width();
    let height: u32 = src.height();
    let plan = match plan_canvas(width, height, cfg) {
        Ok(plan) => plan,
        Err(skip) => {
            return Err(skip);
        },
    };
    let bytes = src.as_raw();
    proof {
        let stride = 3 * width;
        lemma_rows_add(stride, plan.offset as int, height as int);
        assert(0 <= plan.offset * stride && (plan.offset + height) * stride <= plan.height
            * stride && plan.height * stride == 3 * width * plan.height && height * stride == 3
            * width * height) by (nonlinear_arith)
            requires
                stride == 3 * width,
                0 <= plan.offset,
                plan.offset + height <= plan.height,
        ;
    }
    let stride: u128 = 3 * (width as u128);
    let top: usize = ((plan.offset as u128) * stride) as usize;
    let total: usize = ((plan.height as u128) * stride) as usize;
    let data = padded(bytes, top, total);
    let canvas = Raster::from_raw(width, plan.height, data).unwrap();
    proof {
        lemma_padded_is_canvas(canvas@, src@);
    }
    Ok(canvas)
}

} // verus!
