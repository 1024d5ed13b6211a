//! The low-resolution thumbnail of a panorama.

use vstd::prelude::*;
use crate::config::TileConfig;
use crate::raster::{max_bytes, Pixels, Raster};

verus! {

/// The bytes that nearest-neighbour resampling makes of the bytes `data` of
/// an image of `width` by `height` pixels when it is brought to `new_width`
/// by `new_height` pixels.
pub uninterp spec fn nearest_resample(
    data: Seq<u8>,
    width: u32,
    height: u32,
    new_width: u32,
    new_height: u32,
) -> Seq<u8>;

/// Whether an image of the given width can be resampled to the thumbnail's
/// size: the rows of the intermediate image, which has the source's width,
/// the thumbnail's height and four 32-bit channels, and the thumbnail itself
/// each fit into one allocation.
pub open spec fn thumbnail_fits(width: int, cfg: TileConfig) -> bool {
    &&& 16 * width * cfg.thumbnail_height <= max_bytes()
    &&& 3 * cfg.thumbnail_width * cfg.thumbnail_height <= max_bytes()
}

/// Whether `thumb` is the thumbnail of `image`: of the configured size
/// whatever the size of `image`, and with the pixels that resampling gives.
pub open spec fn is_thumbnail_of(thumb: Pixels, image: Pixels, cfg: TileConfig) -> bool {
    &&& thumb.wf()
    &&& thumb.width == cfg.thumbnail_width
    &&& thumb.height == cfg.thumbnail_height
    &&& thumb.data == nearest_resample(
        image.data,
        image.width as u32,
        image.height as u32,
        cfg.thumbnail_width,
        cfg.thumbnail_height,
    )
}

/// Where addresses have 64 bits, every image has a thumbnail of the standard
/// size.
pub proof fn lemma_standard_thumbnail_fits(width: int)
    requires
        0 <= width <= u32::MAX,
        isize::MAX >= 0x7fff_ffff_ffff_ffff,
    ensures
        thumbnail_fits(width, TileConfig::spec_standard()),
{
    assert(16 * width * 512 <= 16 * 0xffff_ffff * 512) by (nonlinear_arith)
        requires
            0 <= width <= 0xffff_ffff,
    ;
    assert(3 * 1024 * 512 == 1572864) by (nonlinear_arith);
}

/// Calls `image::imageops::resize` with `FilterType::Nearest` on the image
/// and hands back the bytes of what it returns. Trusted: the result has the
/// dimensions asked for, so three bytes for each of its `new_width *
/// new_height` pixels, and is the value that `nearest_resample` names. The
/// two bounds keep the buffers that `resize` allocates within what a `Vec`
/// may hold; beyond them it panics.
#[verifier::external_body]
fn resize_nearest(src: &Raster, new_width: u32, new_height: u32) -> (out: Vec<u8>)
    requires
        src.wf(),
        16 * src@.width * new_height <= max_bytes(),
        3 * new_width * new_height <= max_bytes(),
    ensures
        out@.len() == 3 * new_width * new_height,
        out@ == nearest_resample(
            src@.data,
            src@.width as u32,
            src@.height as u32,
            new_width,
            new_height,
        ),
{
    let pixels: &[u8] = src.as_raw();
    let view = image::ImageBuffer::<image::Rgb<u8>, &[u8]>::from_raw(
        src.width(),
        src.height(),
        pixels,
    ).unwrap();
    image::imageops::resize(&view, new_width, new_height, image::imageops::FilterType::Nearest)
        .into_raw()
}

/// The thumbnail of an image: the image resampled to the configured size by
/// taking the nearest source pixel, whatever the image's own proportions.
/// `None` only where the resampling would need more memory than one
/// allocation may hold.
pub fn thumbnail(image: &Raster, cfg: &TileConfig) -> (out: Option<Raster>)
    requires
        image.wf(),
    ensures
        out is Some <==> thumbnail_fits(image@.width as int, *cfg),
        out matches Some(thumb) ==> is_thumbnail_of(thumb@, image@, *cfg),
{
    let width: u32 = image.width();
    assert(16 * width * cfg.thumbnail_height <= 16 * 0xffff_ffff * 0xffff_ffff
        && 3 * cfg.thumbnail_width * cfg.thumbnail_height <= 3 * 0xffff_ffff * 0xffff_ffff)
        by (nonlinear_arith)
        requires
            0 <= width <= 0xffff_ffff,
            0 <= cfg.thumbnail_width <= 0xffff_ffff,
            0 <= cfg.thumbnail_height <= 0xffff_ffff,
    ;
    let rows: u128 = 16 * (width as u128) * (cfg.thumbnail_height as u128);
    let bytes: u128 = 3 * (cfg.thumbnail_width as u128) * (cfg.thumbnail_height as u128);
    if rows > isize::MAX as u128 || bytes > isize::MAX as u128 {
        return None;
    }
    let data = resize_nearest(image, cfg.thumbnail_width, cfg.thumbnail_height);
    Raster::from_raw(cfg.thumbnail_width, cfg.thumbnail_height, data)
}

} // verus!
