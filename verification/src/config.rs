//! The numbers that steer tiling.

use vstd::prelude::*;

verus! {

/// Smallest width, in pixels, of a panorama that is cut into tiles.
pub const MIN_SIZE: u32 = 5000;

/// Width of the thumbnail, in pixels.
pub const THUMBNAIL_WIDTH: u32 = 1024;

/// Height of the thumbnail, in pixels.
pub const THUMBNAIL_HEIGHT: u32 = 512;

/// Number of tile rows.
pub const ROWS: u32 = 4;

/// Number of tile columns.
pub const COLUMNS: u32 = 8;

/// What an image must be to get tiles, how many tiles it gets, and how large
/// its thumbnail is.
#[derive(Clone, Copy, Debug, PartialEq, Eq, Structural)]
pub struct TileConfig {
    /// Images narrower than this get no tiles.
    pub min_side: u32,
    /// Width of the thumbnail.
    pub thumbnail_width: u32,
    /// Height of the thumbnail.
    pub thumbnail_height: u32,
    /// Number of tile rows.
    pub rows: u32,
    /// Number of tile columns.
    pub columns: u32,
}

impl TileConfig {
    /// There is at least one row, and twice as many columns as rows or more:
    /// tiles are squares whose side is the canvas width divided by the number
    /// of columns, and the canvas is half as high as it is wide, so this is
    /// what makes the rows fit on any canvas.
    pub open spec fn wf(&self) -> bool {
        1 <= self.rows && 2 * self.rows <= self.columns
    }

    /// Number of tiles of one image.
    pub open spec fn tile_count(&self) -> int {
        self.rows * self.columns
    }

    /// The configuration with the given numbers; `None` unless it is well
    /// formed.
    pub fn new(
        min_side: u32,
        thumbnail_width: u32,
        thumbnail_height: u32,
        rows: u32,
        columns: u32,
    ) -> (out: Option<TileConfig>)
        ensures
            out is Some <==> 1 <= rows && 2 * rows <= columns,
            out matches Some(cfg) ==> cfg.wf() && cfg == (TileConfig {
                min_side,
                thumbnail_width,
                thumbnail_height,
                rows,
                columns,
            }),
    {
        if rows >= 1 && 2 * (rows as u64) <= columns as u64 {
            Some(TileConfig { min_side, thumbnail_width, thumbnail_height, rows, columns })
        } else {
            None
        }
    }

    /// Four rows of eight tiles for panoramas at least 5000 pixels wide, and
    /// a thumbnail of 1024 by 512 pixels.
    pub open spec fn spec_standard() -> TileConfig {
        TileConfig {
            min_side: 5000,
            thumbnail_width: 1024,
            thumbnail_height: 512,
            rows: 4,
            columns: 8,
        }
    }

    /// Four rows of eight tiles for panoramas at least 5000 pixels wide, and
    /// a thumbnail of 1024 by 512 pixels.
    #[verifier::when_used_as_spec(spec_standard)]
    pub fn standard() -> (cfg: TileConfig)
        ensures
            cfg == TileConfig::spec_standard(),
            cfg.wf(),
            cfg.tile_count() == 32,
    {
        TileConfig {
            min_side: MIN_SIZE,
            thumbnail_width: THUMBNAIL_WIDTH,
            thumbnail_height: THUMBNAIL_HEIGHT,
            rows: ROWS,
            columns: COLUMNS,
        }
    }

    /// Whether the configuration is well formed.
    pub fn is_valid(&self) -> (ok: bool)
        ensures
            ok == self.wf(),
    {
        self.rows >= 1 && 2 * (self.rows as u64) <= self.columns as u64
    }
}

} // verus!
