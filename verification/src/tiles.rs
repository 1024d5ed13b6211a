//! Cutting a canvas into a grid of square tiles.

use vstd::arithmetic::div_mod::{lemma_fundamental_div_mod, lemma_mod_bound};
use vstd::prelude::*;
use crate::canvas::{
    canvas_at, canvas_bytes, canvas_height, eligible, normalize, plan_of, tile_side, vertical_offset,
    CanvasPlan, Skip,
};
use crate::config::TileConfig;
use crate::naming::{tile_file_name, tile_name};
use crate::raster::{max_bytes, Pixels, Raster};
use crate::region::{Bounds, Coord, Region};

verus! {

/// The square that the tile in row `row` and column `column` covers when
/// tiles are `side` pixels wide. Rows and columns count from 0.
pub open spec fn tile_region(side: int, row: int, column: int) -> Region {
    Bounds {
        min: Coord { x: (column * side) as u32, y: (row * side) as u32 },
        max: Coord { x: (column * side + side) as u32, y: (row * side + side) as u32 },
    }
}

/// Place of a tile in the list of all tiles: row after row, each row from
/// the left.
pub open spec fn tile_index(columns: int, row: int, column: int) -> int {
    row * columns + column
}

/// Whether all rows of the grid lie on an image of the given size.
pub open spec fn grid_fits(width: int, height: int, cfg: TileConfig) -> bool {
    cfg.rows * tile_side(width, cfg.columns as int) <= height
}

/// One cell of the grid, cut out of a canvas.
#[derive(Clone, Debug, PartialEq, Eq)]
pub struct Tile {
    /// Row of the tile, from 0 at the top.
    pub row: u32,
    /// Column of the tile, from 0 at the left.
    pub column: u32,
    /// The pixels of the tile.
    pub image: Raster,
}

impl Tile {
    /// The tile is the part of `source` that lies in the tile's cell of a
    /// grid of squares of `side` pixels.
    pub open spec fn shows(&self, source: Pixels, side: int) -> bool {
        self.image@.is_part_of(source, tile_region(side, self.row as int, self.column as int))
    }

    /// The tile is a square of `side` pixels, and its pixels are those that
    /// the canvas of `source` has in the tile's cell.
    pub open spec fn shows_canvas_of(&self, source: Pixels, side: int) -> bool {
        let cell = tile_region(side, self.row as int, self.column as int);
        &&& self.image.wf()
        &&& self.image@.width == side
        &&& self.image@.height == side
        &&& forall|x: int, y: int, c: int|
            self.image@.has(x, y) && 0 <= c < 3 ==> #[trigger] self.image@.at(x, y, c)
                == canvas_at(source, cell.min.x + x, cell.min.y + y, c)
    }

    /// Name of the file that holds the tile.
    pub fn file_name(&self) -> (name: String)
        ensures
            name@ == tile_name(self.row as nat, self.column as nat),
    {
        tile_file_name(self.row, self.column)
    }
}

/// Whether `tiles` are the tiles of the canvas of `source`: one for each
/// cell of the grid, row after row and each row from the left.
pub open spec fn tiles_of(tiles: Seq<Tile>, source: Pixels, cfg: TileConfig) -> bool {
    &&& tiles.len() == cfg.tile_count()
    &&& forall|row: int, column: int|
        0 <= row < cfg.rows && 0 <= column < cfg.columns ==> {
            let tile = tiles[#[trigger] tile_index(cfg.columns as int, row, column)];
            &&& tile.row == row
            &&& tile.column == column
            &&& tile.shows_canvas_of(source, tile_side(source.width as int, cfg.columns as int))
        }
}

/// Tiles next to each other: `count` tiles of `side` pixels take no more
/// than `limit` pixels if `limit` holds `count` whole tiles.
proof fn lemma_tiles_within(side: int, count: int, index: int, limit: int)
    by (nonlinear_arith)
    requires
        0 <= side,
        0 <= index < count,
        count * side <= limit,
    ensures
        0 <= index * side,
        index * side + side <= limit,
{
}

/// The columns of a grid take no more than the image's width.
proof fn lemma_columns_within(width: int, columns: int)
    by (nonlinear_arith)
    requires
        0 <= width,
        0 < columns,
    ensures
        0 <= width / columns <= width,
        columns * (width / columns) <= width,
{
}

/// On a canvas, which is half as high as it is wide, the rows of every well
/// formed grid fit.
pub proof fn lemma_grid_fits_canvas(width: int, cfg: TileConfig)
    requires
        0 <= width,
        cfg.wf(),
    ensures
        grid_fits(width, canvas_height(width), cfg),
{
    let side = tile_side(width, cfg.columns as int);
    lemma_columns_within(width, cfg.columns as int);
    assert(2 * (cfg.rows * side) <= cfg.columns * side) by (nonlinear_arith)
        requires
            0 <= side,
            2 * cfg.rows <= cfg.columns,
    ;
}

/// Tiles in a row do not overlap: one that stands before another ends
/// where or before the other begins.
proof fn lemma_tiles_apart(side: int, first: int, second: int)
    by (nonlinear_arith)
    requires
        0 <= side,
        0 <= first < second,
    ensures
        0 <= first * side,
        first * side + side <= second * side,
{
}

/// Two different cells of the grid of a canvas share no pixel, so that no
/// two tiles are cut from the same place.
pub proof fn lemma_tiles_disjoint(
    width: int,
    cfg: TileConfig,
    row_a: int,
    column_a: int,
    row_b: int,
    column_b: int,
)
    requires
        0 <= width <= u32::MAX,
        cfg.wf(),
        0 <= row_a < cfg.rows,
        0 <= row_b < cfg.rows,
        0 <= column_a < cfg.columns,
        0 <= column_b < cfg.columns,
        row_a != row_b || column_a != column_b,
    ensures
        ({
            let side = tile_side(width, cfg.columns as int);
            tile_region(side, row_a, column_a).disjoint(&tile_region(side, row_b, column_b))
        }),
{
    let side = tile_side(width, cfg.columns as int);
    let a = tile_region(side, row_a, column_a);
    let b = tile_region(side, row_b, column_b);
    lemma_columns_within(width, cfg.columns as int);
    lemma_grid_fits_canvas(width, cfg);
    lemma_tiles_within(side, cfg.columns as int, column_a, width);
    lemma_tiles_within(side, cfg.columns as int, column_b, width);
    lemma_tiles_within(side, cfg.rows as int, row_a, canvas_height(width));
    lemma_tiles_within(side, cfg.rows as int, row_b, canvas_height(width));
    if column_a < column_b {
        lemma_tiles_apart(side, column_a, column_b);
    } else if column_b < column_a {
        lemma_tiles_apart(side, column_b, column_a);
    } else if row_a < row_b {
        lemma_tiles_apart(side, row_a, row_b);
    } else {
        lemma_tiles_apart(side, row_b, row_a);
    }
    assert forall|x: int, y: int| !(#[trigger] a.covers(x, y) && b.covers(x, y)) by {}
}

/// A whole number of tiles lies below `x`: as many as `x / side`.
proof fn lemma_cell_of(side: int, count: int, x: int)
    requires
        0 < side,
        0 <= x < count * side,
    ensures
        0 <= x / side < count,
        (x / side) * side <= x < (x / side) * side + side,
{
    lemma_fundamental_div_mod(x, side);
    lemma_mod_bound(x, side);
    let q = x / side;
    assert(side * q == q * side) by (nonlinear_arith);
    assert(0 <= q) by (nonlinear_arith)
        requires
            0 < side,
            0 < q * side + side,
    ;
    assert(q < count) by (nonlinear_arith)
        requires
            0 < side,
            q * side < count * side,
    ;
}

/// The cells of the grid leave no gap: every pixel of the canvas that is
/// not among those left over at the right and at the bottom lies in the
/// cell whose row and column are the pixel's coordinates divided by the
/// side of a tile.
pub proof fn lemma_tiles_cover(width: int, cfg: TileConfig, x: int, y: int)
    requires
        0 <= width <= u32::MAX,
        cfg.wf(),
        0 <= x < cfg.columns * tile_side(width, cfg.columns as int),
        0 <= y < cfg.rows * tile_side(width, cfg.columns as int),
    ensures
        ({
            let side = tile_side(width, cfg.columns as int);
            &&& 0 <= y / side < cfg.rows
            &&& 0 <= x / side < cfg.columns
            &&& tile_region(side, y / side, x / side).covers(x, y)
        }),
{
    let side = tile_side(width, cfg.columns as int);
    lemma_columns_within(width, cfg.columns as int);
    lemma_grid_fits_canvas(width, cfg);
    assert(side > 0) by (nonlinear_arith)
        requires
            0 <= side,
            0 < cfg.columns * side,
    ;
    lemma_cell_of(side, cfg.columns as int, x);
    lemma_cell_of(side, cfg.rows as int, y);
    lemma_tiles_within(side, cfg.columns as int, x / side, width);
    lemma_tiles_within(side, cfg.rows as int, y / side, canvas_height(width));
}

/// Cuts one tile out of an image; `None` unless the grid has that cell and
/// the cell lies on the image.
pub fn cut_tile(image: &Raster, cfg: &TileConfig, row: u32, column: u32) -> (out: Option<Tile>)
    requires
        image.wf(),
        cfg.wf(),
    ensures
        out is Some <==> row < cfg.rows && column < cfg.columns && (row + 1) * tile_side(
            image@.width as int,
            cfg.columns as int,
        ) <= image@.height,
        out matches Some(tile) ==> tile.row == row && tile.column == column && tile.shows(
            image@,
            tile_side(image@.width as int, cfg.columns as int),
        ),
{
    if row >= cfg.rows || column >= cfg.columns {
        return None;
    }
    let width: u32 = image.width();
    let height: u32 = image.height();
    let side: u32 = width / cfg.columns;
    proof {
        lemma_columns_within(width as int, cfg.columns as int);
        lemma_tiles_within(side as int, cfg.columns as int, column as int, width as int);
        assert((row + 1) * side == row * side + side) by (nonlinear_arith);
        assert(0 <= row * side <= 0xffff_ffff * 0xffff_ffff) by (nonlinear_arith)
            requires
                0 <= row <= 0xffff_ffff,
                0 <= side <= 0xffff_ffff,
        ;
    }
    let bottom: u64 = (row as u64) * (side as u64) + (side as u64);
    if bottom > height as u64 {
        return None;
    }
    let left: u32 = column * side;
    let top: u32 = row * side;
    let region = Bounds {
        min: Coord { x: left, y: top },
        max: Coord { x: left + side, y: top + side },
    };
    let cut = image.crop(&region);
    let tile = Tile { row, column, image: cut.unwrap() };
    Some(tile)
}

/// Cuts an image into the tiles of the grid, row after row and each row
/// from the left; `None` unless all rows of the grid lie on the image.
pub fn cut_tiles(image: &Raster, cfg: &TileConfig) -> (out: Option<Vec<Tile>>)
    requires
        image.wf(),
        cfg.wf(),
    ensures
        out is Some <==> grid_fits(image@.width as int, image@.height as int, *cfg),
        out matches Some(tiles) ==> {
            &&& tiles@.len() == cfg.tile_count()
            &&& forall|row: int, column: int|
                0 <= row < cfg.rows && 0 <= column < cfg.columns ==> {
                    let tile = tiles@[#[trigger] tile_index(cfg.columns as int, row, column)];
                    &&& tile.row == row
                    &&& tile.column == column
                    &&& tile.shows(image@, tile_side(image@.width as int, cfg.columns as int))
                }
        },
{
    let width: u32 = image.width();
    let height: u32 = image.height();
    let side: u32 = width / cfg.columns;
    assert(0 <= cfg.rows * side <= 0xffff_ffff * 0xffff_ffff) by (nonlinear_arith)
        requires
            0 <= cfg.rows <= 0xffff_ffff,
            0 <= side <= 0xffff_ffff,
    ;
    if (cfg.rows as u64) * (side as u64) > height as u64 {
        return None;
    }
    let mut tiles: Vec<Tile> = Vec::new();
    let mut row: u32 = 0;
    while row < cfg.rows
        invariant
            image.wf(),
            cfg.wf(),
            width == image@.width,
            height == image@.height,
            side == tile_side(width as int, cfg.columns as int),
            cfg.rows * side <= height,
            row <= cfg.rows,
            tiles@.len() == row * cfg.columns,
            forall|r: int, c: int|
                0 <= r < row && 0 <= c < cfg.columns ==> {
                    let tile = tiles@[#[trigger] tile_index(cfg.columns as int, r, c)];
                    &&& tile.row == r
                    &&& tile.column == c
                    &&& tile.shows(image@, side as int)
                },
        decreases cfg.rows - row,
    {
        let mut column: u32 = 0;
        while column < cfg.columns
            invariant
                image.wf(),
                cfg.wf(),
                width == image@.width,
                height == image@.height,
                side == tile_side(width as int, cfg.columns as int),
                cfg.rows * side <= height,
                row < cfg.rows,
                column <= cfg.columns,
                tiles@.len() == row * cfg.columns + column,
                forall|r: int, c: int|
                    (0 <= r < row && 0 <= c < cfg.columns) || (r == row && 0 <= c < column) ==> {
                        let tile = tiles@[#[trigger] tile_index(cfg.columns as int, r, c)];
                        &&& tile.row == r
                        &&& tile.column == c
                        &&& tile.shows(image@, side as int)
                    },
            decreases cfg.columns - column,
        {
            proof {
                lemma_tiles_within(side as int, cfg.rows as int, row as int, height as int);
                assert((row + 1) * side == row * side + side) by (nonlinear_arith);
            }
            let cut = cut_tile(image, cfg, row, column);
            let tile = cut.unwrap();
            let ghost before = tiles@;
            tiles.push(tile);
            proof {
                assert forall|r: int, c: int|
                    (0 <= r < row && 0 <= c < cfg.columns) || (r == row && 0 <= c < column
                        + 1) implies {
                    let tile = tiles@[#[trigger] tile_index(cfg.columns as int, r, c)];
                    &&& tile.row == r
                    &&& tile.column == c
                    &&& tile.shows(image@, side as int)
                } by {
                    if r < row {
                        assert(tile_index(cfg.columns as int, r, c) < row * cfg.columns)
                            by (nonlinear_arith)
                            requires
                                0 <= r < row,
                                0 <= c < cfg.columns,
                                tile_index(cfg.columns as int, r, c) == r * cfg.columns + c,
                        ;
                        assert(tiles@[tile_index(cfg.columns as int, r, c)] == before[tile_index(
                            cfg.columns as int,
                            r,
                            c,
                        )]);
                    } else if c < column {
                        assert(tiles@[tile_index(cfg.columns as int, r, c)] == before[tile_index(
                            cfg.columns as int,
                            r,
                            c,
                        )]);
                    }
                }
            }
            column = column + 1;
        }
        assert((row + 1) * cfg.columns == row * cfg.columns + cfg.columns) by (nonlinear_arith);
        row = row + 1;
    }
    Some(tiles)
}

/// An image that qualifies for tiles, and whose canvas fits into memory,
/// gets a canvas as wide as itself and half as high, on which it starts
/// `((width / 2) - height) / 2` rows from the top, and tiles whose side is
/// the width divided by the number of columns.
pub proof fn lemma_qualifying_plan(width: int, height: int, cfg: TileConfig)
    requires
        0 <= width <= u32::MAX,
        0 <= height <= u32::MAX,
        cfg.wf(),
        eligible(width, height, cfg.min_side as int),
        canvas_bytes(width) <= max_bytes(),
    ensures
        plan_of(width, height, cfg) == Ok::<CanvasPlan, Skip>(
            CanvasPlan {
                width: width as u32,
                height: (width / 2) as u32,
                offset: (((width / 2) - height) / 2) as u32,
                tile: (width / (cfg.columns as int)) as u32,
            },
        ),
        vertical_offset(width, height) + height <= canvas_height(width),
        grid_fits(width, canvas_height(width), cfg),
{
    lemma_grid_fits_canvas(width, cfg);
}

/// With the standard grid the tiles of an image are 32 squares whose side
/// is an eighth of the image's width, rounded down; the tile at place `i`
/// is that of row `i / 8` and column `i % 8`.
pub proof fn lemma_standard_tiles(tiles: Seq<Tile>, source: Pixels)
    requires
        tiles_of(tiles, source, TileConfig::spec_standard()),
    ensures
        tiles.len() == 32,
        forall|i: int|
            0 <= i < 32 ==> {
                &&& (#[trigger] tiles[i]).row == i / 8
                &&& tiles[i].column == i % 8
                &&& tiles[i].image@.width == source.width / 8
                &&& tiles[i].image@.height == source.width / 8
            },
{
    assert forall|i: int| 0 <= i < 32 implies {
        &&& (#[trigger] tiles[i]).row == i / 8
        &&& tiles[i].column == i % 8
        &&& tiles[i].image@.width == source.width / 8
        &&& tiles[i].image@.height == source.width / 8
    } by {
        assert(tile_index(8, i / 8, i % 8) == i);
    }
}

/// An image that does not qualify for tiles gets none.
pub proof fn lemma_unqualified_plan(width: int, height: int, cfg: TileConfig)
    requires
        !eligible(width, height, cfg.min_side as int),
    ensures
        plan_of(width, height, cfg) is Err,
        plan_of(width, height, cfg) != Err::<CanvasPlan, Skip>(Skip::TooLarge),
{
}

/// Cuts an image into tiles: puts it on its canvas and cuts the canvas
/// into the grid. An image that qualifies gets all the tiles of the grid;
/// one that does not gets none, and the reason is returned.
pub fn tile_image(image: &Raster, cfg: &TileConfig) -> (out: Result<Vec<Tile>, Skip>)
    requires
        image.wf(),
        cfg.wf(),
    ensures
        match out {
            Ok(tiles) => plan_of(image@.width as int, image@.height as int, *cfg) is Ok
                && tiles_of(tiles@, image@, *cfg),
            Err(skip) => plan_of(image@.width as int, image@.height as int, *cfg) == Err::<
                CanvasPlan,
                Skip,
            >(skip),
        },
        out is Ok <==> eligible(
            image@.width as int,
            image@.height as int,
            cfg.min_side as int,
        ) && canvas_bytes(image@.width as int) <= max_bytes(),
{
    let canvas = match normalize(image, cfg) {
        Ok(canvas) => canvas,
        Err(skip) => {
            return Err(skip);
        },
    };
    proof {
        lemma_grid_fits_canvas(image@.width as int, *cfg);
    }
    let cut = cut_tiles(&canvas, cfg);
    let tiles = cut.unwrap();
    proof {
        let side = tile_side(image@.width as int, cfg.columns as int);
        lemma_columns_within(image@.width as int, cfg.columns as int);
        assert forall|row: int, column: int|
            0 <= row < cfg.rows && 0 <= column < cfg.columns implies {
            let tile = tiles@[#[trigger] tile_index(cfg.columns as int, row, column)];
            &&& tile.row == row
            &&& tile.column == column
            &&& tile.shows_canvas_of(image@, side)
        } by {
            let tile = tiles@[tile_index(cfg.columns as int, row, column)];
            lemma_tiles_within(side, cfg.columns as int, column, image@.width as int);
            lemma_tiles_within(side, cfg.rows as int, row, canvas@.height as int);
            assert forall|x: int, y: int, c: int|
                tile.image@.has(x, y) && 0 <= c < 3 implies #[trigger] tile.image@.at(x, y, c)
                == canvas_at(image@, tile.column * side + x, tile.row * side + y, c) by {
                assert(canvas@.has(column * side + x, row * side + y));
                assert(canvas@.at(column * side + x, row * side + y, c) == canvas_at(
                    image@,
                    column * side + x,
                    row * side + y,
                    c,
                ));
            }
        }
    }
    Ok(tiles)
}

} // verus!
