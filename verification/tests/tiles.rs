use plugin_panoramic::canvas::Skip;
use plugin_panoramic::config::TileConfig;
use plugin_panoramic::raster::Raster;
use plugin_panoramic::tiles::{cut_tile, cut_tiles, tile_image};

fn gradient(width: u32, height: u32) -> Raster {
    let mut data = Vec::new();
    for y in 0..height {
        for x in 0..width {
            data.push(1 + x as u8);
            data.push(1 + y as u8);
            data.push(1 + (x + 2 * y) as u8);
        }
    }
    Raster::from_raw(width, height, data).unwrap()
}

fn small() -> TileConfig {
    TileConfig::new(16, 8, 4, 4, 8).unwrap()
}

#[test]
fn cut_tile_copies_its_cell() {
    let canvas = gradient(16, 8);
    let tile = cut_tile(&canvas, &small(), 1, 2).unwrap();
    assert_eq!((tile.row, tile.column), (1, 2));
    assert_eq!((tile.image.width(), tile.image.height()), (2, 2));
    for y in 0..2 {
        for x in 0..2 {
            assert_eq!(tile.image.pixel(x, y), canvas.pixel(4 + x, 2 + y));
        }
    }
}

#[test]
fn cut_tile_outside_the_grid_is_none() {
    let canvas = gradient(16, 8);
    assert!(cut_tile(&canvas, &small(), 4, 0).is_none());
    assert!(cut_tile(&canvas, &small(), 0, 8).is_none());
    assert!(cut_tile(&canvas, &small(), 3, 7).is_some());
}

#[test]
fn cut_tile_below_the_image_is_none() {
    let flat = gradient(16, 5);
    assert!(cut_tile(&flat, &small(), 1, 0).is_some());
    assert!(cut_tile(&flat, &small(), 2, 0).is_none());
}

#[test]
fn cut_tiles_gives_every_cell_row_by_row() {
    let canvas = gradient(16, 8);
    let tiles = cut_tiles(&canvas, &small()).unwrap();
    assert_eq!(tiles.len(), 32);
    for (i, tile) in tiles.iter().enumerate() {
        let row = (i / 8) as u32;
        let column = (i % 8) as u32;
        assert_eq!((tile.row, tile.column), (row, column));
        assert_eq!((tile.image.width(), tile.image.height()), (2, 2));
        for y in 0..2 {
            for x in 0..2 {
                assert_eq!(tile.image.pixel(x, y), canvas.pixel(2 * column + x, 2 * row + y));
            }
        }
    }
}

#[test]
fn cut_tiles_drops_the_pixels_that_are_left_over() {
    let canvas = gradient(23, 11);
    let tiles = cut_tiles(&canvas, &small()).unwrap();
    assert_eq!(tiles.len(), 32);
    for tile in tiles.iter() {
        assert_eq!((tile.image.width(), tile.image.height()), (2, 2));
    }
    let last = &tiles[31];
    assert_eq!(last.image.pixel(1, 1), canvas.pixel(15, 7));
}

#[test]
fn cut_tiles_refuses_an_image_too_low_for_the_grid() {
    assert!(cut_tiles(&gradient(16, 7), &small()).is_none());
    assert!(cut_tiles(&gradient(16, 8), &small()).is_some());
}

#[test]
fn cut_tiles_of_an_image_narrower_than_the_grid() {
    let tiles = cut_tiles(&gradient(7, 3), &small()).unwrap();
    assert_eq!(tiles.len(), 32);
    for tile in tiles.iter() {
        assert_eq!((tile.image.width(), tile.image.height()), (0, 0));
    }
}

#[test]
fn tile_image_cuts_the_canvas_not_the_image() {
    let image = gradient(16, 4);
    let tiles = tile_image(&image, &small()).unwrap();
    assert_eq!(tiles.len(), 32);
    for tile in tiles.iter() {
        assert_eq!((tile.image.width(), tile.image.height()), (2, 2));
        for y in 0..2 {
            for x in 0..2 {
                let cx = 2 * tile.column + x;
                let cy = 2 * tile.row + y;
                let expected = if (2..6).contains(&cy) {
                    image.pixel(cx, cy - 2)
                } else {
                    Some((0, 0, 0))
                };
                assert_eq!(tile.image.pixel(x, y), expected);
            }
        }
    }
}

#[test]
fn tile_image_gives_no_tiles_to_an_image_that_does_not_qualify() {
    assert_eq!(tile_image(&gradient(16, 9), &small()), Err(Skip::TooNarrow));
    assert_eq!(tile_image(&gradient(14, 2), &small()), Err(Skip::TooSmall));
}

#[test]
fn tile_image_with_another_grid() {
    let cfg = TileConfig::new(10, 8, 4, 2, 5).unwrap();
    let image = gradient(21, 10);
    let tiles = tile_image(&image, &cfg).unwrap();
    assert_eq!(tiles.len(), 10);
    for (i, tile) in tiles.iter().enumerate() {
        assert_eq!((tile.row, tile.column), ((i / 5) as u32, (i % 5) as u32));
        assert_eq!((tile.image.width(), tile.image.height()), (4, 4));
        assert_eq!(tile.image.pixel(3, 3), image.pixel(4 * tile.column + 3, 4 * tile.row + 3));
    }
}

#[test]
fn tile_file_names_count_from_one() {
    let tiles = cut_tiles(&gradient(16, 8), &small()).unwrap();
    assert_eq!(tiles[0].file_name(), "row-1-column-1.jpg");
    assert_eq!(tiles[7].file_name(), "row-1-column-8.jpg");
    assert_eq!(tiles[8].file_name(), "row-2-column-1.jpg");
    assert_eq!(tiles[31].file_name(), "row-4-column-8.jpg");
}

#[test]
fn every_pixel_inside_the_grid_lies_in_the_tile_of_its_cell() {
    let canvas = gradient(23, 11);
    let tiles = cut_tiles(&canvas, &small()).unwrap();
    for y in 0..8 {
        for x in 0..16 {
            let tile = &tiles[(y / 2 * 8 + x / 2) as usize];
            assert_eq!((tile.row, tile.column), (y / 2, x / 2));
            assert_eq!(tile.image.pixel(x % 2, y % 2), canvas.pixel(x, y));
        }
    }
}

#[test]
fn tiles_of_one_image_have_different_file_names() {
    let cfg = TileConfig::new(0, 1, 1, 12, 30).unwrap();
    let tiles = cut_tiles(&gradient(60, 30), &cfg).unwrap();
    let mut names: Vec<String> = tiles.iter().map(|t| t.file_name()).collect();
    assert_eq!(names.len(), 360);
    assert!(names.contains(&"row-1-column-11.jpg".to_string()));
    assert!(names.contains(&"row-11-column-1.jpg".to_string()));
    assert!(names.contains(&"row-12-column-30.jpg".to_string()));
    names.sort();
    names.dedup();
    assert_eq!(names.len(), 360);
}
