use plugin_panoramic::config::TileConfig;
use plugin_panoramic::raster::Raster;
use plugin_panoramic::thumbnail::thumbnail;

fn gradient(width: u32, height: u32) -> Raster {
    let mut data = Vec::new();
    for y in 0..height {
        for x in 0..width {
            data.push(1 + x as u8);
            data.push(1 + y as u8);
            data.push(1 + (x + 2 * y) as u8);
        }
    }
    Raster::from_raw(width, height, data).unwrap()
}

fn solid(width: u32, height: u32, rgb: (u8, u8, u8)) -> Raster {
    let mut data = Vec::new();
    for _ in 0..(width as usize * height as usize) {
        data.push(rgb.0);
        data.push(rgb.1);
        data.push(rgb.2);
    }
    Raster::from_raw(width, height, data).unwrap()
}

#[test]
fn thumbnail_has_the_configured_size_whatever_the_image() {
    let cfg = TileConfig::standard();
    for (w, h) in [(2000, 1000), (100, 700), (1024, 512), (3, 1), (1, 1), (1500, 1500)] {
        let thumb = thumbnail(&gradient(w, h), &cfg).unwrap();
        assert_eq!((thumb.width(), thumb.height()), (1024, 512));
        assert_eq!(thumb.as_raw().len(), 3 * 1024 * 512);
    }
}

#[test]
fn thumbnail_of_one_colour_has_that_colour() {
    let cfg = TileConfig::new(16, 5, 3, 4, 8).unwrap();
    let thumb = thumbnail(&solid(40, 17, (200, 100, 50)), &cfg).unwrap();
    assert_eq!(thumb, solid(5, 3, (200, 100, 50)));
}

#[test]
fn thumbnail_repeats_pixels_when_it_enlarges() {
    let cfg = TileConfig::new(16, 4, 4, 4, 8).unwrap();
    let image = gradient(2, 2);
    let thumb = thumbnail(&image, &cfg).unwrap();
    assert_eq!((thumb.width(), thumb.height()), (4, 4));
    for y in 0..4 {
        for x in 0..4 {
            assert_eq!(thumb.pixel(x, y), image.pixel(x / 2, y / 2));
        }
    }
}

#[test]
fn thumbnail_picks_pixels_when_it_shrinks() {
    let cfg = TileConfig::new(16, 2, 2, 4, 8).unwrap();
    let image = gradient(4, 4);
    let thumb = thumbnail(&image, &cfg).unwrap();
    assert_eq!((thumb.width(), thumb.height()), (2, 2));
    for y in 0..2 {
        for x in 0..2 {
            assert_eq!(thumb.pixel(x, y), image.pixel(2 * x + 1, 2 * y + 1));
        }
    }
}

#[test]
fn thumbnail_of_the_same_size_is_the_image() {
    let cfg = TileConfig::new(16, 6, 3, 4, 8).unwrap();
    assert_eq!(thumbnail(&gradient(6, 3), &cfg), Some(gradient(6, 3)));
}

#[test]
fn thumbnail_of_an_image_without_pixels_is_black() {
    let cfg = TileConfig::new(16, 6, 3, 4, 8).unwrap();
    let empty = Raster::from_raw(0, 0, vec![]).unwrap();
    assert_eq!(thumbnail(&empty, &cfg), Some(solid(6, 3, (0, 0, 0))));
}

#[test]
fn thumbnail_without_pixels() {
    let cfg = TileConfig::new(16, 0, 0, 4, 8).unwrap();
    let thumb = thumbnail(&gradient(6, 3), &cfg).unwrap();
    assert_eq!((thumb.width(), thumb.height()), (0, 0));
}

#[test]
fn thumbnail_beyond_memory_is_none() {
    let cfg = TileConfig::new(16, u32::MAX, u32::MAX, 4, 8).unwrap();
    assert_eq!(thumbnail(&gradient(6, 3), &cfg), None);
}
