use plugin_panoramic::raster::Raster;
use plugin_panoramic::region::{Bounds, Coord};

fn gradient(width: u32, height: u32) -> Raster {
    let mut data = Vec::new();
    for y in 0..height {
        for x in 0..width {
            data.push(x as u8);
            data.push(y as u8);
            data.push((x + 2 * y) as u8);
        }
    }
    Raster::from_raw(width, height, data).unwrap()
}

fn region(x0: u32, y0: u32, x1: u32, y1: u32) -> Bounds<Coord> {
    Bounds { min: Coord { x: x0, y: y0 }, max: Coord { x: x1, y: y1 } }
}

#[test]
fn from_raw_takes_three_bytes_for_each_pixel() {
    let image = Raster::from_raw(2, 3, vec![7; 18]).unwrap();
    assert_eq!(image.width(), 2);
    assert_eq!(image.height(), 3);
    assert_eq!(image.as_raw(), &[7u8; 18][..]);
    assert_eq!(image.into_raw(), vec![7u8; 18]);
}

#[test]
fn from_raw_refuses_too_few_and_too_many_bytes() {
    assert!(Raster::from_raw(2, 3, vec![0; 17]).is_none());
    assert!(Raster::from_raw(2, 3, vec![0; 19]).is_none());
    assert!(Raster::from_raw(1, 1, vec![]).is_none());
}

#[test]
fn from_raw_accepts_images_without_pixels() {
    assert!(Raster::from_raw(0, 0, vec![]).is_some());
    assert!(Raster::from_raw(0, 5, vec![]).is_some());
    assert!(Raster::from_raw(u32::MAX, 0, vec![]).is_some());
    assert!(Raster::from_raw(u32::MAX, u32::MAX, vec![]).is_none());
}

#[test]
fn pixel_reads_the_three_channels() {
    let image = gradient(4, 3);
    assert_eq!(image.pixel(0, 0), Some((0, 0, 0)));
    assert_eq!(image.pixel(3, 2), Some((3, 2, 7)));
    assert_eq!(image.pixel(1, 2), Some((1, 2, 5)));
}

#[test]
fn pixel_outside_the_image_is_none() {
    let image = gradient(4, 3);
    assert_eq!(image.pixel(4, 0), None);
    assert_eq!(image.pixel(0, 3), None);
    assert_eq!(image.pixel(u32::MAX, u32::MAX), None);
}

#[test]
fn crop_copies_the_pixels_of_the_region() {
    let image = gradient(6, 5);
    let part = image.crop(&region(2, 1, 5, 4)).unwrap();
    assert_eq!(part.width(), 3);
    assert_eq!(part.height(), 3);
    for y in 0..3 {
        for x in 0..3 {
            assert_eq!(part.pixel(x, y), image.pixel(x + 2, y + 1));
        }
    }
    assert_eq!(part.as_raw().len(), 27);
}

#[test]
fn crop_of_the_whole_image_is_the_image() {
    let image = gradient(6, 5);
    assert_eq!(image.crop(&region(0, 0, 6, 5)), Some(gradient(6, 5)));
}

#[test]
fn crop_of_an_empty_region_has_no_pixels() {
    let image = gradient(6, 5);
    let part = image.crop(&region(3, 2, 3, 4)).unwrap();
    assert_eq!((part.width(), part.height()), (0, 2));
    assert!(part.as_raw().is_empty());
    let part = image.crop(&region(6, 5, 6, 5)).unwrap();
    assert_eq!((part.width(), part.height()), (0, 0));
}

#[test]
fn crop_refuses_a_region_outside_the_image() {
    let image = gradient(6, 5);
    assert!(image.crop(&region(0, 0, 7, 5)).is_none());
    assert!(image.crop(&region(0, 0, 6, 6)).is_none());
    assert!(image.crop(&region(5, 0, 4, 5)).is_none());
    assert!(image.crop(&region(0, 4, 6, 3)).is_none());
}
