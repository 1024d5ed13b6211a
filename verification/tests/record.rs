use plugin_panoramic::clip::clip_image_tiles;
use plugin_panoramic::fraction::Fraction;
use plugin_panoramic::record::{PGroup, PImage};

fn record(name: &str, usetile: bool) -> PImage {
    let lonlat = vec![
        Fraction { num: 1, den: 2 },
        Fraction { num: 3, den: 4 },
        Fraction { num: 5, den: 6 },
    ];
    PImage::new(name, lonlat, usetile)
}

#[test]
fn new_record_has_no_height_and_no_offset() {
    let image = record("pano", true);
    assert_eq!(image.imagename, "pano");
    assert_eq!(
        image.lonlat,
        Some(vec![
            Fraction { num: 1, den: 2 },
            Fraction { num: 3, den: 4 },
            Fraction { num: 5, den: 6 },
        ])
    );
    assert_eq!(image.height, None);
    assert_eq!(image.longitudeoffset, None);
    assert!(image.usetile);
    assert!(!record("other", false).usetile);
}

#[test]
fn group_of_an_empty_folder() {
    let group = clip_image_tiles("B", vec![]);
    assert_eq!(group, PGroup { name: "B".to_string(), images: vec![] });
}

#[test]
fn group_keeps_the_order_of_its_images() {
    let group = clip_image_tiles(
        "A",
        vec![Some(record("one", true)), Some(record("two", false)), Some(record("three", true))],
    );
    assert_eq!(group.name, "A");
    assert_eq!(group.images, vec![record("one", true), record("two", false), record("three", true)]);
}

#[test]
fn group_leaves_out_the_images_that_failed() {
    let group = clip_image_tiles(
        "A",
        vec![None, Some(record("one", true)), None, None, Some(record("two", false)), None],
    );
    assert_eq!(group.images, vec![record("one", true), record("two", false)]);
}

#[test]
fn group_of_nothing_but_failures_is_empty() {
    let group = clip_image_tiles("A", vec![None, None]);
    assert_eq!(group, PGroup { name: "A".to_string(), images: vec![] });
}
