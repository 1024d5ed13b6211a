//! Everything that is made of one panorama.

use vstd::prelude::*;
use crate::canvas::{canvas_bytes, eligible, plan_of, CanvasPlan, Skip};
use crate::config::TileConfig;
use crate::geotag::{container_gps_fields, read_geotag, tag_matches, Location, TagReport};
use crate::raster::{max_bytes, Raster};
use crate::record::{processed, PGroup, PImage};
use crate::thumbnail::{is_thumbnail_of, thumbnail_fits, thumbnail};
use crate::tiles::{tile_image, tiles_of, Tile};

verus! {

/// What is made of one panorama: its record for the manifest, how its
/// location was come by, its thumbnail and its tiles.
#[derive(Debug, PartialEq, Eq)]
pub struct Clipped {
    /// The record of the image.
    pub record: PImage,
    /// How the location in the record was come by.
    pub report: TagReport,
    /// The thumbnail; `None` only if it would not fit into memory.
    pub thumbnail: Option<Raster>,
    /// The tiles, or why the image has none.
    pub tiles: Result<Vec<Tile>, Skip>,
}

/// Processes one panorama: `stem` is its name, `image` its pixels and
/// `container` the bytes of its file.
///
/// The thumbnail is made of every image. Tiles are cut only of an image that
/// qualifies, and `usetile` in the record says whether they were. The
/// location is read from the file's metadata; where there is none it is
/// 0, 0, 0.
pub fn clip_image_tile(stem: &str, image: &Raster, container: &[u8], cfg: &TileConfig) -> (out:
    Clipped)
    requires
        image.wf(),
        cfg.wf(),
    ensures
        out.record.imagename@ == stem@,
        out.record.height is None,
        out.record.longitudeoffset is None,
        out.record.usetile == (out.tiles is Ok),
        out.record.lonlat matches Some(lonlat) && {
            let tag = Location { lonlat: lonlat@, report: out.report };
            tag.wf() && tag_matches(tag, container_gps_fields(container@))
        },
        out.thumbnail is Some <==> thumbnail_fits(image@.width as int, *cfg),
        out.thumbnail matches Some(thumb) ==> is_thumbnail_of(thumb@, image@, *cfg),
        out.tiles is Ok <==> eligible(
            image@.width as int,
            image@.height as int,
            cfg.min_side as int,
        ) && canvas_bytes(image@.width as int) <= max_bytes(),
        match out.tiles {
            Ok(tiles) => tiles_of(tiles@, image@, *cfg),
            Err(skip) => plan_of(image@.width as int, image@.height as int, *cfg) == Err::<
                CanvasPlan,
                Skip,
            >(skip),
        },
{
    let thumb = thumbnail(image, cfg);
    let tiles = tile_image(image, cfg);
    let tag = read_geotag(container);
    let report = tag.report;
    let usetile = tiles.is_ok();
    let record = PImage::new(stem, tag.lonlat, usetile);
    Clipped { record, report, thumbnail: thumb, tiles }
}

/// The group of a folder: its name and the records of its images, in the
/// order in which their outcomes are given. An image that could not be
/// processed is left out of the group and does not keep the others from
/// being listed.
pub fn clip_image_tiles(name: &str, outcomes: Vec<Option<PImage>>) -> (group: PGroup)
    ensures
        group.name@ == name@,
        group.images@ == processed(outcomes@),
{
    let mut images: Vec<PImage> = Vec::new();
    let ghost all = outcomes@;
    for outcome in it: outcomes.into_iter()
        invariant
            it.seq() == all,
            images@ == processed(all.take(it.index() as int)),
    {
        proof {
            let next = all.take(it.index() + 1);
            assert(next.drop_last() =~= all.take(it.index() as int));
            assert(next.last() == outcome);
        }
        match outcome {
            Some(record) => {
                images.push(record);
            },
            None => {},
        }
    }
    assert(all.take(all.len() as int) =~= all);
    PGroup { name: String::from_str(name), images }
}

} // verus!
