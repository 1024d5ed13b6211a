//! Tiling of equirectangular panoramas.
//!
//! A decoded panorama is centred on a 2:1 canvas, the canvas is cut into a
//! fixed grid of square tiles, a small thumbnail is resampled from the source
//! pixels, and the geolocation stored in the file's metadata container is
//! turned into exact decimal degrees. Everything here works on values in
//! memory; reading and writing files is left to the caller.

pub mod canvas;
pub mod clip;
pub mod config;
pub mod fraction;
pub mod geotag;
pub mod naming;
pub mod raster;
pub mod record;
pub mod region;
pub mod thumbnail;
pub mod tiles;

pub use crate::clip::{clip_image_tile, clip_image_tiles};
pub use crate::record::{PGroup, PImage};
pub use crate::region::Bounds;
