//! Decoding of planar console graphics into pixel buffers, resolution of stacked
//! tileset sources into one address space, and a cache of rendered results.
//!
//! Data flows from raw bytes to tiles ([`gfx`]), which a grid of tile
//! references ([`tilemap`], [`grid`]) places in an image ([`image`]). The tiles
//! of a grid are found through a layout that stacks several tilesets
//! ([`tileset`]); rendered images are kept under the layout that they were
//! rendered from ([`cache`]). The other modules hold what a project is read
//! from and shown with.

pub mod bits;
pub mod cache;
pub mod display;
pub mod editor;
pub mod gfx;
pub mod grid;
pub mod hex_types;
pub mod image;
pub mod order;
pub mod project;
pub mod promise;
pub mod room;
pub mod smart_xml;
pub mod text;
pub mod tilemap;
pub mod tileset;
pub mod util;
