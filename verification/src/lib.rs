//! Procedural pixel-art "strangers": a verified drawing library.
pub mod canvas;
pub mod color;
pub mod curve;
pub mod eye;
pub mod fill;
pub mod line;
pub mod metadata;
pub mod palette;
pub mod params;
pub mod pattern;
pub mod random;
pub mod render;
pub mod sample;
pub mod stages;
pub mod strokes;
