//! The verified core of a colour picker: HSV and RGB colour arithmetic,
//! spectrum fields that map an area to colours and back, the raster caches
//! and the pointer interaction that selects a colour.
//!
//! Every quantity is a fixed-point integer. Saturation, value, alpha and the
//! RGB channels count millionths of the whole, hue counts millionths of a
//! degree, and positions and extents are integers in whatever unit the host
//! lays its widgets out in.

pub mod cache;
pub mod fixed;
pub mod geometry;
pub mod hsv;
pub mod spectrums;
pub mod style;
pub mod widget;

pub use hsv::{hsv, hsva, Hsv, Rgba};
pub use spectrums::{HsvComponent, Spectrum};
pub use style::MarkerShape;
