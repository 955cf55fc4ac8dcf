//! Core logic of an escape-time fractal viewer: the iteration-count color
//! palette, the center-outward spiral enumeration of pixel coordinates, the
//! pixel-production order of a render pass, and edge-triggered mouse-button
//! latching.
//!
//! The floating-point pieces of the viewer (the escape-time iteration kernel
//! and the viewport geometry) live with the window driver, outside this
//! library; everything here is integer or boolean logic and is verified.

pub mod help;
pub mod mouse;
pub mod palette;
pub mod render;
pub mod spiral;
