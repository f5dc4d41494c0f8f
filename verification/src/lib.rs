//! A verified raster core for plotting a single integer-valued function of one
//! integer argument on a resizable RGBA canvas.
//!
//! The crate is organised around one tick of a host render loop: a resize
//! notification (if any) is applied to the canvas state and the backing
//! framebuffer, directional input steps the pivot, and the rasterizer clears
//! the framebuffer and lights one pixel per visible column where the function's
//! value falls inside the canvas.

pub mod canvas;
pub mod color;
pub mod function;
pub mod raster;
