//! Core of a raster-image annotation editor: the annotation model, the
//! image/view coordinate transform, hit-testing, moving, cropping with
//! rebasing, and the list of paint operations that a frame consists of.
//!
//! Every real-valued quantity (coordinates, stroke widths, zoom factors,
//! colour channels) is a fixed-point integer with [`fixed::UNIT`] units to
//! one whole. Pixels themselves never enter the library: it works on the
//! dimensions of the background image and tells its caller which regions
//! to cut, resample and paint.

pub mod fixed;
pub mod geometry;
pub mod annotation;
pub mod editor;
pub mod view;
pub mod crop;
pub mod render;
pub mod gesture;

pub use crate::annotation::{annotation_bounds, hit_test, move_annotation, Annotation, Rgba};
pub use crate::crop::{apply_crop, Area, PixelRegion};
pub use crate::editor::{Background, EditorState, Tool};
pub use crate::fixed::UNIT;
pub use crate::geometry::{Point, Rect};
pub use crate::render::{draw, render_to_pixbuf, Frame, PaintOp};
pub use crate::view::{map_to_image, map_to_view, view_transform};
