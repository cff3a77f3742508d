//! Justified image-grid layout.
//!
//! Given an ordered sequence of image aspect ratios and a set of layout
//! constraints (container width, minimum and maximum row height, minimum
//! item width, inter-item gap), the library partitions the images into
//! contiguous rows and assigns each row a whole-pixel height so that every
//! row fills the available width as closely as the constraints allow.
//!
//! Aspect ratios are carried as whole numbers of millionths (a ratio of
//! `0.875` is `875_000`), and all widths are compared exactly in millionths
//! of a pixel, so every decision the layout makes is exact integer
//! arithmetic.

pub mod grid;
pub mod laws;
pub mod model;

pub use grid::get_optimal_grid;
pub use grid::GridConfigError;
pub use grid::ImageGrid;
pub use grid::ResizeError;
