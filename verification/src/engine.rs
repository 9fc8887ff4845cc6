pub mod codec;
pub mod image_error;
pub mod image_filters;
pub mod image_processing;
pub mod image_processing_result;
pub mod pixel_grid;

pub use image_error::ErrorCode;
pub use pixel_grid::ColorRgba;
pub use pixel_grid::PixelGrid;
