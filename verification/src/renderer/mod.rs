//! Frame buffers and the estimator that fills them.
pub mod partitioned_buffer;
pub mod pixel_buffer;
pub mod render;
pub mod renderer_buffer;
pub use partitioned_buffer::PartitionedBuffer;
pub use pixel_buffer::PixelBuffer;

pub use render::render;
