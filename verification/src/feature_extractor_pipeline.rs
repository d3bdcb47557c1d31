pub mod download_buffer;
pub mod input_texture;
pub mod kernel;
pub mod output_buffer;
pub mod pipeline;
