pub mod color;
pub mod color_mapping;
pub mod color_threads;
pub mod hex_color;
pub mod pixel_map;
