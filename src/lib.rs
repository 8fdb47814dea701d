pub mod config;
pub mod identity;
pub mod landing;
pub mod laws;
pub mod listing;
pub mod order;
pub mod render;
pub mod resolver;
pub mod segments;
