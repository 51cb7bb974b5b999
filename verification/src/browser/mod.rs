//! Browse mode: a folder tree beside a grid of thumbnails.

pub mod grid_model;
pub mod tree_model;
pub mod windows;
