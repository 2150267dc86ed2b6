pub mod config;
pub mod frame;
pub mod packer;
pub mod rect;
pub mod skyline;
pub mod skyline_packer;
pub mod texture;
