pub mod text;
pub mod archive;
pub mod config;
pub mod compressors;
pub mod media;
