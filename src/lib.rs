//! Verified core of a manga chapter downloader and watermark remover.

pub mod codec;
pub mod config;
pub mod corpus;
pub mod detect;
pub mod download;
pub mod errors;
pub mod events;
pub mod generate;
pub mod paths;
pub mod progress;
pub mod raster;
pub mod removal;
pub mod text;
pub mod titles;
pub mod types;
pub mod vendor;
