//! Watermark command synthesis, batch orchestration and a bounded
//! thumbnail cache for a media-processing front end.
pub mod text;
pub mod types;
pub mod paths;
pub mod ffmpeg;
pub mod commands;
pub mod cache;
pub mod presets;
