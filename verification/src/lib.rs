//! Decision logic of the Meet-123 relay helper.
pub mod audio;
pub mod browser;
pub mod desktop;
pub mod json;
pub mod pcm;
pub mod pulse;
pub mod text;
