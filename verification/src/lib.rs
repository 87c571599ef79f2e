//! ribb — a booru browser's library: the normalized booru data model, the
//! per-site request builders and response normalizers, the image cache and
//! decoding, the application's search-session state machine, the video
//! player's playback clock, and what the views show.
pub mod text;
pub mod booru;
pub mod cache;
pub mod settings;
pub mod app;
pub mod download;
pub mod view;
pub mod style;
pub mod video;
