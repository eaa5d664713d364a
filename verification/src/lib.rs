//! Verified core of a worker that turns audio objects into WebVTT and SRT subtitles.

pub mod client_config;
pub mod clock;
pub mod consumer;
pub mod failure;
pub mod file_id;
pub mod guarantees;
pub mod kafka;
pub mod loader_s3;
pub mod number;
pub mod object_path;
pub mod ordering;
pub mod pipeline;
pub mod retry;
pub mod settings;
pub mod speakers;
pub mod subtitle;
pub mod text;
pub mod transcriber;
pub mod transcript;
pub mod wav;
pub mod whisper;
