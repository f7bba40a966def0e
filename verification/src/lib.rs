//! Library for finding and fetching music tracks: catalogue types, CSV track
//! matching support, download planning, retry policy, adaptive concurrency and
//! resumable progress records.

pub mod text;
pub mod views;
pub mod types;
pub mod adaptive;
pub mod error;
pub mod retry;
pub mod progress;
pub mod download;
pub mod tidal;
pub mod matching;
pub mod commands;


