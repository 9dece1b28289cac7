//! Mindful time tracking: the verified domain core.

pub mod clock;
pub mod duration;
pub mod error;
pub mod id;
pub mod status;
pub mod storage;
pub mod text;
pub mod time;
pub mod activity;
pub mod activity_log;
pub mod filter;
pub mod intermission;
pub mod options;
pub mod laws;
pub mod category;
pub mod formats;
pub mod util;
pub mod config;
pub mod summary;
pub mod review;
pub mod store;
pub mod constants;
pub mod commands;
pub mod setup;
pub mod task;
pub mod project;
