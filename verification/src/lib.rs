//! Badge evaluation over speedrunning leaderboards.

pub mod analyzer;
pub mod boards;
pub mod cache;
pub mod config;
pub mod error;
pub mod key;
pub mod model;
pub mod multikey_hashmap;
pub mod report;
pub mod roles;
pub mod server;
pub mod share;
pub mod text;
pub mod time;
pub mod vec_map;
