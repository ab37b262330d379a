//! Verified core of r2nova, a desktop client for Cloudflare R2.
pub mod clock;
pub mod commands;
pub mod config;
pub mod creds;
pub mod engine;
pub mod error;
pub mod ids;
pub mod keyed;
pub mod listing;
pub mod models;
pub mod multipart;
pub mod paths;
pub mod runs;
pub mod tasks;
pub mod text;
pub mod transfer;
