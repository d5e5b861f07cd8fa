//! BucketMount: the rules by which S3 buckets are mounted, watched and synced.

pub mod app;
pub mod applog;
pub mod clock;
pub mod config;
pub mod ini;
pub mod json;
pub mod keeper;
pub mod laws;
pub mod login;
pub mod mac;
pub mod manager;
pub mod number;
pub mod path;
pub mod rclone;
pub mod session;
pub mod split;
pub mod sso;
pub mod supervisor;
pub mod sync;
pub mod syncer;
pub mod text;
pub mod tray;
pub mod updater;
