//! What the operations of the library are for, stated of all inputs: how what
//! goes in and what comes out belong together, over whole sequences of events
//! where an operation is one step of many.

pub mod calendar;
pub mod config;
pub mod ini;
pub mod keeper;
pub mod limits;
pub mod mac;
pub mod manager;
pub mod number;
pub mod path;
pub mod rclone;
pub mod session;
pub mod sso;
pub mod supervisor;
pub mod sync;
pub mod text;
pub mod tray;
