//! The base station daemon: radio traffic, SportIdent reading, buffering of
//! punches and the status dashboard.
pub mod protocol;
pub mod status;
pub mod radio;
pub mod args;
pub mod punch_buffer;
pub mod backend;
pub mod daemon;
pub mod daemon_state;
pub mod app;
pub mod ui;
pub mod web;
pub mod page;
pub mod version;
pub mod health;
pub mod pusher;
