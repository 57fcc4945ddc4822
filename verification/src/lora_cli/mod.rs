//! The interactive terminal for a serial radio module, with a daemon that other
//! terminals attach to over a socket.
pub mod app;
pub mod args;
pub mod backend;
pub mod sportident;
pub mod ui;
