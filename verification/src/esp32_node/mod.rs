//! A punch relay node: reads a station's punches and sends them to the base.
pub mod battery;
pub mod config;
pub mod cp210x;
pub mod dio0_interrupt;
pub mod node;
pub mod persistent_log;
pub mod protocol;
pub mod psram;
pub mod wifi_config;
