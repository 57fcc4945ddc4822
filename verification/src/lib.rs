//! Radio online control for orienteering: SportIdent punches read at remote
//! control points travel over LoRa to a base station and on to the event's
//! results software.
pub mod text;
pub mod clock;
pub mod decimal;
pub mod env_file;
pub mod esp32_node;
pub mod html;
pub mod lora_cli;
pub mod lora_output;
pub mod lora_server;
pub mod sportident;
pub mod sx127x;
pub mod sx126x;
pub mod roc_server;
