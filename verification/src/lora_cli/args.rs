//! What the terminal is started with.

use vstd::prelude::*;
use crate::text;

verus! {

/// Settings from the command line or the environment.
#[derive(Debug)]
pub struct Args {
    /// Path of the serial port.
    pub port: Option<String>,
    /// `uart` or `spi`.
    pub radio: String,
    pub reset_pin: u8,
    pub sf: u8,
    pub bw_hz: u32,
    pub cr: u8,
    pub sync_word: u8,
    /// Frequency in megahertz.
    pub freq: u32,
    pub addr: u16,
    pub dest: u16,
    /// Transmit power in dBm.
    pub power: u8,
    /// Rate on the air in bits per second.
    pub air_speed: u32,
    pub m0_pin: Option<u8>,
    pub m1_pin: Option<u8>,
    /// Seconds between heartbeats; 0 for none.
    pub heartbeat_interval: u64,
    pub socket: String,
    /// Whether to attach to a running daemon.
    pub attach: bool,
}

/// How to start.
#[derive(Debug, Clone, Copy, PartialEq, Eq, Structural)]
pub enum Start {
    Attach,
    Spi,
    Uart,
    /// A serial port is needed and none was given.
    PortMissing,
}

impl Args {
    /// How to start: a running daemon is attached to, else a radio is opened,
    /// for which a serial port is needed unless it is on SPI.
    pub fn start(&self) -> (r: Start)
        ensures
            r == if self.attach {
                Start::Attach
            } else if self.radio@ == "spi"@ {
                Start::Spi
            } else if self.port is None {
                Start::PortMissing
            } else {
                Start::Uart
            },
    {
        if self.attach {
            return Start::Attach;
        }
        let radio = text::chars(self.radio.as_str());
        if text::same(radio.as_slice(), "spi") {
            Start::Spi
        } else if self.port.is_none() {
            Start::PortMissing
        } else {
            Start::Uart
        }
    }
}

} // verus!
