//! Driver logic of SX126x LoRa transceivers: bare on SPI, or behind the serial
//! port of an EBYTE E22 module.
pub mod config;
pub mod spi;
pub mod uart;

pub use crate::sx127x::packet::ReceivedPacket;
pub use config::{AirSpeed, BufferSize, Config, TxPower};
pub use spi::Sx126xSpi;

pub use uart::Sx126xUart;

use vstd::prelude::*;

verus! {

/// What every LoRa transceiver offers.
pub trait LoraRadio {
    type Error;

    /// Applies a configuration; needed before anything is sent or received.
    fn configure(&mut self, config: &Config) -> Result<(), Self::Error>;

    /// Transmits `payload` to the node `dest`.
    fn send(&mut self, dest: u16, payload: &[u8]) -> Result<(), Self::Error>;

    /// Looks for a received packet without waiting.
    fn receive(&mut self) -> Result<Option<ReceivedPacket>, Self::Error>;
}

/// Why an operation failed; `E` is the error of the bus or serial port.
#[derive(Debug, PartialEq, Eq)]
pub enum Sx126xError<E> {
    /// The bus or serial port failed.
    Transport(E),
    /// The hardware does not support a value, or a pin failed.
    InvalidConfig,
    /// The module did not answer.
    Timeout,
}

/// The words for an error; `transport` is what the bus says of its own.
pub open spec fn words<E>(e: Sx126xError<E>, transport: Seq<char>) -> Seq<char> {
    match e {
        Sx126xError::Transport(_) => "transport error: "@ + transport,
        Sx126xError::InvalidConfig => "invalid configuration"@,
        Sx126xError::Timeout => "module did not respond"@,
    }
}

impl<E> Sx126xError<E> {
    /// The words for an error; `transport` is what the bus says of its own.
    pub fn message(&self, transport: &str) -> (r: String)
        ensures
            r@ == words(*self, transport@),
    {
        let mut out: String = String::new();
        match self {
            Sx126xError::Transport(_) => {
                out.push_str("transport error: ");
                out.push_str(transport);
            },
            Sx126xError::InvalidConfig => out.push_str("invalid configuration"),
            Sx126xError::Timeout => out.push_str("module did not respond"),
        }
        assert(out@ =~= words(*self, transport@));
        out
    }
}

/// Stands for a mode pin where none is wired.
pub struct NoPin;

} // verus!
