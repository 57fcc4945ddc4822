//! Driver logic of SX127x LoRa transceivers (SX1276, RFM95W, Ra-02).
pub mod config;
pub mod driver;
pub mod packet;
pub mod spi;

pub use config::{Bandwidth, CodingRate, Config};
pub use driver::Sx127xSpi;
pub use packet::ReceivedPacket;

use vstd::prelude::*;
use crate::decimal;

verus! {

/// Stands for a DIO0 pin where none is wired.
#[derive(Debug, Default)]
pub struct NoInputPin;

/// A DIO0 pin that can block until its own rising edge, with a timeout that it
/// keeps itself.
pub trait DioWait {
    type Error;

    /// Blocks until the rising edge or for `timeout_us` microseconds; tells
    /// whether the edge came.
    fn wait_high(&mut self, timeout_us: u32) -> Result<bool, Self::Error>;
}

/// Stands for a blocking DIO0 pin where none is wired.
#[derive(Debug, Default)]
pub struct NoWaiter;

impl DioWait for NoWaiter {
    type Error = ();

    fn wait_high(&mut self, timeout_us: u32) -> (r: Result<bool, ()>)
        ensures
            r == Ok::<bool, ()>(false),
    {
        Ok(false)
    }
}

/// What every LoRa transceiver offers.
pub trait LoraRadio {
    type Error;

    /// Applies a configuration; needed before anything is sent or received.
    fn configure(&mut self, config: &Config) -> Result<(), Self::Error>;

    /// Transmits `payload`.
    fn send(&mut self, dest: u16, payload: &[u8]) -> Result<(), Self::Error>;

    /// Looks for a received packet without waiting.
    fn receive(&mut self) -> Result<Option<ReceivedPacket>, Self::Error>;
}

/// Which completion was never seen.
#[derive(Debug, Clone, Copy, PartialEq, Eq, Structural)]
pub enum TimeoutKind {
    /// Channel activity detection, before anything was transmitted.
    ChannelActivityDetection,
    /// The transmission itself.
    TxDone,
}

/// Why an operation failed; `E` is the error of the bus.
#[derive(Debug)]
pub enum Sx127xError<E> {
    /// The bus failed.
    Transport(E),
    /// The hardware does not support a value, or a pin failed.
    InvalidConfig,
    /// The module did not answer in time.
    Timeout(TimeoutKind),
    /// The payload does not fit behind the address prefix.
    PayloadTooLarge { len: usize, max: usize },
    /// Another transmission was heard on the channel.
    ChannelBusy,
}

/// The words for an error; `transport` is what the bus says of its own.
pub open spec fn words<E>(e: Sx127xError<E>, transport: Seq<char>) -> Seq<char> {
    match e {
        Sx127xError::Transport(_) => "transport error: "@ + transport,
        Sx127xError::InvalidConfig => "invalid configuration"@,
        Sx127xError::Timeout(
            TimeoutKind::ChannelActivityDetection,
        ) => "module did not respond: channel activity detection never completed"@,
        Sx127xError::Timeout(
            TimeoutKind::TxDone,
        ) => "module did not respond: TX completion (TxDone) never observed"@,
        Sx127xError::PayloadTooLarge { len, max } => "payload too large: "@ + decimal::dec(
            len as nat,
        ) + " bytes (max "@ + decimal::dec(max as nat) + ")"@,
        Sx127xError::ChannelBusy => "channel busy (CAD detected activity)"@,
    }
}

impl<E> Sx127xError<E> {
    /// The words for an error; `transport` is what the bus says of its own.
    pub fn message(&self, transport: &str) -> (r: String)
        ensures
            r@ == words(*self, transport@),
    {
        let mut out: String = String::new();
        match self {
            Sx127xError::Transport(_) => {
                out.push_str("transport error: ");
                out.push_str(transport);
            },
            Sx127xError::InvalidConfig => out.push_str("invalid configuration"),
            Sx127xError::Timeout(TimeoutKind::ChannelActivityDetection) => out.push_str(
                "module did not respond: channel activity detection never completed",
            ),
            Sx127xError::Timeout(TimeoutKind::TxDone) => out.push_str(
                "module did not respond: TX completion (TxDone) never observed",
            ),
            Sx127xError::PayloadTooLarge { len, max } => {
                out.push_str("payload too large: ");
                decimal::push_dec(&mut out, *len as u64);
                out.push_str(" bytes (max ");
                decimal::push_dec(&mut out, *max as u64);
                out.push_str(")");
            },
            Sx127xError::ChannelBusy => out.push_str("channel busy (CAD detected activity)"),
        }
        assert(out@ =~= words(*self, transport@));
        out
    }
}

} // verus!
