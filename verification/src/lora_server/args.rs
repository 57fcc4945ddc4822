//! What the daemon is started with.

use vstd::prelude::*;

verus! {

/// Settings of the daemon, from the command line or the environment.
#[derive(Debug)]
pub struct Args {
    /// GPIO pin of the radio's reset line.
    pub reset_pin: u8,
    /// GPIO pin of the radio's DIO0 line, where it is wired.
    pub dio0_pin: Option<u8>,
    /// Spreading factor, 7 to 12.
    pub sf: u8,
    /// Bandwidth in hertz.
    pub bw_hz: u32,
    /// Denominator of the coding rate, 5 to 8.
    pub cr: u8,
    pub sync_word: u8,
    /// Frequency in megahertz.
    pub freq: u32,
    /// The own address.
    pub addr: u16,
    /// Where to send to; a relay's next hop.
    pub dest: u16,
    /// Whether to pass on what is meant for others.
    pub relay: bool,
    /// Transmit power in dBm.
    pub power: u8,
    /// Seconds between heartbeats; 0 for none.
    pub heartbeat_interval: u64,
    /// Name of the deployment.
    pub network_id: String,
    pub health_listen: String,
    pub roc_health_url: Option<String>,
    pub health_check_interval_secs: u64,
    pub web_listen: String,
    pub socket: String,
    pub punch_db: String,
    pub push_to: Option<String>,
    pub push_interval_secs: u64,
}

} // verus!
