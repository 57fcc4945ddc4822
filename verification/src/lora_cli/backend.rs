//! The module's configuration, the daemon's decisions and the lines on its
//! socket.

use vstd::prelude::*;
use crate::lora_server::daemon::{text_effect, Effect, Purpose};
use crate::lora_server::radio::encode_rx_line;
use crate::lora_server::{daemon, protocol, radio, status};
use crate::sx126x::{AirSpeed, BufferSize, Config, TxPower};
use crate::{decimal, text};
use super::args::Args;

pub use crate::lora_server::radio::parse_rx_line;

verus! {

/// Why a configuration of the module was refused.
#[derive(Debug, Clone, Copy, PartialEq, Eq, Structural)]
pub enum ConfigError {
    Power(u8),
    AirSpeed(u32),
}

impl ConfigError {
    /// The error in words.
    pub open spec fn words(self) -> Seq<char> {
        match self {
            ConfigError::Power(p) => "unsupported power "@ + decimal::dec(p as nat)
                + "dBm — use 10, 13, 17, or 22"@,
            ConfigError::AirSpeed(s) => "unsupported air_speed "@ + decimal::dec(s as nat)
                + " bps"@,
        }
    }

    /// The error in words.
    pub fn message(&self) -> (r: String)
        ensures
            r@ == self.words(),
    {
        let mut out: String = String::new();
        match self {
            ConfigError::Power(p) => {
                out.push_str("unsupported power ");
                decimal::push_dec(&mut out, *p as u64);
                out.push_str("dBm — use 10, 13, 17, or 22");
            },
            ConfigError::AirSpeed(s) => {
                out.push_str("unsupported air_speed ");
                decimal::push_dec(&mut out, *s as u64);
                out.push_str(" bps");
            },
        }
        assert(out@ =~= self.words());
        out
    }
}

/// The power of so many dBm.
pub open spec fn power_of(dbm: u8) -> Option<TxPower> {
    if dbm == 22 {
        Some(TxPower::Dbm22)
    } else if dbm == 17 {
        Some(TxPower::Dbm17)
    } else if dbm == 13 {
        Some(TxPower::Dbm13)
    } else if dbm == 10 {
        Some(TxPower::Dbm10)
    } else {
        None
    }
}

/// The rate of so many bits per second.
pub open spec fn rate_of(bps: u32) -> Option<AirSpeed> {
    if bps == 1200 {
        Some(AirSpeed::Bps1200)
    } else if bps == 2400 {
        Some(AirSpeed::Bps2400)
    } else if bps == 4800 {
        Some(AirSpeed::Bps4800)
    } else if bps == 9600 {
        Some(AirSpeed::Bps9600)
    } else if bps == 19200 {
        Some(AirSpeed::Bps19200)
    } else if bps == 38400 {
        Some(AirSpeed::Bps38400)
    } else if bps == 62500 {
        Some(AirSpeed::Bps62500)
    } else {
        None
    }
}

/// The module's configuration. The power is looked at before the rate.
pub fn build_config(args: &Args) -> (r: Result<Config, ConfigError>)
    ensures
        power_of(args.power) is None ==> r == Err::<Config, ConfigError>(
            ConfigError::Power(args.power),
        ),
        power_of(args.power) is Some && rate_of(args.air_speed) is None ==> r == Err::<
            Config,
            ConfigError,
        >(ConfigError::AirSpeed(args.air_speed)),
        power_of(args.power) is Some && rate_of(args.air_speed) is Some ==> r == Ok::<
            Config,
            ConfigError,
        >(
            (Config {
                freq_mhz: args.freq,
                addr: args.addr,
                net_id: 0,
                power: power_of(args.power)->0,
                air_speed: rate_of(args.air_speed)->0,
                buffer_size: BufferSize::Bytes240,
                rssi: true,
                crypt: 0,
            }),
        ),
{
    let power = match args.power {
        22 => TxPower::Dbm22,
        17 => TxPower::Dbm17,
        13 => TxPower::Dbm13,
        10 => TxPower::Dbm10,
        p => return Err(ConfigError::Power(p)),
    };
    let air_speed = match args.air_speed {
        1200 => AirSpeed::Bps1200,
        2400 => AirSpeed::Bps2400,
        4800 => AirSpeed::Bps4800,
        9600 => AirSpeed::Bps9600,
        19200 => AirSpeed::Bps19200,
        38400 => AirSpeed::Bps38400,
        62500 => AirSpeed::Bps62500,
        s => return Err(ConfigError::AirSpeed(s)),
    };
    Ok(
        Config {
            freq_mhz: args.freq,
            addr: args.addr,
            net_id: 0,
            power,
            air_speed,
            buffer_size: BufferSize::Bytes240,
            rssi: true,
            crypt: 0,
        },
    )
}

/// Whether a line of a client is a command that the daemon takes.
pub fn takes_line(line: &str) -> (r: bool)
    ensures
        r == (text::strip(line@, "SEND "@) is Some || text::strip(line@, "SET_DEST "@) is Some),
{
    let all = text::chars(line);
    text::strip_prefix(all.as_slice(), "SEND ").is_some() || text::strip_prefix(
        all.as_slice(),
        "SET_DEST ",
    ).is_some()
}

/// The daemon's state. Times are in milliseconds.
#[derive(Debug, Clone, Copy, PartialEq, Eq, Structural)]
pub struct Daemon {
    pub dest: u16,
    /// Seconds between heartbeats, if any are sent.
    pub heartbeat_secs: Option<u64>,
    pub last_heartbeat: u64,
}

/// What is sent for a command.
pub open spec fn command_effect(d: Daemon, cmd: Seq<char>) -> Option<daemon::EffectView> {
    if text::strip(cmd, "SET_DEST "@) is Some {
        None
    } else {
        match text::strip(cmd, "SEND "@) {
            Some(payload) => Some(daemon::send_text(d.dest, payload, Purpose::Payload)),
            None => None,
        }
    }
}

/// An optional effect as a value.
pub open spec fn opt_effect(o: Option<Effect>) -> Option<daemon::EffectView> {
    match o {
        Some(e) => Some(e@),
        None => None,
    }
}

impl Daemon {
    /// A daemon that just started.
    pub fn new(dest: u16, heartbeat_interval: u64, now: u64) -> (r: Daemon)
        ensures
            r == (Daemon {
                dest,
                heartbeat_secs: daemon::period(heartbeat_interval),
                last_heartbeat: now,
            }),
    {
        Daemon {
            dest,
            heartbeat_secs: if heartbeat_interval > 0 {
                Some(heartbeat_interval)
            } else {
                None
            },
            last_heartbeat: now,
        }
    }

    /// Obeys a command of a client.
    pub fn command(&mut self, cmd: &str) -> (r: Option<Effect>)
        ensures
            opt_effect(r) == command_effect(*old(self), cmd@),
            *final(self) == (Daemon {
                dest: match text::strip(cmd@, "SET_DEST "@) {
                    Some(n) => match protocol::parsed_addr(n) {
                        Some(dest) => dest,
                        None => old(self).dest,
                    },
                    None => old(self).dest,
                },
                ..*old(self)
            }),
    {
        let all = text::chars(cmd);
        let s = all.as_slice();
        if let Some(n) = text::strip_prefix(s, "SET_DEST ") {
            if let Some(dest) = protocol::parse_addr(n) {
                self.dest = dest;
            }
            return None;
        }
        match text::strip_prefix(s, "SEND ") {
            Some(payload) => Some(
                text_effect(self.dest, text::string_of(payload), Purpose::Payload),
            ),
            None => None,
        }
    }

    /// Whether a heartbeat is due.
    pub open spec fn due(self, now: u64) -> bool {
        match self.heartbeat_secs {
            Some(secs) => daemon::elapsed(now, self.last_heartbeat) / 1000 >= secs,
            None => false,
        }
    }

    /// Sends the heartbeat where it is due.
    pub fn heartbeat(&mut self, now: u64) -> (r: Option<Effect>)
        ensures
            opt_effect(r) == if old(self).due(now) {
                Some(daemon::send_text(old(self).dest, "HB"@, Purpose::Heartbeat))
            } else {
                None
            },
            *final(self) == (Daemon {
                last_heartbeat: if old(self).due(now) {
                    now
                } else {
                    old(self).last_heartbeat
                },
                ..*old(self)
            }),
    {
        let since: u64 = if now > self.last_heartbeat {
            now - self.last_heartbeat
        } else {
            0
        };
        let due: bool = match self.heartbeat_secs {
            Some(secs) => since / 1000 >= secs,
            None => false,
        };
        if !due {
            return None;
        }
        self.last_heartbeat = now;
        Some(text_effect(self.dest, "HB".to_owned(), Purpose::Heartbeat))
    }

    /// The line for all clients about a received packet.
    pub fn received(&self, src: u16, rssi: Option<i16>, payload: &[u8]) -> (r: String)
        ensures
            r@ == radio::rx_line(src, rssi, text::shown(payload@)),
    {
        let t = text::from_utf8_lossy(payload);
        encode_rx_line(src, rssi, t.as_str())
    }

    /// The line for all clients about a failed look for a packet.
    pub fn receive_failed(&self, error: &str) -> (r: String)
        ensures
            r@ == (status::StatusView::Error("RX: "@ + error@)).line(),
    {
        daemon::failure("RX: ", error)
    }
}

/// The line with which a client sends a payload.
pub fn send_line(payload: &[u8]) -> (r: String)
    ensures
        r@ == "SEND "@ + text::shown(payload@),
{
    let mut out: String = String::new();
    out.push_str("SEND ");
    out.push_str(text::from_utf8_lossy(payload).as_str());
    assert(out@ =~= "SEND "@ + text::shown(payload@));
    out
}

/// The line with which a client changes the destination.
pub fn set_dest_line(dest: u16) -> (r: String)
    ensures
        r@ == "SET_DEST "@ + decimal::dec(dest as nat),
{
    let mut out: String = String::new();
    out.push_str("SET_DEST ");
    decimal::push_dec(&mut out, dest as u64);
    assert(out@ =~= "SET_DEST "@ + decimal::dec(dest as nat));
    out
}

/// What a client writes on the socket is a command that the daemon takes and
/// obeys: a payload is sent to the destination, and a destination is taken over.
pub proof fn law_client_lines_are_obeyed(d: Daemon, payload: Seq<char>, dest: u16)
    ensures
        command_effect(d, "SEND "@ + payload) == Some(
            daemon::send_text(d.dest, payload, Purpose::Payload),
        ),
        text::strip("SET_DEST "@ + decimal::dec(dest as nat), "SET_DEST "@) == Some(
            decimal::dec(dest as nat),
        ),
        protocol::parsed_addr(decimal::dec(dest as nat)) == Some(dest),
{
    reveal_strlit("SEND ");
    reveal_strlit("SET_DEST ");
    let s = "SEND "@ + payload;
    assert(s[2] == 'N');
    text::lemma_strip_none(s, "SET_DEST "@, 2);
    text::lemma_strip("SEND "@, payload);
    text::lemma_strip("SET_DEST "@, decimal::dec(dest as nat));
    decimal::lemma_dec_trimmed(dest as nat);
    decimal::lemma_parse_dec(dest as nat, u16::MAX as nat);
}

/// A power or a rate is the module's that has this value, and none where the
/// module has no such value.
pub proof fn law_values_are_the_modules(dbm: u8, bps: u32, p: TxPower, a: AirSpeed)
    ensures
        power_of(dbm) == Some(p) <==> p.in_dbm() == dbm,
        rate_of(bps) == Some(a) <==> a.bps() == bps,
{
}

} // verus!
