//! The settings of a node, kept over a power cycle.

use vstd::prelude::*;
use crate::sx127x::config as modem;
use crate::sx127x::spi;
use crate::sx127x::{Bandwidth, CodingRate, Config};

verus! {

/// The namespace under which the settings are stored.
pub const NAMESPACE: &'static str = "nodecfg";

/// Frequency of the standard mode.
pub const STANDARD_FREQ_HZ: u32 = 868_000_000;

/// Sync word of the standard mode.
pub const STANDARD_SYNC_WORD: u8 = 0x12;

/// Spreading factor of the standard mode.
pub const STANDARD_SF: u8 = 7;

/// Bandwidth of the standard mode.
pub const STANDARD_BW_HZ: u32 = 125_000;

/// Denominator of the coding rate of the standard mode.
pub const STANDARD_CR: u8 = 5;

/// Transmit power after every boot.
pub const DEFAULT_TX_POWER_DBM: i8 = 20;

/// The settings of a node.
#[derive(Debug, Clone, Copy, PartialEq, Eq, Structural)]
pub struct NodeConfig {
    /// The node's own address.
    pub addr: u16,
    /// Where it sends to.
    pub dest: u16,
    pub freq_hz: u32,
    /// What keeps other deployments nearby apart: the radio drops what carries
    /// another sync word.
    pub sync_word: u8,
    pub sf: u8,
    pub bw_hz: u32,
    /// Denominator of the coding rate.
    pub cr: u8,
}

/// What the store holds of the settings; `None` where it holds nothing.
#[derive(Debug, Clone, Copy)]
pub struct Stored {
    pub addr: Option<u16>,
    pub dest: Option<u16>,
    pub freq_hz: Option<u32>,
    pub sync_word: Option<u8>,
    pub sf: Option<u8>,
    pub bw_hz: Option<u32>,
    pub cr: Option<u8>,
}

/// A stored value, or its default.
pub open spec fn or<T>(o: Option<T>, d: T) -> T {
    match o {
        Some(v) => v,
        None => d,
    }
}

/// The settings in a store, with defaults for what it does not hold.
pub open spec fn loaded(s: Stored, d: NodeConfig) -> NodeConfig {
    NodeConfig {
        addr: or(s.addr, d.addr),
        dest: or(s.dest, d.dest),
        freq_hz: or(s.freq_hz, d.freq_hz),
        sync_word: or(s.sync_word, d.sync_word),
        sf: or(s.sf, d.sf),
        bw_hz: or(s.bw_hz, d.bw_hz),
        cr: or(s.cr, d.cr),
    }
}

/// The settings of a node that has none stored.
pub open spec fn first_boot() -> NodeConfig {
    NodeConfig {
        addr: 10,
        dest: 1,
        freq_hz: STANDARD_FREQ_HZ,
        sync_word: STANDARD_SYNC_WORD,
        sf: STANDARD_SF,
        bw_hz: STANDARD_BW_HZ,
        cr: STANDARD_CR,
    }
}

/// The settings of a node that has none stored.
pub fn default_config() -> (r: NodeConfig)
    ensures
        r == first_boot(),
{
    NodeConfig {
        addr: 10,
        dest: 1,
        freq_hz: STANDARD_FREQ_HZ,
        sync_word: STANDARD_SYNC_WORD,
        sf: STANDARD_SF,
        bw_hz: STANDARD_BW_HZ,
        cr: STANDARD_CR,
    }
}

/// The bandwidth of so many hertz; 125 kHz where there is none.
pub open spec fn bandwidth(hz: u32) -> Bandwidth {
    if exists|b: Bandwidth| #[trigger] b.in_hz() == hz {
        choose|b: Bandwidth| #[trigger] b.in_hz() == hz
    } else {
        Bandwidth::Khz125
    }
}

/// The coding rate of a denominator; 4/5 where there is none.
pub open spec fn coding_rate(d: u8) -> CodingRate {
    if exists|c: CodingRate| #[trigger] c.den() == d {
        choose|c: CodingRate| #[trigger] c.den() == d
    } else {
        CodingRate::Cr4_5
    }
}

impl NodeConfig {
    /// Takes the settings from a store, and the defaults for what it does not
    /// hold.
    pub fn load(stored: &Stored, defaults: NodeConfig) -> (r: NodeConfig)
        ensures
            r == loaded(*stored, defaults),
    {
        NodeConfig {
            addr: match stored.addr {
                Some(v) => v,
                None => defaults.addr,
            },
            dest: match stored.dest {
                Some(v) => v,
                None => defaults.dest,
            },
            freq_hz: match stored.freq_hz {
                Some(v) => v,
                None => defaults.freq_hz,
            },
            sync_word: match stored.sync_word {
                Some(v) => v,
                None => defaults.sync_word,
            },
            sf: match stored.sf {
                Some(v) => v,
                None => defaults.sf,
            },
            bw_hz: match stored.bw_hz {
                Some(v) => v,
                None => defaults.bw_hz,
            },
            cr: match stored.cr {
                Some(v) => v,
                None => defaults.cr,
            },
        }
    }

    /// What is stored of the settings.
    pub open spec fn kept(self) -> Stored {
        Stored {
            addr: Some(self.addr),
            dest: Some(self.dest),
            freq_hz: Some(self.freq_hz),
            sync_word: Some(self.sync_word),
            sf: Some(self.sf),
            bw_hz: Some(self.bw_hz),
            cr: Some(self.cr),
        }
    }

    /// What to store of the settings: all of them.
    pub fn save(&self) -> (r: Stored)
        ensures
            r == self.kept(),
    {
        Stored {
            addr: Some(self.addr),
            dest: Some(self.dest),
            freq_hz: Some(self.freq_hz),
            sync_word: Some(self.sync_word),
            sf: Some(self.sf),
            bw_hz: Some(self.bw_hz),
            cr: Some(self.cr),
        }
    }

    /// The settings with the standard radio mode.
    pub open spec fn standard(self) -> NodeConfig {
        NodeConfig {
            freq_hz: STANDARD_FREQ_HZ,
            sync_word: STANDARD_SYNC_WORD,
            sf: STANDARD_SF,
            bw_hz: STANDARD_BW_HZ,
            cr: STANDARD_CR,
            ..self
        }
    }

    /// The settings with the standard radio mode; the addresses stay.
    pub fn standard_rf(&self) -> (r: NodeConfig)
        ensures
            r == self.standard(),
    {
        NodeConfig {
            addr: self.addr,
            dest: self.dest,
            freq_hz: STANDARD_FREQ_HZ,
            sync_word: STANDARD_SYNC_WORD,
            sf: STANDARD_SF,
            bw_hz: STANDARD_BW_HZ,
            cr: STANDARD_CR,
        }
    }

    /// The modem's configuration under these settings.
    pub open spec fn modem(self, tx_power_dbm: i8) -> Config {
        Config {
            freq_hz: self.freq_hz,
            addr: self.addr,
            spreading_factor: self.sf,
            bandwidth: bandwidth(self.bw_hz),
            coding_rate: coding_rate(self.cr),
            sync_word: self.sync_word,
            tx_power_dbm,
            ..modem::default_config()
        }
    }

    /// The modem's configuration under these settings. A bandwidth or a coding
    /// rate that the modem does not have gives way to 125 kHz or 4/5.
    pub fn radio_config(&self, tx_power_dbm: i8) -> (r: Config)
        ensures
            r == self.modem(tx_power_dbm),
    {
        let bw = match Bandwidth::from_hz(self.bw_hz) {
            Some(b) => {
                proof {
                    let c = choose|c: Bandwidth| #[trigger] c.in_hz() == self.bw_hz;
                    modem::law_bandwidths_differ(b, c);
                }
                b
            },
            None => Bandwidth::Khz125,
        };
        let cr = match CodingRate::from_denominator(self.cr) {
            Some(b) => {
                proof {
                    let c = choose|c: CodingRate| #[trigger] c.den() == self.cr;
                    modem::law_coding_rates_differ(b, c);
                }
                b
            },
            None => CodingRate::Cr4_5,
        };
        Config {
            freq_hz: self.freq_hz,
            addr: self.addr,
            spreading_factor: self.sf,
            bandwidth: bw,
            coding_rate: cr,
            sync_word: self.sync_word,
            preamble_len: 8,
            tx_power_dbm,
            crc_on: true,
        }
    }
}

/// Settings that were stored are those of the next boot.
pub proof fn law_settings_survive_a_reboot(c: NodeConfig, defaults: NodeConfig)
    ensures
        loaded(c.kept(), defaults) == c,
{
}

/// A new node and one that fell back to the standard mode share the radio mode.
pub proof fn law_standard_mode_is_the_first(c: NodeConfig)
    ensures
        c.standard() == (NodeConfig { addr: c.addr, dest: c.dest, ..first_boot() }),
        c.standard().addr == c.addr,
        c.standard().dest == c.dest,
{
}

/// A node's radio works on the node's settings: frequency, address, spreading
/// factor and sync word as they are set, the bandwidth and the coding rate where
/// the modem has them, and 125 kHz or 4/5 where it does not.
pub proof fn law_radio_works_on_the_settings(c: NodeConfig, tx_power_dbm: i8)
    ensures
        c.modem(tx_power_dbm).freq_hz == c.freq_hz,
        c.modem(tx_power_dbm).addr == c.addr,
        c.modem(tx_power_dbm).spreading_factor == c.sf,
        c.modem(tx_power_dbm).sync_word == c.sync_word,
        c.modem(tx_power_dbm).tx_power_dbm == tx_power_dbm,
        c.modem(tx_power_dbm).preamble_len == 8,
        c.modem(tx_power_dbm).crc_on,
        c.modem(tx_power_dbm).bandwidth.in_hz() == c.bw_hz || (c.modem(
            tx_power_dbm,
        ).bandwidth.in_hz() == 125_000 && forall|b: Bandwidth| #[trigger] b.in_hz() != c.bw_hz),
        c.modem(tx_power_dbm).coding_rate.den() == c.cr || (c.modem(tx_power_dbm).coding_rate.den()
            == 5 && forall|r: CodingRate| #[trigger] r.den() != c.cr),
        4 < c.cr <= 8 ==> c.modem(tx_power_dbm).coding_rate.den() == c.cr,
{
    if c.cr == 5 {
        assert(CodingRate::Cr4_5.den() == c.cr);
    } else if c.cr == 6 {
        assert(CodingRate::Cr4_6.den() == c.cr);
    } else if c.cr == 7 {
        assert(CodingRate::Cr4_7.den() == c.cr);
    } else if c.cr == 8 {
        assert(CodingRate::Cr4_8.den() == c.cr);
    }
}

/// Settings that differ in what keeps networks apart give radios that differ in
/// it.
pub proof fn law_networks_stay_apart(c: NodeConfig, d: NodeConfig, p: i8, q: i8)
    ensures
        c.sync_word != d.sync_word ==> c.modem(p).sync_word != d.modem(q).sync_word,
        c.freq_hz != d.freq_hz ==> c.modem(p).freq_hz != d.modem(q).freq_hz,
        c.sf != d.sf ==> c.modem(p).spreading_factor != d.modem(q).spreading_factor,
        c.addr != d.addr ==> c.modem(p).addr != d.modem(q).addr,
{
}

/// What a node's settings leave in its transceiver: its sync word, its spreading
/// factor and its frequency.
pub proof fn law_transceiver_holds_the_settings(c: NodeConfig, tx_power_dbm: i8)
    ensures
        spi::left_in(spi::configure_plan(c.modem(tx_power_dbm)), 0x39) == Some(c.sync_word),
        7 <= c.sf <= 12 ==> (spi::left_in(
            spi::configure_plan(c.modem(tx_power_dbm)),
            0x1E,
        ) matches Some(m) && m / 16 == c.sf),
        c.freq_hz < 1_024_000_000 ==> {
            let p = spi::configure_plan(c.modem(tx_power_dbm));
            &&& spi::left_in(p, 0x06) matches Some(msb)
            &&& spi::left_in(p, 0x07) matches Some(mid)
            &&& spi::left_in(p, 0x08) matches Some(lsb)
            &&& msb * 65_536 + mid * 256 + lsb == c.freq_hz * 524_288 / 32_000_000
        },
{
    spi::law_modem_is_as_configured(c.modem(tx_power_dbm));
    if c.freq_hz < 1_024_000_000 {
        spi::law_carrier_is_the_frequency(c.modem(tx_power_dbm));
    }
}

/// A node that falls back keeps its address and where it sends to, and shares
/// the radio mode with every other node that fell back.
pub proof fn law_fallen_back_nodes_hear_each_other(c: NodeConfig, d: NodeConfig, p: i8)
    ensures
        c.standard().modem(p) == (Config { addr: c.addr, ..d.standard().modem(p) }),
        c.standard().freq_hz == 868_000_000,
        c.standard().sync_word == 0x12,
        c.standard().sf == 7,
        c.standard().bw_hz == 125_000,
        c.standard().cr == 5,
        c.standard().addr == c.addr,
        c.standard().dest == c.dest,
{
}

/// A store that holds nothing leaves every default, and what it holds takes the
/// place of one default alone; a new node is number 10 and sends to number 1.
pub proof fn law_defaults_fill_what_is_not_stored(s: Stored, d: NodeConfig)
    ensures
        loaded(s, d).addr == (match s.addr {
            Some(v) => v,
            None => d.addr,
        }),
        loaded(s, d).dest == (match s.dest {
            Some(v) => v,
            None => d.dest,
        }),
        loaded(s, d).freq_hz == (match s.freq_hz {
            Some(v) => v,
            None => d.freq_hz,
        }),
        loaded(s, d).sync_word == (match s.sync_word {
            Some(v) => v,
            None => d.sync_word,
        }),
        loaded(s, d).sf == (match s.sf {
            Some(v) => v,
            None => d.sf,
        }),
        loaded(s, d).bw_hz == (match s.bw_hz {
            Some(v) => v,
            None => d.bw_hz,
        }),
        loaded(s, d).cr == (match s.cr {
            Some(v) => v,
            None => d.cr,
        }),
        first_boot() == (NodeConfig { addr: 10, dest: 1, ..d.standard() }),
{
}

} // verus!
