//! Control frames: what the base station and its nodes say to each other
//! besides punches and heartbeats.
//!
//! A downlink `CMD` frame changes one setting of one node and an uplink `ACK`
//! frame confirms it; `VQUERY`, `VERSION` and `CACK` report firmware versions
//! and confirm that a node's radio mode is heard. These are rare, so they stay
//! readable text. The acknowledgement of a punch is sent once per punch and is
//! packed into seven bytes.

use vstd::prelude::*;
use crate::{decimal, text};

verus! {

/// A setting of a node that can be changed over the air.
///
/// The heartbeat interval and the transmit power take effect at once. The
/// others can strand a node when they are wrong, so a node only stages them
/// while it is in settings mode.
#[derive(Debug, Clone, Copy, PartialEq, Eq, Structural)]
pub enum Setting {
    HeartbeatIntervalSecs(u32),
    TxPowerDbm(i8),
    SettingsMode(bool),
    Addr(u16),
    Dest(u16),
    FreqHz(u32),
    SyncWord(u8),
    Sf(u8),
    BwHz(u32),
    Cr(u8),
}

/// Reads a number of at most `u32::MAX` into a setting.
pub open spec fn with_u32(s: Seq<char>, f: spec_fn(u32) -> Setting) -> Option<Setting> {
    match decimal::parsed(s, u32::MAX as nat) {
        Some(v) => Some(f(v as u32)),
        None => None,
    }
}

/// Reads a number of at most `u16::MAX` into a setting.
pub open spec fn with_u16(s: Seq<char>, f: spec_fn(u16) -> Setting) -> Option<Setting> {
    match decimal::parsed(s, u16::MAX as nat) {
        Some(v) => Some(f(v as u16)),
        None => None,
    }
}

/// Reads a number of at most `u8::MAX` into a setting.
pub open spec fn with_u8(s: Seq<char>, f: spec_fn(u8) -> Setting) -> Option<Setting> {
    match decimal::parsed(s, u8::MAX as nat) {
        Some(v) => Some(f(v as u8)),
        None => None,
    }
}

/// The setting written as `key=value`.
pub open spec fn parsed_setting(s: Seq<char>) -> Option<Setting> {
    match text::tail(s, '=') {
        None => None,
        Some(val) => {
            let key = text::head(s, '=');
            if key == "hb_interval"@ {
                with_u32(val, |v: u32| Setting::HeartbeatIntervalSecs(v))
            } else if key == "tx_power_dbm"@ {
                match decimal::parsed_signed(val, i8::MIN as int, i8::MAX as int) {
                    Some(v) => Some(Setting::TxPowerDbm(v as i8)),
                    None => None,
                }
            } else if key == "settings_mode"@ {
                if val == "1"@ {
                    Some(Setting::SettingsMode(true))
                } else if val == "0"@ {
                    Some(Setting::SettingsMode(false))
                } else {
                    None
                }
            } else if key == "addr"@ {
                with_u16(val, |v: u16| Setting::Addr(v))
            } else if key == "dest"@ {
                with_u16(val, |v: u16| Setting::Dest(v))
            } else if key == "freq_hz"@ {
                with_u32(val, |v: u32| Setting::FreqHz(v))
            } else if key == "sync_word"@ {
                with_u8(val, |v: u8| Setting::SyncWord(v))
            } else if key == "sf"@ {
                with_u8(val, |v: u8| Setting::Sf(v))
            } else if key == "bw_hz"@ {
                with_u32(val, |v: u32| Setting::BwHz(v))
            } else if key == "cr"@ {
                with_u8(val, |v: u8| Setting::Cr(v))
            } else {
                None
            }
        },
    }
}

impl Setting {
    /// The key of a setting on the wire.
    pub open spec fn key(self) -> Seq<char> {
        match self {
            Setting::HeartbeatIntervalSecs(_) => "hb_interval"@,
            Setting::TxPowerDbm(_) => "tx_power_dbm"@,
            Setting::SettingsMode(_) => "settings_mode"@,
            Setting::Addr(_) => "addr"@,
            Setting::Dest(_) => "dest"@,
            Setting::FreqHz(_) => "freq_hz"@,
            Setting::SyncWord(_) => "sync_word"@,
            Setting::Sf(_) => "sf"@,
            Setting::BwHz(_) => "bw_hz"@,
            Setting::Cr(_) => "cr"@,
        }
    }

    /// The value of a setting on the wire.
    pub open spec fn value_text(self) -> Seq<char> {
        match self {
            Setting::HeartbeatIntervalSecs(v) => decimal::dec(v as nat),
            Setting::TxPowerDbm(v) => decimal::dec_signed(v as int),
            Setting::SettingsMode(on) => if on {
                "1"@
            } else {
                "0"@
            },
            Setting::Addr(v) => decimal::dec(v as nat),
            Setting::Dest(v) => decimal::dec(v as nat),
            Setting::FreqHz(v) => decimal::dec(v as nat),
            Setting::SyncWord(v) => decimal::dec(v as nat),
            Setting::Sf(v) => decimal::dec(v as nat),
            Setting::BwHz(v) => decimal::dec(v as nat),
            Setting::Cr(v) => decimal::dec(v as nat),
        }
    }

    /// The `key=value` text of a setting.
    pub open spec fn wire(self) -> Seq<char> {
        self.key().push('=') + self.value_text()
    }

    /// Writes the setting as `key=value`.
    pub fn encode(&self) -> (r: String)
        ensures
            r@ == self.wire(),
    {
        let key: &str = match self {
            Setting::HeartbeatIntervalSecs(_) => "hb_interval",
            Setting::TxPowerDbm(_) => "tx_power_dbm",
            Setting::SettingsMode(_) => "settings_mode",
            Setting::Addr(_) => "addr",
            Setting::Dest(_) => "dest",
            Setting::FreqHz(_) => "freq_hz",
            Setting::SyncWord(_) => "sync_word",
            Setting::Sf(_) => "sf",
            Setting::BwHz(_) => "bw_hz",
            Setting::Cr(_) => "cr",
        };
        let mut out: String = String::new();
        out.push_str(key);
        out.push('=');
        assert(out@ =~= self.key().push('='));
        match self {
            Setting::HeartbeatIntervalSecs(v) => decimal::push_dec(&mut out, *v as u64),
            Setting::TxPowerDbm(v) => decimal::push_dec_signed(&mut out, *v as i64),
            Setting::SettingsMode(on) => out.push_str(
                if *on {
                    "1"
                } else {
                    "0"
                },
            ),
            Setting::Addr(v) => decimal::push_dec(&mut out, *v as u64),
            Setting::Dest(v) => decimal::push_dec(&mut out, *v as u64),
            Setting::FreqHz(v) => decimal::push_dec(&mut out, *v as u64),
            Setting::SyncWord(v) => decimal::push_dec(&mut out, *v as u64),
            Setting::Sf(v) => decimal::push_dec(&mut out, *v as u64),
            Setting::BwHz(v) => decimal::push_dec(&mut out, *v as u64),
            Setting::Cr(v) => decimal::push_dec(&mut out, *v as u64),
        }
        out
    }

    /// Reads a setting written as `key=value`; `None` for an unknown key or a
    /// value that does not fit it.
    pub fn parse(s: &str) -> (r: Option<Setting>)
        ensures
            r == parsed_setting(s@),
    {
        let text = text::chars(s);
        Setting::parse_chars(text.as_slice())
    }

    /// Reads a setting out of a slice of characters.
    pub fn parse_chars(s: &[char]) -> (r: Option<Setting>)
        ensures
            r == parsed_setting(s@),
    {
        let (key, val) = text::split_head(s, '=');
        let val = match val {
            Some(v) => v,
            None => return None,
        };
        if text::same(key, "hb_interval") {
            match decimal::parse_u32(val) {
                Some(v) => Some(Setting::HeartbeatIntervalSecs(v)),
                None => None,
            }
        } else if text::same(key, "tx_power_dbm") {
            match decimal::parse_i8(val) {
                Some(v) => Some(Setting::TxPowerDbm(v)),
                None => None,
            }
        } else if text::same(key, "settings_mode") {
            if text::same(val, "1") {
                Some(Setting::SettingsMode(true))
            } else if text::same(val, "0") {
                Some(Setting::SettingsMode(false))
            } else {
                None
            }
        } else if text::same(key, "addr") {
            match decimal::parse_u16(val) {
                Some(v) => Some(Setting::Addr(v)),
                None => None,
            }
        } else if text::same(key, "dest") {
            match decimal::parse_u16(val) {
                Some(v) => Some(Setting::Dest(v)),
                None => None,
            }
        } else if text::same(key, "freq_hz") {
            match decimal::parse_u32(val) {
                Some(v) => Some(Setting::FreqHz(v)),
                None => None,
            }
        } else if text::same(key, "sync_word") {
            match decimal::parse_u8(val) {
                Some(v) => Some(Setting::SyncWord(v)),
                None => None,
            }
        } else if text::same(key, "sf") {
            match decimal::parse_u8(val) {
                Some(v) => Some(Setting::Sf(v)),
                None => None,
            }
        } else if text::same(key, "bw_hz") {
            match decimal::parse_u32(val) {
                Some(v) => Some(Setting::BwHz(v)),
                None => None,
            }
        } else if text::same(key, "cr") {
            match decimal::parse_u8(val) {
                Some(v) => Some(Setting::Cr(v)),
                None => None,
            }
        } else {
            None
        }
    }
}

/// The ten keys differ from each other and hold no `=`.
proof fn lemma_keys()
    ensures
        !"hb_interval"@.contains('='),
        !"tx_power_dbm"@.contains('='),
        !"settings_mode"@.contains('='),
        !"addr"@.contains('='),
        !"dest"@.contains('='),
        !"freq_hz"@.contains('='),
        !"sync_word"@.contains('='),
        !"sf"@.contains('='),
        !"bw_hz"@.contains('='),
        !"cr"@.contains('='),
        "hb_interval"@.len() == 11,
        "tx_power_dbm"@.len() == 12,
        "settings_mode"@.len() == 13,
        "addr"@.len() == 4 && "addr"@[0] == 'a',
        "dest"@.len() == 4 && "dest"@[0] == 'd',
        "freq_hz"@.len() == 7,
        "sync_word"@.len() == 9,
        "sf"@.len() == 2 && "sf"@[0] == 's',
        "bw_hz"@.len() == 5,
        "cr"@.len() == 2 && "cr"@[0] == 'c',
        "1"@.len() == 1 && "1"@[0] == '1',
        "0"@.len() == 1 && "0"@[0] == '0',
{
    reveal_strlit("hb_interval");
    reveal_strlit("tx_power_dbm");
    reveal_strlit("settings_mode");
    reveal_strlit("addr");
    reveal_strlit("dest");
    reveal_strlit("freq_hz");
    reveal_strlit("sync_word");
    reveal_strlit("sf");
    reveal_strlit("bw_hz");
    reveal_strlit("cr");
    reveal_strlit("1");
    reveal_strlit("0");
}

/// A setting that was encoded is parsed back to itself.
pub proof fn law_setting_round_trip(s: Setting)
    ensures
        parsed_setting(s.wire()) == Some(s),
{
    lemma_keys();
    text::lemma_head_tail(s.key(), '=', s.value_text());
    match s {
        Setting::HeartbeatIntervalSecs(v) => decimal::lemma_parse_dec(v as nat, u32::MAX as nat),
        Setting::TxPowerDbm(v) => decimal::lemma_parse_dec_signed(v as int, i8::MIN as int, i8::MAX as int),
        Setting::SettingsMode(on) => {},
        Setting::Addr(v) => decimal::lemma_parse_dec(v as nat, u16::MAX as nat),
        Setting::Dest(v) => decimal::lemma_parse_dec(v as nat, u16::MAX as nat),
        Setting::FreqHz(v) => decimal::lemma_parse_dec(v as nat, u32::MAX as nat),
        Setting::SyncWord(v) => decimal::lemma_parse_dec(v as nat, u8::MAX as nat),
        Setting::Sf(v) => decimal::lemma_parse_dec(v as nat, u8::MAX as nat),
        Setting::BwHz(v) => decimal::lemma_parse_dec(v as nat, u32::MAX as nat),
        Setting::Cr(v) => decimal::lemma_parse_dec(v as nat, u8::MAX as nat),
    }
}

/// A control frame.
#[derive(Debug, Clone, PartialEq, Eq)]
pub enum Frame {
    /// Downlink: `commander` asks the node at `target` to change `setting`.
    /// The commander travels in the payload, so that behind a relay the
    /// resulting `Ack` still finds its way back.
    Command { target: u16, commander: u16, setting: Setting },
    /// Uplink: the node at `origin` confirms to `commander` that it applied
    /// `setting`.
    Ack { origin: u16, commander: u16, setting: Setting },
    /// Downlink: asks the node `target` to report its firmware version.
    VersionQuery { target: u16 },
    /// Uplink: the firmware version of node `origin`, sent in reply to a
    /// query and once, unprompted, after every boot.
    VersionReport { origin: u16, version: String },
    /// Downlink: answers every `VersionReport` of `target`, which takes it as
    /// proof that its radio mode reaches the base station.
    ConfigAck { target: u16 },
}

/// What a frame says, with its text as a sequence of characters.
pub enum FrameView {
    Command { target: u16, commander: u16, setting: Setting },
    Ack { origin: u16, commander: u16, setting: Setting },
    VersionQuery { target: u16 },
    VersionReport { origin: u16, version: Seq<char> },
    ConfigAck { target: u16 },
}

impl View for Frame {
    type V = FrameView;

    open spec fn view(&self) -> FrameView {
        match *self {
            Frame::Command { target, commander, setting } => FrameView::Command {
                target,
                commander,
                setting,
            },
            Frame::Ack { origin, commander, setting } => FrameView::Ack {
                origin,
                commander,
                setting,
            },
            Frame::VersionQuery { target } => FrameView::VersionQuery { target },
            Frame::VersionReport { origin, version } => FrameView::VersionReport {
                origin,
                version: version@,
            },
            Frame::ConfigAck { target } => FrameView::ConfigAck { target },
        }
    }
}

/// `<address> <address> <setting>`, the body of `CMD` and `ACK` frames.
pub open spec fn routed(a: u16, b: u16, setting: Setting) -> Seq<char> {
    decimal::dec(a as nat).push(' ') + (decimal::dec(b as nat).push(' ') + setting.wire())
}

impl FrameView {
    /// The text of a frame.
    pub open spec fn wire(self) -> Seq<char> {
        match self {
            FrameView::Command { target, commander, setting } => "CMD "@ + routed(
                target,
                commander,
                setting,
            ),
            FrameView::Ack { origin, commander, setting } => "ACK "@ + routed(
                origin,
                commander,
                setting,
            ),
            FrameView::VersionQuery { target } => "VQUERY "@ + decimal::dec(target as nat),
            FrameView::VersionReport { origin, version } => "VERSION "@ + (decimal::dec(
                origin as nat,
            ).push(' ') + version),
            FrameView::ConfigAck { target } => "CACK "@ + decimal::dec(target as nat),
        }
    }
}

/// Reads the body of a `CMD` or `ACK` frame.
pub open spec fn parsed_routed(s: Seq<char>) -> Option<(u16, u16, Setting)> {
    match (decimal::parsed(text::head(s, ' '), u16::MAX as nat), text::tail(s, ' ')) {
        (Some(a), Some(t)) => match (
            decimal::parsed(text::head(t, ' '), u16::MAX as nat),
            text::tail(t, ' '),
        ) {
            (Some(b), Some(u)) => match parsed_setting(u) {
                Some(setting) => Some((a as u16, b as u16, setting)),
                None => None,
            },
            _ => None,
        },
        _ => None,
    }
}

/// Reads an address with white space around it.
pub open spec fn parsed_addr(s: Seq<char>) -> Option<u16> {
    match decimal::parsed(text::trimmed(s), u16::MAX as nat) {
        Some(v) => Some(v as u16),
        None => None,
    }
}

/// Reads a frame.
pub open spec fn parsed_frame(s: Seq<char>) -> Option<FrameView> {
    if let Some(rest) = text::strip(s, "CMD "@) {
        match parsed_routed(rest) {
            Some((target, commander, setting)) => Some(
                FrameView::Command { target, commander, setting },
            ),
            None => None,
        }
    } else if let Some(rest) = text::strip(s, "ACK "@) {
        match parsed_routed(rest) {
            Some((origin, commander, setting)) => Some(
                FrameView::Ack { origin, commander, setting },
            ),
            None => None,
        }
    } else if let Some(rest) = text::strip(s, "VQUERY "@) {
        match parsed_addr(rest) {
            Some(target) => Some(FrameView::VersionQuery { target }),
            None => None,
        }
    } else if let Some(rest) = text::strip(s, "VERSION "@) {
        match (decimal::parsed(text::head(rest, ' '), u16::MAX as nat), text::tail(rest, ' ')) {
            (Some(origin), Some(version)) => if version.len() > 0 {
                Some(FrameView::VersionReport { origin: origin as u16, version })
            } else {
                None
            },
            _ => None,
        }
    } else if let Some(rest) = text::strip(s, "CACK "@) {
        match parsed_addr(rest) {
            Some(target) => Some(FrameView::ConfigAck { target }),
            None => None,
        }
    } else {
        None
    }
}

/// What an optional frame says.
pub open spec fn opt_frame(o: Option<Frame>) -> Option<FrameView> {
    match o {
        Some(f) => Some(f@),
        None => None,
    }
}

/// Appends `<a> <b> <setting>`.
fn push_routed(out: &mut String, a: u16, b: u16, setting: Setting)
    ensures
        final(out)@ == old(out)@ + routed(a, b, setting),
{
    decimal::push_dec(out, a as u64);
    out.push(' ');
    decimal::push_dec(out, b as u64);
    out.push(' ');
    out.push_str(setting.encode().as_str());
    assert(out@ =~= old(out)@ + routed(a, b, setting));
}

/// Reads `<a> <b> <setting>`.
fn parse_routed(s: &[char]) -> (r: Option<(u16, u16, Setting)>)
    ensures
        r == parsed_routed(s@),
{
    let (first, rest) = text::split_head(s, ' ');
    let a = match decimal::parse_u16(first) {
        Some(v) => v,
        None => return None,
    };
    let rest = match rest {
        Some(t) => t,
        None => return None,
    };
    let (second, rest) = text::split_head(rest, ' ');
    let b = match decimal::parse_u16(second) {
        Some(v) => v,
        None => return None,
    };
    let rest = match rest {
        Some(t) => t,
        None => return None,
    };
    match Setting::parse_chars(rest) {
        Some(setting) => Some((a, b, setting)),
        None => None,
    }
}

/// Reads an address with white space around it.
pub fn parse_addr(s: &[char]) -> (r: Option<u16>)
    ensures
        r == parsed_addr(s@),
{
    decimal::parse_u16(text::trim(s))
}

impl Frame {
    /// Writes the frame as text.
    pub fn encode(&self) -> (r: String)
        ensures
            r@ == self@.wire(),
    {
        let mut out: String = String::new();
        match self {
            Frame::Command { target, commander, setting } => {
                out.push_str("CMD ");
                push_routed(&mut out, *target, *commander, *setting);
            },
            Frame::Ack { origin, commander, setting } => {
                out.push_str("ACK ");
                push_routed(&mut out, *origin, *commander, *setting);
            },
            Frame::VersionQuery { target } => {
                out.push_str("VQUERY ");
                decimal::push_dec(&mut out, *target as u64);
            },
            Frame::VersionReport { origin, version } => {
                out.push_str("VERSION ");
                decimal::push_dec(&mut out, *origin as u64);
                out.push(' ');
                out.push_str(version.as_str());
            },
            Frame::ConfigAck { target } => {
                out.push_str("CACK ");
                decimal::push_dec(&mut out, *target as u64);
            },
        }
        assert(out@ =~= self@.wire());
        out
    }

    /// Reads a frame; `None` for any other text.
    pub fn parse(s: &str) -> (r: Option<Frame>)
        ensures
            opt_frame(r) == parsed_frame(s@),
    {
        let all = text::chars(s);
        let s = all.as_slice();
        if let Some(rest) = text::strip_prefix(s, "CMD ") {
            return match parse_routed(rest) {
                Some((target, commander, setting)) => Some(
                    Frame::Command { target, commander, setting },
                ),
                None => None,
            };
        }
        if let Some(rest) = text::strip_prefix(s, "ACK ") {
            return match parse_routed(rest) {
                Some((origin, commander, setting)) => Some(
                    Frame::Ack { origin, commander, setting },
                ),
                None => None,
            };
        }
        if let Some(rest) = text::strip_prefix(s, "VQUERY ") {
            return match parse_addr(rest) {
                Some(target) => Some(Frame::VersionQuery { target }),
                None => None,
            };
        }
        if let Some(rest) = text::strip_prefix(s, "VERSION ") {
            let (first, version) = text::split_head(rest, ' ');
            let origin = match decimal::parse_u16(first) {
                Some(v) => v,
                None => return None,
            };
            return match version {
                Some(v) => if v.len() > 0 {
                    Some(Frame::VersionReport { origin, version: text::string_of(v) })
                } else {
                    None
                },
                None => None,
            };
        }
        if let Some(rest) = text::strip_prefix(s, "CACK ") {
            return match parse_addr(rest) {
                Some(target) => Some(Frame::ConfigAck { target }),
                None => None,
            };
        }
        None
    }
}

/// The first characters of the five frame names.
proof fn lemma_names()
    ensures
        "CMD "@.len() == 4 && "CMD "@[0] == 'C' && "CMD "@[1] == 'M',
        "ACK "@.len() == 4 && "ACK "@[0] == 'A',
        "VQUERY "@.len() == 7 && "VQUERY "@[0] == 'V' && "VQUERY "@[1] == 'Q',
        "VERSION "@.len() == 8 && "VERSION "@[0] == 'V' && "VERSION "@[1] == 'E',
        "CACK "@.len() == 5 && "CACK "@[0] == 'C' && "CACK "@[1] == 'A',
{
    reveal_strlit("CMD ");
    reveal_strlit("ACK ");
    reveal_strlit("VQUERY ");
    reveal_strlit("VERSION ");
    reveal_strlit("CACK ");
}

/// The body of a `CMD` or `ACK` frame is read back.
proof fn lemma_routed(a: u16, b: u16, setting: Setting)
    ensures
        parsed_routed(routed(a, b, setting)) == Some((a, b, setting)),
{
    let rest = decimal::dec(b as nat).push(' ') + setting.wire();
    decimal::lemma_dec_without(a as nat, ' ');
    decimal::lemma_dec_without(b as nat, ' ');
    text::lemma_head_tail(decimal::dec(a as nat), ' ', rest);
    text::lemma_head_tail(decimal::dec(b as nat), ' ', setting.wire());
    decimal::lemma_parse_dec(a as nat, u16::MAX as nat);
    decimal::lemma_parse_dec(b as nat, u16::MAX as nat);
    law_setting_round_trip(setting);
}

/// A frame that was encoded is parsed back to itself. A version report has to
/// hold a version: the empty one is not taken for a report.
pub proof fn law_frame_round_trip(f: FrameView)
    requires
        f matches FrameView::VersionReport { version, .. } ==> version.len() > 0,
    ensures
        parsed_frame(f.wire()) == Some(f),
{
    lemma_names();
    let w = f.wire();
    match f {
        FrameView::Command { target, commander, setting } => {
            text::lemma_strip("CMD "@, routed(target, commander, setting));
            lemma_routed(target, commander, setting);
        },
        FrameView::Ack { origin, commander, setting } => {
            text::lemma_strip_none(w, "CMD "@, 0);
            text::lemma_strip("ACK "@, routed(origin, commander, setting));
            lemma_routed(origin, commander, setting);
        },
        FrameView::VersionQuery { target } => {
            text::lemma_strip_none(w, "CMD "@, 0);
            text::lemma_strip_none(w, "ACK "@, 0);
            text::lemma_strip("VQUERY "@, decimal::dec(target as nat));
            decimal::lemma_dec_trimmed(target as nat);
            decimal::lemma_parse_dec(target as nat, u16::MAX as nat);
        },
        FrameView::VersionReport { origin, version } => {
            text::lemma_strip_none(w, "CMD "@, 0);
            text::lemma_strip_none(w, "ACK "@, 0);
            text::lemma_strip_none(w, "VQUERY "@, 1);
            let rest = decimal::dec(origin as nat).push(' ') + version;
            text::lemma_strip("VERSION "@, rest);
            decimal::lemma_dec_without(origin as nat, ' ');
            text::lemma_head_tail(decimal::dec(origin as nat), ' ', version);
            decimal::lemma_parse_dec(origin as nat, u16::MAX as nat);
        },
        FrameView::ConfigAck { target } => {
            text::lemma_strip_none(w, "CMD "@, 1);
            text::lemma_strip_none(w, "ACK "@, 0);
            text::lemma_strip_none(w, "VQUERY "@, 0);
            text::lemma_strip_none(w, "VERSION "@, 0);
            text::lemma_strip("CACK "@, decimal::dec(target as nat));
            decimal::lemma_dec_trimmed(target as nat);
            decimal::lemma_parse_dec(target as nat, u16::MAX as nat);
        },
    }
}

/// First byte of a punch acknowledgement.
pub const TAG_PUNCH_ACK: u8 = 0x02;

/// Length of a punch acknowledgement: tag, node, card number.
pub const PUNCH_ACK_LEN: usize = 7;

/// The acknowledgement to `node` of its punch of `card_id`:
/// `[tag][node: 2 bytes][card_id: 4 bytes]`, big-endian.
pub open spec fn punch_ack(node: u16, card_id: u32) -> Seq<u8> {
    seq![
        TAG_PUNCH_ACK,
        (node / 256) as u8,
        (node % 256) as u8,
        (card_id / 0x100_0000) as u8,
        (card_id / 0x1_0000 % 256) as u8,
        (card_id / 256 % 256) as u8,
        (card_id % 256) as u8,
    ]
}

/// Reads a punch acknowledgement.
pub open spec fn parsed_punch_ack(b: Seq<u8>) -> Option<(u16, u32)> {
    if b.len() == PUNCH_ACK_LEN && b[0] == TAG_PUNCH_ACK {
        Some(
            (
                (b[1] * 256 + b[2]) as u16,
                (b[3] * 0x100_0000 + b[4] * 0x1_0000 + b[5] * 256 + b[6]) as u32,
            ),
        )
    } else {
        None
    }
}

/// Confirms to `node` that its punch of `card_id` was received.
pub fn encode_punch_ack(node: u16, card_id: u32) -> (r: Vec<u8>)
    ensures
        r@ == punch_ack(node, card_id),
{
    let mut buf: Vec<u8> = Vec::with_capacity(PUNCH_ACK_LEN);
    buf.push(TAG_PUNCH_ACK);
    buf.push((node / 256) as u8);
    buf.push((node % 256) as u8);
    buf.push((card_id / 0x100_0000) as u8);
    buf.push((card_id / 0x1_0000 % 256) as u8);
    buf.push((card_id / 256 % 256) as u8);
    buf.push((card_id % 256) as u8);
    assert(buf@ =~= punch_ack(node, card_id));
    buf
}

/// Reads a punch acknowledgement: the node it is for and the card number.
pub fn parse_punch_ack(bytes: &[u8]) -> (r: Option<(u16, u32)>)
    ensures
        r == parsed_punch_ack(bytes@),
{
    if bytes.len() != PUNCH_ACK_LEN || bytes[0] != TAG_PUNCH_ACK {
        return None;
    }
    let node: u16 = bytes[1] as u16 * 256 + bytes[2] as u16;
    let card_id: u32 = bytes[3] as u32 * 0x100_0000 + bytes[4] as u32 * 0x1_0000 + bytes[5] as u32
        * 256 + bytes[6] as u32;
    Some((node, card_id))
}

/// Four bytes, the high ones first, and the number that they stand for.
proof fn lemma_four_bytes(x: int, a: int, b: int, c: int, d: int)
    requires
        0 <= a < 256 && 0 <= b < 256 && 0 <= c < 256 && 0 <= d < 256,
    ensures
        x == a * 0x100_0000 + b * 0x1_0000 + c * 256 + d <==> 0 <= x < 0x1_0000_0000 && a == x
            / 0x100_0000 && b == x / 0x1_0000 % 256 && c == x / 256 % 256 && d == x % 256,
{
    let hi = x / 0x1_0000;
    let lo = x % 0x1_0000;
    assert(x / 0x100_0000 == hi / 256);
    assert(x / 256 % 256 == lo / 256);
    assert(x % 256 == lo % 256);
    if x == a * 0x100_0000 + b * 0x1_0000 + c * 256 + d {
        assert(hi == a * 256 + b);
        assert(lo == c * 256 + d);
    }
}

/// A punch acknowledgement that was encoded is parsed back, and no other bytes
/// are taken for it.
pub proof fn law_punch_ack_round_trip(node: u16, card_id: u32, b: Seq<u8>)
    ensures
        parsed_punch_ack(punch_ack(node, card_id)) == Some((node, card_id)),
        parsed_punch_ack(b) == Some((node, card_id)) ==> b == punch_ack(node, card_id),
{
    let p = punch_ack(node, card_id);
    law_punch_ack_bytes(node, card_id);
    if parsed_punch_ack(b) == Some((node, card_id)) {
        let x = b[3] * 0x100_0000 + b[4] * 0x1_0000 + b[5] * 256 + b[6];
        assert(0 <= x <= u32::MAX);
        assert(card_id == x);
        lemma_four_bytes(card_id as int, b[3] as int, b[4] as int, b[5] as int, b[6] as int);
        assert(b[3] == p[3] && b[4] == p[4] && b[5] == p[5] && b[6] == p[6]);
        assert(b =~= p);
    }
}

/// A setting goes out as its key, an equals sign and its value.
pub proof fn law_setting_fields(s: Setting)
    ensures
        ({
            let f = text::split(s.wire(), '=');
            &&& f.len() == 2
            &&& f[0] == s.key()
            &&& f[1] == s.value_text()
            &&& s matches Setting::HeartbeatIntervalSecs(v) ==> f[0] == "hb_interval"@
                && decimal::says(f[1], v as int)
            &&& s matches Setting::TxPowerDbm(v) ==> f[0] == "tx_power_dbm"@ && (v >= 0
                ==> decimal::says(f[1], v as int)) && (v < 0 ==> f[1].len() > 0 && f[1][0] == '-'
                && decimal::says(f[1].skip(1), -v))
            &&& s matches Setting::SettingsMode(on) ==> f[0] == "settings_mode"@ && f[1] == (if on {
                "1"@
            } else {
                "0"@
            })
            &&& s matches Setting::Addr(v) ==> f[0] == "addr"@ && decimal::says(f[1], v as int)
            &&& s matches Setting::Dest(v) ==> f[0] == "dest"@ && decimal::says(f[1], v as int)
            &&& s matches Setting::FreqHz(v) ==> f[0] == "freq_hz"@ && decimal::says(
                f[1],
                v as int,
            )
            &&& s matches Setting::SyncWord(v) ==> f[0] == "sync_word"@ && decimal::says(
                f[1],
                v as int,
            )
            &&& s matches Setting::Sf(v) ==> f[0] == "sf"@ && decimal::says(f[1], v as int)
            &&& s matches Setting::BwHz(v) ==> f[0] == "bw_hz"@ && decimal::says(f[1], v as int)
            &&& s matches Setting::Cr(v) ==> f[0] == "cr"@ && decimal::says(f[1], v as int)
        }),
{
    reveal_strlit("hb_interval");
    reveal_strlit("tx_power_dbm");
    reveal_strlit("settings_mode");
    reveal_strlit("addr");
    reveal_strlit("dest");
    reveal_strlit("freq_hz");
    reveal_strlit("sync_word");
    reveal_strlit("sf");
    reveal_strlit("bw_hz");
    reveal_strlit("cr");
    reveal_strlit("1");
    reveal_strlit("0");
    let n: nat = match s {
        Setting::HeartbeatIntervalSecs(v) => v as nat,
        Setting::TxPowerDbm(v) => if v < 0 {
            (-v) as nat
        } else {
            v as nat
        },
        Setting::SettingsMode(_) => 0,
        Setting::Addr(v) => v as nat,
        Setting::Dest(v) => v as nat,
        Setting::FreqHz(v) => v as nat,
        Setting::SyncWord(v) => v as nat,
        Setting::Sf(v) => v as nat,
        Setting::BwHz(v) => v as nat,
        Setting::Cr(v) => v as nat,
    };
    decimal::lemma_dec(n);
    decimal::lemma_dec_without(n, '=');
    let val = s.value_text();
    assert(!val.contains('=')) by {
        if val.contains('=') {
            let i = choose|i: int| 0 <= i < val.len() && val[i] == '=';
            if let Setting::TxPowerDbm(v) = s {
                if v < 0 {
                    assert(i > 0);
                    assert(decimal::dec(n)[i - 1] == '=');
                }
            }
        }
    }
    if let Setting::TxPowerDbm(v) = s {
        if v < 0 {
            assert(val.skip(1) =~= decimal::dec(n));
        }
    }
    assert(!s.key().contains('='));
    text::lemma_split_cons(s.key(), '=', val);
    text::lemma_split_cons(val, '=', Seq::empty());
    assert(text::split(s.wire(), '=') =~= seq![s.key(), val]);
}

/// A command goes out as `CMD`, the node that it is for, the node that gives it,
/// and the setting; its confirmation as `ACK`, the node that obeyed, the node
/// that gave the command, and the setting; blanks between.
pub proof fn law_command_fields(a: u16, b: u16, setting: Setting)
    ensures
        ({
            let f = text::split(
                (FrameView::Command { target: a, commander: b, setting }).wire(),
                ' ',
            );
            &&& f.len() >= 4
            &&& f[0] == "CMD"@
            &&& decimal::says(f[1], a as int)
            &&& decimal::says(f[2], b as int)
            &&& f.skip(3) == text::split(setting.wire(), ' ')
        }),
        ({
            let f = text::split((FrameView::Ack { origin: a, commander: b, setting }).wire(), ' ');
            &&& f.len() >= 4
            &&& f[0] == "ACK"@
            &&& decimal::says(f[1], a as int)
            &&& decimal::says(f[2], b as int)
            &&& f.skip(3) == text::split(setting.wire(), ' ')
        }),
{
    reveal_strlit("CMD ");
    reveal_strlit("CMD");
    reveal_strlit("ACK ");
    reveal_strlit("ACK");
    let x = decimal::dec(a as nat);
    let y = decimal::dec(b as nat);
    decimal::lemma_dec(a as nat);
    decimal::lemma_dec(b as nat);
    decimal::lemma_dec_without(a as nat, ' ');
    decimal::lemma_dec_without(b as nat, ' ');
    let w = setting.wire();
    let last = text::split(w, ' ');
    text::lemma_find(w, ' ');
    assert("CMD "@ =~= "CMD"@.push(' '));
    assert("ACK "@ =~= "ACK"@.push(' '));
    assert(!"CMD"@.contains(' '));
    assert(!"ACK"@.contains(' '));
    text::lemma_split_cons("CMD"@, ' ', routed(a, b, setting));
    text::lemma_split_cons("ACK"@, ' ', routed(a, b, setting));
    text::lemma_split_cons(x, ' ', y.push(' ') + w);
    text::lemma_split_cons(y, ' ', w);
    let f = text::split((FrameView::Command { target: a, commander: b, setting }).wire(), ' ');
    let g = text::split((FrameView::Ack { origin: a, commander: b, setting }).wire(), ' ');
    assert(f =~= seq!["CMD"@, x, y] + last);
    assert(g =~= seq!["ACK"@, x, y] + last);
    assert(f.skip(3) =~= last);
    assert(g.skip(3) =~= last);
}

/// A packed acknowledgement is a tag, two bytes of the node and four of the card,
/// the high ones first.
pub proof fn law_punch_ack_bytes(node: u16, card_id: u32)
    ensures
        ({
            let b = punch_ack(node, card_id);
            &&& b.len() == 7
            &&& b[0] == 0x02
            &&& b[1] * 256 + b[2] == node
            &&& b[3] * 0x100_0000 + b[4] * 0x1_0000 + b[5] * 256 + b[6] == card_id
        }),
{
    let b = punch_ack(node, card_id);
    lemma_four_bytes(card_id as int, b[3] as int, b[4] as int, b[5] as int, b[6] as int);
}

} // verus!
