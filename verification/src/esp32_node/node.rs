//! The node's decisions.
//!
//! Whoever owns the radio, the memory and the clock hands in what happened and
//! carries out the effects that come back, in their order. Time is in
//! milliseconds of a clock that does not run backwards.

use vstd::prelude::*;
use std::collections::VecDeque;
use crate::lora_server::daemon::elapsed_ms;
use crate::lora_server::protocol::{Frame, Setting};
use crate::lora_server::{backend, daemon, protocol, radio, status};
use crate::sportident;
use crate::sportident::CardReadout;
use crate::sx127x::{Bandwidth, CodingRate, Config};
use crate::{decimal, text};
use super::config::{NodeConfig, Stored, DEFAULT_TX_POWER_DBM};
use super::protocol::{
    encode_version_report, parse_config_ack, parse_punch_ack, parse_version_query,
};
use super::{config, protocol as node_protocol};

verus! {

/// Time after which a punch that was not acknowledged is sent again. A punch is
/// never given up.
pub const PUNCH_RETRY_INTERVAL_MS: u64 = 5_000;

/// Seconds between heartbeats after every boot.
pub const DEFAULT_HEARTBEAT_SECS: u32 = 60;

/// How long after a boot the base station may take to confirm the radio mode.
pub const CONFIG_VERIFY_WINDOW_MS: u64 = 30_000;

/// Time after which the node announces itself again while it waits for that.
pub const CONFIG_VERIFY_RETRY_MS: u64 = 10_000;

/// First byte of a heartbeat.
pub const TAG_HB: u8 = 0x03;

/// Flag: the battery was measured.
pub const HB_FLAG_BATTERY_VALID: u8 = 0b001;

/// Flag: it is known whether a station is connected.
pub const HB_FLAG_SI_KNOWN: u8 = 0b010;

/// Flag: a station is connected.
pub const HB_FLAG_SI_CONNECTED: u8 = 0b100;

/// The flags of a heartbeat.
pub open spec fn heartbeat_flags(battery: Option<(u8, u16)>, si_present: Option<bool>) -> u8 {
    ((if battery is Some {
        HB_FLAG_BATTERY_VALID as int
    } else {
        0
    }) + (if si_present is Some {
        HB_FLAG_SI_KNOWN as int
    } else {
        0
    }) + (if si_present == Some(true) {
        HB_FLAG_SI_CONNECTED as int
    } else {
        0
    })) as u8
}

/// A heartbeat: `[tag][flags][per cent][millivolts: 2 bytes]`, big-endian, with
/// zeros where the battery was not measured.
pub open spec fn heartbeat(battery: Option<(u8, u16)>, si_present: Option<bool>) -> Seq<u8> {
    let (pct, mv) = match battery {
        Some(b) => b,
        None => (0u8, 0u16),
    };
    seq![
        TAG_HB,
        heartbeat_flags(battery, si_present),
        pct,
        (mv / 256) as u8,
        (mv % 256) as u8,
    ]
}

/// Writes a heartbeat.
pub fn encode_heartbeat(battery: Option<(u8, u16)>, si_present: Option<bool>) -> (r: [u8; 5])
    ensures
        r@ == heartbeat(battery, si_present),
{
    let mut flags: u8 = 0;
    let (pct, mv): (u8, u16) = match battery {
        Some((pct, mv)) => {
            flags = flags + HB_FLAG_BATTERY_VALID;
            (pct, mv)
        },
        None => (0, 0),
    };
    if let Some(si) = si_present {
        flags = flags + HB_FLAG_SI_KNOWN;
        if si {
            flags = flags + HB_FLAG_SI_CONNECTED;
        }
    }
    let r: [u8; 5] = [TAG_HB, flags, pct, (mv / 256) as u8, (mv % 256) as u8];
    assert(r@ =~= heartbeat(battery, si_present));
    r
}

/// Heartbeats that say different things differ.
pub proof fn law_heartbeat_tells_all(
    a: Option<(u8, u16)>,
    x: Option<bool>,
    b: Option<(u8, u16)>,
    y: Option<bool>,
)
    requires
        heartbeat(a, x) == heartbeat(b, y),
    ensures
        a == b,
        x == y,
{
    let s = heartbeat(a, x);
    let t = heartbeat(b, y);
    assert(s[1] == t[1] && s[2] == t[2] && s[3] == t[3] && s[4] == t[4]);
}

/// A punch that waits for its acknowledgement; at most one does.
#[derive(Debug)]
pub struct PendingPunch {
    pub card_id: u32,
    pub payload: Vec<u8>,
    pub sent_at: u64,
    pub attempts: u32,
}

/// A waiting punch as a value.
pub struct PendingView {
    pub card_id: u32,
    pub payload: Seq<u8>,
    pub sent_at: u64,
    pub attempts: u32,
}

impl View for PendingPunch {
    type V = PendingView;

    open spec fn view(&self) -> PendingView {
        PendingView {
            card_id: self.card_id,
            payload: self.payload@,
            sent_at: self.sent_at,
            attempts: self.attempts,
        }
    }
}

/// An optional waiting punch as a value.
pub open spec fn opt_pending(o: Option<PendingPunch>) -> Option<PendingView> {
    match o {
        Some(p) => Some(p@),
        None => None,
    }
}

/// What a sending is for, which decides what follows from its outcome.
#[derive(Debug, Clone, Copy, PartialEq, Eq, Structural)]
pub enum Purpose {
    /// The announcement right after a boot.
    Boot,
    /// A later announcement.
    Announcement,
    Answer,
    /// The answer before a restart.
    LastAnswer,
    /// A heartbeat, with its number since the boot.
    Heartbeat(u32),
    /// A punch that is sent for the first time.
    Punch,
    /// A punch that is sent again.
    PunchAgain,
}

/// Something to do.
#[derive(Debug)]
pub enum Effect {
    /// Send these bytes, and carry out what `outcome` says of it.
    Send { dest: u16, bytes: Vec<u8>, purpose: Purpose },
    /// Reset the radio and configure it.
    Configure(Config),
    /// Note a line in the log that outlives a power cycle.
    Checkpoint(String),
    /// Store the settings. Where that fails, the rest is carried out all the
    /// same.
    Save(Stored),
    /// Restart the node.
    Restart,
}

/// An effect as a value.
pub enum EffectView {
    Send { dest: u16, bytes: Seq<u8>, purpose: Purpose },
    Configure(Config),
    Checkpoint(Seq<char>),
    Save(Stored),
    Restart,
}

impl View for Effect {
    type V = EffectView;

    open spec fn view(&self) -> EffectView {
        match *self {
            Effect::Send { dest, bytes, purpose } => EffectView::Send {
                dest,
                bytes: bytes@,
                purpose,
            },
            Effect::Configure(c) => EffectView::Configure(c),
            Effect::Checkpoint(line) => EffectView::Checkpoint(line@),
            Effect::Save(s) => EffectView::Save(s),
            Effect::Restart => EffectView::Restart,
        }
    }
}

/// A list of effects as values.
pub open spec fn views(v: Seq<Effect>) -> Seq<EffectView> {
    Seq::new(v.len(), |i: int| v[i]@)
}

/// An optional effect as a value.
pub open spec fn opt_effect(o: Option<Effect>) -> Option<EffectView> {
    match o {
        Some(e) => Some(e@),
        None => None,
    }
}

/// Sending a text.
pub open spec fn send_text(dest: u16, t: Seq<char>, purpose: Purpose) -> EffectView {
    EffectView::Send { dest, bytes: vstd::utf8::encode_utf8(t), purpose }
}

/// The bytes of a text.
fn bytes_of(t: &str) -> (r: Vec<u8>)
    ensures
        r@ == vstd::utf8::encode_utf8(t@),
{
    let mut bytes: Vec<u8> = Vec::new();
    bytes.extend_from_slice(t.as_bytes());
    assert(bytes@ =~= vstd::utf8::encode_utf8(t@));
    bytes
}

/// One effect alone.
fn just(e: Effect) -> (r: Vec<Effect>)
    ensures
        views(r@) == seq![e@],
{
    let mut out: Vec<Effect> = Vec::new();
    out.push(e);
    assert(views(out@) =~= seq![e@]);
    out
}

/// Notes a line.
fn checkpoint(line: &str) -> (r: Effect)
    ensures
        r@ == EffectView::Checkpoint(line@),
{
    let mut s: String = String::new();
    s.push_str(line);
    assert(s@ =~= line@);
    Effect::Checkpoint(s)
}

/// The readouts of a queue as values.
pub open spec fn readouts(q: Seq<CardReadout>) -> Seq<sportident::ReadoutView> {
    Seq::new(q.len(), |i: int| q[i]@)
}

/// The node's state.
#[derive(Debug)]
pub struct Node {
    /// The settings in force.
    pub config: NodeConfig,
    pub tx_power_dbm: i8,
    /// When the node was started.
    pub started: u64,
    pub heartbeat_secs: u32,
    /// When the last heartbeat was due, if any was.
    pub last_heartbeat: Option<u64>,
    /// How many heartbeats were sent.
    pub heartbeats: u32,
    /// The settings that are staged, in settings mode.
    pub settings: Option<NodeConfig>,
    /// Whether the radio mode still waits to be confirmed.
    pub verifying: bool,
    pub last_announcement: u64,
    /// Punches that were read and not yet sent, oldest first.
    pub queue: VecDeque<CardReadout>,
    pub punch: Option<PendingPunch>,
}

/// The state as a value.
pub struct NodeView {
    pub config: NodeConfig,
    pub tx_power_dbm: i8,
    pub started: u64,
    pub heartbeat_secs: u32,
    pub last_heartbeat: Option<u64>,
    pub heartbeats: u32,
    pub settings: Option<NodeConfig>,
    pub verifying: bool,
    pub last_announcement: u64,
    pub queue: Seq<sportident::ReadoutView>,
    pub punch: Option<PendingView>,
}

impl View for Node {
    type V = NodeView;

    open spec fn view(&self) -> NodeView {
        NodeView {
            config: self.config,
            tx_power_dbm: self.tx_power_dbm,
            started: self.started,
            heartbeat_secs: self.heartbeat_secs,
            last_heartbeat: self.last_heartbeat,
            heartbeats: self.heartbeats,
            settings: self.settings,
            verifying: self.verifying,
            last_announcement: self.last_announcement,
            queue: readouts(self.queue@),
            punch: opt_pending(self.punch),
        }
    }
}

/// A node right after its boot.
pub open spec fn booted(c: NodeConfig, now: u64) -> NodeView {
    NodeView {
        config: c,
        tx_power_dbm: DEFAULT_TX_POWER_DBM,
        started: now,
        heartbeat_secs: DEFAULT_HEARTBEAT_SECS,
        last_heartbeat: None,
        heartbeats: 0,
        settings: None,
        verifying: true,
        last_announcement: now,
        queue: Seq::empty(),
        punch: None,
    }
}

/// The settings that are staged after one more change; `None` where the change
/// is none that is staged, or has no valid value.
pub open spec fn staged(c: NodeConfig, s: Setting) -> Option<NodeConfig> {
    match s {
        Setting::Addr(v) => Some(NodeConfig { addr: v, ..c }),
        Setting::Dest(v) => Some(NodeConfig { dest: v, ..c }),
        Setting::FreqHz(v) => Some(NodeConfig { freq_hz: v, ..c }),
        Setting::SyncWord(v) => Some(NodeConfig { sync_word: v, ..c }),
        Setting::Sf(v) => if 7 <= v <= 12 {
            Some(NodeConfig { sf: v, ..c })
        } else {
            None
        },
        Setting::BwHz(v) => if exists|b: Bandwidth| #[trigger] b.in_hz() == v {
            Some(NodeConfig { bw_hz: v, ..c })
        } else {
            None
        },
        Setting::Cr(v) => if exists|r: CodingRate| #[trigger] r.den() == v {
            Some(NodeConfig { cr: v, ..c })
        } else {
            None
        },
        _ => None,
    }
}

/// Stages a change in settings mode, and tells whether it did.
pub fn stage_setting(settings: &mut Option<NodeConfig>, setting: Setting) -> (r: bool)
    ensures
        match *old(settings) {
            Some(c) => match staged(c, setting) {
                Some(d) => r && *final(settings) == Some(d),
                None => !r && *final(settings) == *old(settings),
            },
            None => !r && *final(settings) == *old(settings),
        },
{
    let mut c = match *settings {
        Some(c) => c,
        None => return false,
    };
    match setting {
        Setting::Addr(v) => {
            c.addr = v;
        },
        Setting::Dest(v) => {
            c.dest = v;
        },
        Setting::FreqHz(v) => {
            c.freq_hz = v;
        },
        Setting::SyncWord(v) => {
            c.sync_word = v;
        },
        Setting::Sf(v) => {
            if v < 7 || v > 12 {
                return false;
            }
            c.sf = v;
        },
        Setting::BwHz(v) => {
            if Bandwidth::from_hz(v).is_none() {
                return false;
            }
            c.bw_hz = v;
        },
        Setting::Cr(v) => {
            if CodingRate::from_denominator(v).is_none() {
                return false;
            }
            c.cr = v;
        },
        _ => return false,
    }
    *settings = Some(c);
    true
}

/// Confirming a command to the one that sent it.
pub open spec fn confirmation(
    v: NodeView,
    src: u16,
    commander: u16,
    s: Setting,
    purpose: Purpose,
) -> EffectView {
    send_text(
        src,
        (protocol::FrameView::Ack { origin: v.config.addr, commander, setting: s }).wire(),
        purpose,
    )
}

/// What the node does about a command for it. What it does not apply it does
/// not confirm.
pub open spec fn obeyed(v: NodeView, src: u16, commander: u16, s: Setting) -> (
    NodeView,
    Seq<EffectView>,
) {
    let ack = confirmation(v, src, commander, s, Purpose::Answer);
    match s {
        Setting::HeartbeatIntervalSecs(secs) => (NodeView { heartbeat_secs: secs, ..v }, seq![ack]),
        Setting::TxPowerDbm(dbm) => (
            NodeView { tx_power_dbm: dbm, ..v },
            seq![EffectView::Configure(v.config.modem(dbm)), ack],
        ),
        Setting::SettingsMode(true) => (
            NodeView { settings: Some(v.config), ..v },
            seq![EffectView::Checkpoint("entered settings mode"@), ack],
        ),
        Setting::SettingsMode(false) => match v.settings {
            Some(c) => (
                NodeView { settings: None, ..v },
                seq![
                    EffectView::Save(c.kept()),
                    confirmation(v, src, commander, s, Purpose::LastAnswer),
                    EffectView::Checkpoint("settings mode: config saved, rebooting"@),
                    EffectView::Restart,
                ],
            ),
            None => (v, Seq::empty()),
        },
        _ => match v.settings {
            Some(c) => match staged(c, s) {
                Some(d) => (NodeView { settings: Some(d), ..v }, seq![ack]),
                None => (v, Seq::empty()),
            },
            None => (v, Seq::empty()),
        },
    }
}

/// What the node does about a text that is no acknowledgement of a punch.
pub open spec fn heard_text(v: NodeView, src: u16, t: Seq<char>, version: Seq<char>) -> (
    NodeView,
    Seq<EffectView>,
) {
    if let Some(target) = node_protocol::parsed_version_query(t) {
        if target == v.config.addr {
            (
                v,
                seq![
                    send_text(
                        src,
                        (protocol::FrameView::VersionReport {
                            origin: v.config.addr,
                            version,
                        }).wire(),
                        Purpose::Answer,
                    ),
                ],
            )
        } else {
            (v, Seq::empty())
        }
    } else if let Some(target) = node_protocol::parsed_config_ack(t) {
        if target == v.config.addr && v.verifying {
            (
                NodeView { verifying: false, ..v },
                seq![EffectView::Checkpoint("config verified"@)],
            )
        } else {
            (v, Seq::empty())
        }
    } else if let Some(protocol::FrameView::Command { target, commander, setting }) =
        protocol::parsed_frame(t) {
        if target == v.config.addr {
            obeyed(v, src, commander, setting)
        } else {
            (v, Seq::empty())
        }
    } else {
        (v, Seq::empty())
    }
}

/// The punch that received bytes acknowledge: the node and its card. An
/// acknowledgement comes as bytes or as a text.
pub open spec fn acked(bytes: Seq<u8>) -> Option<(u16, u32)> {
    match protocol::parsed_punch_ack(bytes) {
        Some(a) => Some(a),
        None => if vstd::utf8::valid_utf8(bytes) {
            node_protocol::parsed_punch_ack_text(vstd::utf8::decode_utf8(bytes))
        } else {
            None
        },
    }
}

/// What the node does about received bytes.
pub open spec fn heard(v: NodeView, src: u16, bytes: Seq<u8>, version: Seq<char>) -> (
    NodeView,
    Seq<EffectView>,
) {
    match acked(bytes) {
        Some((node, card_id)) => match v.punch {
            Some(p) => if node == v.config.addr && p.card_id == card_id {
                (NodeView { punch: None, ..v }, Seq::empty())
            } else {
                (v, Seq::empty())
            },
            None => (v, Seq::empty()),
        },
        None => if vstd::utf8::valid_utf8(bytes) {
            heard_text(v, src, vstd::utf8::decode_utf8(bytes), version)
        } else {
            (v, Seq::empty())
        },
    }
}

/// The announcement of a node.
pub open spec fn announcement(c: NodeConfig, version: Seq<char>, purpose: Purpose) -> EffectView {
    send_text(
        c.dest,
        (protocol::FrameView::VersionReport { origin: c.addr, version }).wire(),
        purpose,
    )
}

/// What the node does about a radio mode that is not confirmed yet.
pub open spec fn verified(v: NodeView, version: Seq<char>, now: u64) -> (
    NodeView,
    Seq<EffectView>,
) {
    if !v.verifying {
        (v, Seq::empty())
    } else if daemon::elapsed(now, v.started) >= CONFIG_VERIFY_WINDOW_MS {
        let c = v.config.standard();
        (
            NodeView { config: c, verifying: false, ..v },
            seq![
                EffectView::Checkpoint("config unverified: reverted to standard (this boot only)"@),
                EffectView::Configure(c.modem(v.tx_power_dbm)),
            ],
        )
    } else if daemon::elapsed(now, v.last_announcement) >= CONFIG_VERIFY_RETRY_MS {
        (
            NodeView { last_announcement: now, ..v },
            seq![announcement(v.config, version, Purpose::Announcement)],
        )
    } else {
        (v, Seq::empty())
    }
}

/// The time since the last heartbeat. The first one is due right after the
/// boot.
pub open spec fn heartbeat_age(v: NodeView, now: u64) -> int {
    match v.last_heartbeat {
        Some(t) => daemon::elapsed(now, t),
        None => daemon::elapsed(now, v.started) + DEFAULT_HEARTBEAT_SECS * 1000,
    }
}

/// Whether a heartbeat is due.
pub open spec fn heartbeat_due(v: NodeView, now: u64) -> bool {
    heartbeat_age(v, now) >= v.heartbeat_secs * 1000
}

/// The number of the next heartbeat.
pub open spec fn next_number(n: u32) -> u32 {
    if n < u32::MAX {
        (n + 1) as u32
    } else {
        n
    }
}

/// Sending the first punch of the queue.
pub open spec fn punch_send(v: NodeView) -> EffectView {
    send_text(
        v.config.dest,
        sportident::addressed_payload(v.config.addr, v.config.dest, v.queue[0]),
        Purpose::Punch,
    )
}

/// What the node does about its punches: the first of the queue is sent once
/// nothing waits, and what waits too long is sent again.
pub open spec fn punched(v: NodeView, now: u64) -> (NodeView, Option<EffectView>) {
    match v.punch {
        None => (
            v,
            if v.queue.len() > 0 {
                Some(punch_send(v))
            } else {
                None
            },
        ),
        Some(p) => if daemon::elapsed(now, p.sent_at) >= PUNCH_RETRY_INTERVAL_MS {
            (
                NodeView {
                    punch: Some(
                        PendingView { attempts: next_number(p.attempts), sent_at: now, ..p },
                    ),
                    ..v
                },
                Some(
                    EffectView::Send {
                        dest: v.config.dest,
                        bytes: p.payload,
                        purpose: Purpose::PunchAgain,
                    },
                ),
            )
        } else {
            (v, None)
        },
    }
}

/// What follows from a sending that succeeded, or failed with an error. A
/// failed one may have left the radio stuck, so it is reset.
pub open spec fn after_sending(v: NodeView, purpose: Purpose, error: Option<Seq<char>>) -> Seq<
    EffectView,
> {
    let reset = EffectView::Configure(v.config.modem(v.tx_power_dbm));
    match (purpose, error) {
        (Purpose::LastAnswer, _) => Seq::empty(),
        (Purpose::Boot, None) => seq![EffectView::Checkpoint("boot announce: ok"@)],
        (Purpose::Boot, Some(e)) => seq![
            EffectView::Checkpoint("boot announce: err "@ + e),
            reset,
        ],
        (Purpose::Heartbeat(n), None) => seq![
            EffectView::Checkpoint("hb #"@ + decimal::dec(n as nat) + ": ok"@),
        ],
        (Purpose::Heartbeat(n), Some(e)) => seq![
            EffectView::Checkpoint("hb #"@ + decimal::dec(n as nat) + ": err "@ + e),
            reset,
        ],
        (_, None) => Seq::empty(),
        (_, Some(_)) => seq![reset],
    }
}

impl Node {
    /// A node right after its boot, with the settings that it loaded.
    pub fn new(config: NodeConfig, now: u64) -> (r: Node)
        ensures
            r@ == booted(config, now),
    {
        let r = Node {
            config,
            tx_power_dbm: DEFAULT_TX_POWER_DBM,
            started: now,
            heartbeat_secs: DEFAULT_HEARTBEAT_SECS,
            last_heartbeat: None,
            heartbeats: 0,
            settings: None,
            verifying: true,
            last_announcement: now,
            queue: VecDeque::new(),
            punch: None,
        };
        assert(r@.queue =~= Seq::empty());
        r
    }

    /// The configuration that the radio is in.
    pub fn radio_config(&self) -> (r: Config)
        ensures
            r == self@.config.modem(self@.tx_power_dbm),
    {
        self.config.radio_config(self.tx_power_dbm)
    }

    /// Announces the node and its version.
    pub fn announce(&self, version: &str, purpose: Purpose) -> (r: Effect)
        ensures
            r@ == announcement(self@.config, version@, purpose),
    {
        let report = encode_version_report(self.config.addr, version);
        Effect::Send { dest: self.config.dest, bytes: bytes_of(report.as_str()), purpose }
    }

    /// Confirms a command.
    fn confirm(&self, src: u16, commander: u16, setting: Setting, purpose: Purpose) -> (r: Effect)
        ensures
            r@ == confirmation(self@, src, commander, setting, purpose),
    {
        let ack = Frame::Ack { origin: self.config.addr, commander, setting }.encode();
        Effect::Send { dest: src, bytes: bytes_of(ack.as_str()), purpose }
    }

    /// Carries out a command for this node.
    fn obey(&mut self, src: u16, commander: u16, setting: Setting) -> (r: Vec<Effect>)
        ensures
            (final(self)@, views(r@)) == obeyed(old(self)@, src, commander, setting),
    {
        let mut out: Vec<Effect> = Vec::new();
        match setting {
            Setting::HeartbeatIntervalSecs(secs) => {
                self.heartbeat_secs = secs;
            },
            Setting::TxPowerDbm(dbm) => {
                self.tx_power_dbm = dbm;
                out.push(Effect::Configure(self.radio_config()));
            },
            Setting::SettingsMode(true) => {
                self.settings = Some(self.config);
                out.push(checkpoint("entered settings mode"));
            },
            Setting::SettingsMode(false) => {
                if let Some(c) = self.settings {
                    self.settings = None;
                    out.push(Effect::Save(c.save()));
                    out.push(self.confirm(src, commander, setting, Purpose::LastAnswer));
                    out.push(checkpoint("settings mode: config saved, rebooting"));
                    out.push(Effect::Restart);
                }
                assert(views(out@) =~= obeyed(old(self)@, src, commander, setting).1);
                return out;
            },
            _ => {
                if !stage_setting(&mut self.settings, setting) {
                    assert(views(out@) =~= Seq::empty());
                    return out;
                }
            },
        }
        out.push(self.confirm(src, commander, setting, Purpose::Answer));
        assert(views(out@) =~= obeyed(old(self)@, src, commander, setting).1);
        out
    }

    /// Takes what the radio received from `src`. What says nothing to this node
    /// changes nothing.
    pub fn received(&mut self, src: u16, bytes: &[u8], version: &str) -> (r: Vec<Effect>)
        ensures
            (final(self)@, views(r@)) == heard(old(self)@, src, bytes@, version@),
    {
        let none: Vec<Effect> = Vec::new();
        assert(views(none@) =~= Seq::empty());
        if let Some((node, card_id)) = crate::lora_server::protocol::parse_punch_ack(bytes) {
            self.punch_acked(node, card_id);
            return none;
        }
        let t = match text::from_utf8(bytes) {
            Some(t) => t,
            None => return none,
        };
        if let Some((node, card_id)) = parse_punch_ack(t) {
            self.punch_acked(node, card_id);
            return none;
        }
        if let Some(target) = parse_version_query(t) {
            if target == self.config.addr {
                let report = encode_version_report(self.config.addr, version);
                return just(
                    Effect::Send {
                        dest: src,
                        bytes: bytes_of(report.as_str()),
                        purpose: Purpose::Answer,
                    },
                );
            }
            return none;
        }
        if let Some(target) = parse_config_ack(t) {
            if target == self.config.addr && self.verifying {
                self.verifying = false;
                return just(checkpoint("config verified"));
            }
            return none;
        }
        if let Some(Frame::Command { target, commander, setting }) = Frame::parse(t) {
            if target == self.config.addr {
                return self.obey(src, commander, setting);
            }
        }
        none
    }

    /// Takes the acknowledgement of a punch.
    fn punch_acked(&mut self, node: u16, card_id: u32)
        ensures
            final(self)@ == (match old(self)@.punch {
                Some(p) => if node == old(self)@.config.addr && p.card_id == card_id {
                    NodeView { punch: None, ..old(self)@ }
                } else {
                    old(self)@
                },
                None => old(self)@,
            }),
    {
        let done: bool = match &self.punch {
            Some(p) => node == self.config.addr && p.card_id == card_id,
            None => false,
        };
        if done {
            self.punch = None;
        }
    }

    /// While the radio mode is not confirmed, announces the node from time to
    /// time, and after a while falls back to the standard mode. That lasts until
    /// the next boot: the stored settings stay.
    pub fn verify_step(&mut self, version: &str, now: u64) -> (r: Vec<Effect>)
        ensures
            (final(self)@, views(r@)) == verified(old(self)@, version@, now),
    {
        let mut out: Vec<Effect> = Vec::new();
        if self.verifying {
            if elapsed_ms(now, self.started) >= CONFIG_VERIFY_WINDOW_MS {
                out.push(checkpoint("config unverified: reverted to standard (this boot only)"));
                self.config = self.config.standard_rf();
                self.verifying = false;
                out.push(Effect::Configure(self.radio_config()));
            } else if elapsed_ms(now, self.last_announcement) >= CONFIG_VERIFY_RETRY_MS {
                self.last_announcement = now;
                out.push(self.announce(version, Purpose::Announcement));
            }
        }
        assert(views(out@) =~= verified(old(self)@, version@, now).1);
        out
    }

    /// Tells whether a heartbeat is due.
    pub fn is_heartbeat_due(&self, now: u64) -> (r: bool)
        ensures
            r == heartbeat_due(self@, now),
    {
        let age: u128 = match self.last_heartbeat {
            Some(t) => elapsed_ms(now, t) as u128,
            None => elapsed_ms(now, self.started) as u128 + DEFAULT_HEARTBEAT_SECS as u128 * 1000,
        };
        age >= self.heartbeat_secs as u128 * 1000
    }

    /// Sends a heartbeat where one is due, with what the battery and the reader
    /// say.
    pub fn heartbeat(&mut self, battery: Option<(u8, u16)>, si: bool, now: u64) -> (r: Option<
        Effect,
    >)
        ensures
            heartbeat_due(old(self)@, now) ==> {
                let n = next_number(old(self)@.heartbeats);
                &&& final(self)@ == (NodeView {
                    last_heartbeat: Some(now),
                    heartbeats: n,
                    ..old(self)@
                })
                &&& opt_effect(r) == Some(
                    EffectView::Send {
                        dest: old(self)@.config.dest,
                        bytes: heartbeat(battery, Some(si)),
                        purpose: Purpose::Heartbeat(n),
                    },
                )
            },
            !heartbeat_due(old(self)@, now) ==> r is None && final(self)@ == old(self)@,
    {
        if !self.is_heartbeat_due(now) {
            return None;
        }
        self.last_heartbeat = Some(now);
        if self.heartbeats < u32::MAX {
            self.heartbeats = self.heartbeats + 1;
        }
        let payload = encode_heartbeat(battery, Some(si));
        let mut bytes: Vec<u8> = Vec::new();
        bytes.extend_from_slice(payload.as_slice());
        assert(bytes@ =~= heartbeat(battery, Some(si)));
        Some(
            Effect::Send {
                dest: self.config.dest,
                bytes,
                purpose: Purpose::Heartbeat(self.heartbeats),
            },
        )
    }

    /// Takes a card that was read; its punches are sent in their turn.
    pub fn card_read(&mut self, readout: CardReadout)
        ensures
            final(self)@ == (NodeView { queue: old(self)@.queue.push(readout@), ..old(self)@ }),
    {
        self.queue.push_back(readout);
        assert(self@.queue =~= old(self)@.queue.push(readout@));
    }

    /// Sends the first punch of the queue where none waits, or again the one that
    /// waits too long.
    pub fn punch_step(&mut self, now: u64) -> (r: Option<Effect>)
        ensures
            (final(self)@, opt_effect(r)) == punched(old(self)@, now),
    {
        match self.punch.take() {
            None => {
                if self.queue.len() == 0 {
                    return None;
                }
                let t = self.queue[0].to_addressed_payload(self.config.addr, self.config.dest);
                Some(
                    Effect::Send {
                        dest: self.config.dest,
                        bytes: bytes_of(t.as_str()),
                        purpose: Purpose::Punch,
                    },
                )
            },
            Some(mut p) => {
                if elapsed_ms(now, p.sent_at) < PUNCH_RETRY_INTERVAL_MS {
                    self.punch = Some(p);
                    return None;
                }
                if p.attempts < u32::MAX {
                    p.attempts = p.attempts + 1;
                }
                p.sent_at = now;
                let mut bytes: Vec<u8> = Vec::new();
                bytes.extend_from_slice(p.payload.as_slice());
                assert(bytes@ =~= p.payload@);
                self.punch = Some(p);
                Some(
                    Effect::Send {
                        dest: self.config.dest,
                        bytes,
                        purpose: Purpose::PunchAgain,
                    },
                )
            },
        }
    }

    /// Takes that the first punch of the queue was sent: it now waits for its
    /// acknowledgement.
    pub fn punch_sent(&mut self, now: u64)
        requires
            old(self)@.queue.len() > 0,
            old(self)@.punch is None,
        ensures
            final(self)@ == (NodeView {
                queue: old(self)@.queue.skip(1),
                punch: Some(
                    PendingView {
                        card_id: old(self)@.queue[0].card_id,
                        payload: punch_send(old(self)@)->bytes,
                        sent_at: now,
                        attempts: 1,
                    },
                ),
                ..old(self)@
            }),
    {
        if let Some(first) = self.queue.pop_front() {
            let t = first.to_addressed_payload(self.config.addr, self.config.dest);
            self.punch = Some(
                PendingPunch {
                    card_id: first.card_id,
                    payload: bytes_of(t.as_str()),
                    sent_at: now,
                    attempts: 1,
                },
            );
            assert(self@.queue =~= old(self)@.queue.skip(1));
        }
    }

    /// What follows from a sending that succeeded, or failed with an error.
    pub fn outcome(&self, purpose: Purpose, error: Option<&str>) -> (r: Vec<Effect>)
        ensures
            views(r@) == after_sending(self@, purpose, daemon::opt_str(error)),
    {
        let mut out: Vec<Effect> = Vec::new();
        match purpose {
            Purpose::LastAnswer => {
                assert(views(out@) =~= Seq::empty());
                return out;
            },
            Purpose::Boot => {
                let mut line: String = String::new();
                match error {
                    Some(e) => {
                        line.push_str("boot announce: err ");
                        line.push_str(e);
                        assert(line@ =~= "boot announce: err "@ + e@);
                    },
                    None => {
                        line.push_str("boot announce: ok");
                        assert(line@ =~= "boot announce: ok"@);
                    },
                }
                out.push(Effect::Checkpoint(line));
            },
            Purpose::Heartbeat(n) => {
                let mut line: String = String::new();
                line.push_str("hb #");
                decimal::push_dec(&mut line, n as u64);
                match error {
                    Some(e) => {
                        line.push_str(": err ");
                        line.push_str(e);
                        assert(line@ =~= "hb #"@ + decimal::dec(n as nat) + ": err "@ + e@);
                    },
                    None => {
                        line.push_str(": ok");
                        assert(line@ =~= "hb #"@ + decimal::dec(n as nat) + ": ok"@);
                    },
                }
                out.push(Effect::Checkpoint(line));
            },
            _ => {},
        }
        if error.is_some() {
            out.push(Effect::Configure(self.radio_config()));
        }
        assert(views(out@) =~= after_sending(self@, purpose, daemon::opt_str(error)));
        out
    }
}

/// The first checkpoint of a boot.
pub fn boot_line(reason: &str) -> (r: String)
    ensures
        r@ == "boot: "@ + reason@,
{
    let mut line: String = String::new();
    line.push_str("boot: ");
    line.push_str(reason);
    assert(line@ =~= "boot: "@ + reason@);
    line
}

/// The checkpoint after the radio was first configured.
pub const RADIO_UP: &'static str = "radio up";

/// A line of the log as it is sent to the base station on the bench:
/// `DBGLOG <number>/<count> <line>`.
pub open spec fn debug_text(number: nat, count: nat, line: Seq<char>) -> Seq<char> {
    "DBGLOG "@ + decimal::dec(number) + "/"@ + decimal::dec(count) + " "@ + line
}

/// The texts that send a log to the base station, one for each line.
pub fn debug_lines(lines: &[String]) -> (r: Vec<String>)
    ensures
        r@.len() == lines@.len(),
        forall|i: int|
            0 <= i < r@.len() ==> #[trigger] r@[i]@ == debug_text(
                (i + 1) as nat,
                lines@.len(),
                lines@[i]@,
            ),
{
    let n: usize = lines.len();
    let mut out: Vec<String> = Vec::new();
    let mut i: usize = 0;
    while i < n
        invariant
            n == lines@.len(),
            i <= n,
            out@.len() == i,
            forall|j: int|
                0 <= j < i ==> #[trigger] out@[j]@ == debug_text(
                    (j + 1) as nat,
                    lines@.len(),
                    lines@[j]@,
                ),
        decreases n - i,
    {
        let mut t: String = String::new();
        t.push_str("DBGLOG ");
        assert(t@ =~= "DBGLOG "@);
        decimal::push_dec(&mut t, i as u64 + 1);
        t.push_str("/");
        decimal::push_dec(&mut t, n as u64);
        t.push_str(" ");
        t.push_str(lines[i].as_str());
        out.push(t);
        i += 1;
    }
    out
}

/// A command that the node does not apply changes nothing and is not confirmed;
/// one that it applies is confirmed to the one that sent it.
pub proof fn law_confirmed_means_applied(v: NodeView, src: u16, commander: u16, s: Setting)
    ensures
        ({
            let (w, out) = obeyed(v, src, commander, s);
            &&& out.len() == 0 ==> w == v
            &&& out.len() > 0 ==> (out.contains(
                confirmation(v, src, commander, s, Purpose::Answer),
            ) || out.contains(confirmation(v, src, commander, s, Purpose::LastAnswer)))
        }),
{
    let (w, out) = obeyed(v, src, commander, s);
    if out.len() > 0 {
        if s == Setting::SettingsMode(false) {
            assert(out[1] == confirmation(v, src, commander, s, Purpose::LastAnswer));
        } else {
            assert(out.last() == confirmation(v, src, commander, s, Purpose::Answer));
        }
    }
}

/// Outside settings mode, what could strand a node is refused. In settings mode
/// it is only staged: the settings in force stay as they are.
pub proof fn law_staging_leaves_the_radio_alone(v: NodeView, src: u16, commander: u16, s: Setting)
    requires
        !(s is HeartbeatIntervalSecs),
        !(s is TxPowerDbm),
    ensures
        ({
            let (w, out) = obeyed(v, src, commander, s);
            &&& w.config == v.config
            &&& w.tx_power_dbm == v.tx_power_dbm
            &&& forall|i: int| 0 <= i < out.len() ==> !(#[trigger] out[i] is Configure)
            &&& v.settings is None && !(s is SettingsMode) ==> w == v && out.len() == 0
        }),
{
}

/// Leaving settings mode stores what was staged, and after the restart the node
/// runs on that.
pub proof fn law_staged_settings_are_those_of_the_next_boot(
    v: NodeView,
    src: u16,
    commander: u16,
    staged: NodeConfig,
    defaults: NodeConfig,
    now: u64,
)
    requires
        v.settings == Some(staged),
    ensures
        ({
            let (w, out) = obeyed(v, src, commander, Setting::SettingsMode(false));
            &&& out[0] == EffectView::Save(staged.kept())
            &&& out.last() == EffectView::Restart
            &&& config::loaded(staged.kept(), defaults) == staged
            &&& booted(config::loaded(staged.kept(), defaults), now).config == staged
        }),
{
}

/// The fallback to the standard mode keeps the addresses and stores nothing, so
/// that the next boot tries the stored settings again.
pub proof fn law_fallback_lasts_one_boot(v: NodeView, version: Seq<char>, now: u64)
    ensures
        ({
            let (w, out) = verified(v, version, now);
            &&& w.config.addr == v.config.addr
            &&& w.config.dest == v.config.dest
            &&& forall|i: int| 0 <= i < out.len() ==> !(#[trigger] out[i] is Save)
            &&& w.config != v.config ==> v.verifying && !w.verifying
        }),
{
}

/// A node that was never confirmed is in the standard mode once the time for
/// that is over.
pub proof fn law_unconfirmed_node_falls_back(v: NodeView, version: Seq<char>, now: u64)
    requires
        v.verifying,
        daemon::elapsed(now, v.started) >= CONFIG_VERIFY_WINDOW_MS,
    ensures
        verified(v, version, now).0.config == v.config.standard(),
        !verified(v, version, now).0.verifying,
{
}

/// Whatever is received, no queued punch is lost, and the punch that waits goes
/// on waiting unless its own acknowledgement arrived.
pub proof fn law_punch_leaves_by_its_acknowledgement(
    v: NodeView,
    src: u16,
    bytes: Seq<u8>,
    version: Seq<char>,
    p: PendingView,
)
    requires
        v.punch == Some(p),
    ensures
        heard(v, src, bytes, version).0.queue == v.queue,
        heard(v, src, bytes, version).0.punch == (if acked(bytes) == Some(
            (v.config.addr, p.card_id),
        ) {
            None
        } else {
            Some(p)
        }),
{
}

/// While a punch waits, no other is sent.
pub proof fn law_one_punch_at_a_time(v: NodeView, now: u64, p: PendingView)
    requires
        v.punch == Some(p),
    ensures
        punched(v, now).0.queue == v.queue,
        punched(v, now).0.punch matches Some(q) && q.card_id == p.card_id && q.payload == p.payload,
        punched(v, now).1 matches Some(e) ==> e == (EffectView::Send {
            dest: v.config.dest,
            bytes: p.payload,
            purpose: Purpose::PunchAgain,
        }),
{
}

/// The first byte of an encoded text.
proof fn lemma_first_byte(t: Seq<char>)
    requires
        t.len() > 0,
        t[0] == 'P',
    ensures
        vstd::utf8::encode_utf8(t).len() > 0,
        vstd::utf8::encode_utf8(t)[0] == 80u8,
{
    assert((80u32 & 0x7F) as u8 == 80u8) by (bit_vector);
    assert(t[0] as u32 == 80u32);
    assert(vstd::utf8::encode_scalar(80u32) =~= seq![80u8]);
}

/// A card's punches that the node sends are recorded by the base station, and
/// its answer ends the node's waiting.
pub proof fn law_base_station_takes_punches(
    v: NodeView,
    base: daemon::DaemonView,
    rssi: Option<i16>,
    version: Seq<char>,
    now: u64,
)
    requires
        v.punch is None,
        v.queue.len() > 0,
        v.config.dest == base.own_addr,
    ensures
        ({
            let readout = v.queue[0];
            let sent = sportident::addressed_payload(v.config.addr, v.config.dest, readout);
            let answer = node_protocol::punch_ack_text(v.config.addr, readout.card_id);
            let waiting = NodeView {
                queue: v.queue.skip(1),
                punch: Some(
                    PendingView {
                        card_id: readout.card_id,
                        payload: vstd::utf8::encode_utf8(sent),
                        sent_at: now,
                        attempts: 1,
                    },
                ),
                ..v
            };
            let at_base = daemon::on_packet(
                base,
                v.config.addr,
                rssi,
                vstd::utf8::encode_utf8(sent),
            ).1;
            let after = heard(
                waiting,
                base.own_addr,
                vstd::utf8::encode_utf8(answer),
                version,
            ).0;
            &&& punched(v, now).1 == Some(send_text(v.config.dest, sent, Purpose::Punch))
            &&& at_base.subrange(2, at_base.len() - 2) == daemon::recordings(
                readout.card_id,
                readout.punches,
                decimal::dec(v.config.addr as nat),
            )
            &&& at_base[at_base.len() - 2] == daemon::send_text(
                v.config.addr,
                answer,
                daemon::Purpose::Answer,
            )
            &&& after == (NodeView { queue: v.queue.skip(1), ..v })
        }),
{
    let readout = v.queue[0];
    let sent = sportident::addressed_payload(v.config.addr, v.config.dest, readout);
    let answer = node_protocol::punch_ack_text(v.config.addr, readout.card_id);
    sportident::law_addressed_payload_round_trip(v.config.addr, v.config.dest, readout);
    reveal_strlit("PUNCH ");
    daemon::law_printable_text_is_not_packed(sent);
    daemon::law_text_is_received_as_sent(base, v.config.addr, rssi, sent);
    let at_base = daemon::on_packet(base, v.config.addr, rssi, vstd::utf8::encode_utf8(sent)).1;
    assert(at_base.subrange(2, at_base.len() - 2) =~= daemon::recordings(
        readout.card_id,
        readout.punches,
        decimal::dec(v.config.addr as nat),
    ));
    node_protocol::law_punch_ack_text_round_trip(v.config.addr, readout.card_id);
    reveal_strlit("PACK ");
    lemma_first_byte(answer);
    vstd::utf8::encode_utf8_valid_utf8(answer);
    vstd::utf8::encode_utf8_decode_utf8(answer);
}

/// The base station learns from a heartbeat of the node what the node said of
/// its battery and its station, and under whose address.
pub proof fn law_base_station_reads_heartbeats(
    base: daemon::DaemonView,
    src: u16,
    rssi: Option<i16>,
    battery: Option<(u8, u16)>,
    si_present: Option<bool>,
)
    ensures
        ({
            let bytes = heartbeat(battery, si_present);
            let noted = daemon::EffectView::NodeHeartbeat { node: src, battery, si_present };
            &&& daemon::on_packet(base, src, rssi, bytes) == (
                base,
                seq![
                    noted,
                    daemon::log_event(
                        status::StatusView::HeartbeatRx { node: src, battery, si_present },
                    ),
                    daemon::EffectView::Log(radio::rx_line(src, rssi, text::shown(bytes))),
                ],
            )
            &&& daemon::on_packet(base, src, rssi, bytes).1.contains(noted)
        }),
{
    let bytes = heartbeat(battery, si_present);
    let flags = heartbeat_flags(battery, si_present);
    assert(bytes[1] == flags);
    assert(flags % 2 == if battery is Some { 1int } else { 0 });
    assert(flags / 2 % 2 == if si_present is Some { 1int } else { 0 });
    assert(flags / 4 % 2 == if si_present == Some(true) { 1int } else { 0 });
    if let Some((pct, mv)) = battery {
        assert((bytes[3] * 256 + bytes[4]) as u16 == mv);
    }
    let hb = backend::Heartbeat { battery, si_present };
    assert(backend::parsed_packed_heartbeat(bytes) == Some(hb));
    let effects = daemon::on_packet(base, src, rssi, bytes).1;
    assert(effects =~= seq![
        daemon::EffectView::NodeHeartbeat { node: src, battery, si_present },
        daemon::log_event(status::StatusView::HeartbeatRx { node: src, battery, si_present }),
        daemon::EffectView::Log(radio::rx_line(src, rssi, text::shown(bytes))),
    ]);
    assert(effects[0] == daemon::EffectView::NodeHeartbeat { node: src, battery, si_present });
}

/// The node's announcement is answered by the base station, and the answer
/// confirms the radio mode.
pub proof fn law_base_station_confirms_the_mode(v: NodeView, src: u16, version: Seq<char>)
    requires
        v.verifying,
        version.len() > 0,
    ensures
        ({
            let report = protocol::FrameView::VersionReport { origin: v.config.addr, version };
            let answer = (protocol::FrameView::ConfigAck { target: v.config.addr }).wire();
            &&& announcement(v.config, version, Purpose::Boot) == send_text(
                v.config.dest,
                report.wire(),
                Purpose::Boot,
            )
            &&& protocol::parsed_frame(report.wire()) == Some(report)
            &&& heard(v, src, vstd::utf8::encode_utf8(answer), version).0 == (NodeView {
                verifying: false,
                ..v
            })
        }),
{
    let report = protocol::FrameView::VersionReport { origin: v.config.addr, version };
    let answer = (protocol::FrameView::ConfigAck { target: v.config.addr }).wire();
    protocol::law_frame_round_trip(report);
    lemma_frame_is_no_ack(protocol::FrameView::ConfigAck { target: v.config.addr }, "CACK "@);
    node_protocol::law_node_reads_base_station(v.config.addr);
    reveal_strlit("CACK ");
    reveal_strlit("VQUERY ");
    text::lemma_strip_none(answer, "VQUERY "@, 0);
}

/// A frame's text is no acknowledgement of a punch.
proof fn lemma_frame_is_no_ack(f: protocol::FrameView, name: Seq<char>)
    requires
        name == "CACK "@ && f is ConfigAck || name == "CMD "@ && f is Command,
    ensures
        acked(vstd::utf8::encode_utf8(f.wire())) is None,
        vstd::utf8::valid_utf8(vstd::utf8::encode_utf8(f.wire())),
        vstd::utf8::decode_utf8(vstd::utf8::encode_utf8(f.wire())) == f.wire(),
{
    let t = f.wire();
    reveal_strlit("CACK ");
    reveal_strlit("CMD ");
    reveal_strlit("PACK ");
    assert(t[0] == 'C');
    assert((67u32 & 0x7F) as u8 == 67u8) by (bit_vector);
    assert(t[0] as u32 == 67u32);
    assert(vstd::utf8::encode_scalar(67u32) =~= seq![67u8]);
    assert(vstd::utf8::encode_utf8(t)[0] == 67u8);
    vstd::utf8::encode_utf8_valid_utf8(t);
    vstd::utf8::encode_utf8_decode_utf8(t);
    text::lemma_strip_none(t, "PACK "@, 0);
}

/// A command that a daemon sends to the node is obeyed, and where it is applied
/// the daemon reads the confirmation as that of its own command.
pub proof fn law_daemon_commands_are_obeyed(
    v: NodeView,
    commander: u16,
    src: u16,
    s: Setting,
    version: Seq<char>,
)
    ensures
        ({
            let order = protocol::FrameView::Command {
                target: v.config.addr,
                commander,
                setting: s,
            };
            let ack = protocol::FrameView::Ack { origin: v.config.addr, commander, setting: s };
            &&& heard(v, src, vstd::utf8::encode_utf8(order.wire()), version) == obeyed(
                v,
                src,
                commander,
                s,
            )
            &&& confirmation(v, src, commander, s, Purpose::Answer) == send_text(
                src,
                ack.wire(),
                Purpose::Answer,
            )
            &&& protocol::parsed_frame(ack.wire()) == Some(ack)
        }),
{
    let order = protocol::FrameView::Command { target: v.config.addr, commander, setting: s };
    let ack = protocol::FrameView::Ack { origin: v.config.addr, commander, setting: s };
    protocol::law_frame_round_trip(order);
    protocol::law_frame_round_trip(ack);
    lemma_frame_is_no_ack(order, "CMD "@);
    reveal_strlit("CMD ");
    reveal_strlit("VQUERY ");
    reveal_strlit("CACK ");
    text::lemma_strip_none(order.wire(), "VQUERY "@, 0);
    text::lemma_strip_none(order.wire(), "CACK "@, 1);
}

/// A staged setting has its new value, and every other one stays. A spreading
/// factor, a bandwidth or a coding rate that the radio does not have is refused.
pub proof fn law_staged_setting_changes_alone(c: NodeConfig, s: Setting)
    ensures
        s matches Setting::Addr(v) ==> (staged(c, s) matches Some(d) && d.addr == v && d
            == (NodeConfig { addr: d.addr, ..c })),
        s matches Setting::Dest(v) ==> (staged(c, s) matches Some(d) && d.dest == v && d
            == (NodeConfig { dest: d.dest, ..c })),
        s matches Setting::FreqHz(v) ==> (staged(c, s) matches Some(d) && d.freq_hz == v && d
            == (NodeConfig { freq_hz: d.freq_hz, ..c })),
        s matches Setting::SyncWord(v) ==> (staged(c, s) matches Some(d) && d.sync_word == v && d
            == (NodeConfig { sync_word: d.sync_word, ..c })),
        s matches Setting::Sf(v) ==> match staged(c, s) {
            Some(d) => 7 <= v && v <= 12 && d.sf == v && d == (NodeConfig { sf: d.sf, ..c }),
            None => v < 7 || v > 12,
        },
        s matches Setting::BwHz(v) ==> match staged(c, s) {
            Some(d) => d.bw_hz == v && d == (NodeConfig { bw_hz: d.bw_hz, ..c }) && d.modem(
                0,
            ).bandwidth.in_hz() == v,
            None => forall|b: Bandwidth| #[trigger] b.in_hz() != v,
        },
        s matches Setting::Cr(v) ==> match staged(c, s) {
            Some(d) => d.cr == v && d == (NodeConfig { cr: d.cr, ..c }) && d.modem(
                0,
            ).coding_rate.den() == v,
            None => v < 5 || v > 8,
        },
        s is HeartbeatIntervalSecs || s is TxPowerDbm || s is SettingsMode ==> staged(
            c,
            s,
        ) is None,
{
    assert(CodingRate::Cr4_5.den() == 5 && CodingRate::Cr4_6.den() == 6 && CodingRate::Cr4_7.den()
        == 7 && CodingRate::Cr4_8.den() == 8);
}

/// Whether a modem configuration is that of settings and a power.
pub open spec fn tuned(m: Config, c: NodeConfig, dbm: i8) -> bool {
    &&& m.freq_hz == c.freq_hz
    &&& m.sync_word == c.sync_word
    &&& m.spreading_factor == c.sf
    &&& m.addr == c.addr
    &&& m.tx_power_dbm == dbm
    &&& (m.bandwidth.in_hz() == c.bw_hz || forall|b: Bandwidth| #[trigger] b.in_hz() != c.bw_hz)
    &&& (m.coding_rate.den() == c.cr || forall|r: CodingRate| #[trigger] r.den() != c.cr)
}

/// Whenever the node configures its radio, it is for the settings and the power
/// that are in force from then on: after a command, after a fallback and after a
/// failed sending.
pub proof fn law_radio_follows_the_node(
    v: NodeView,
    src: u16,
    commander: u16,
    s: Setting,
    version: Seq<char>,
    now: u64,
    purpose: Purpose,
    error: Option<Seq<char>>,
)
    ensures
        ({
            let (w, out) = obeyed(v, src, commander, s);
            forall|i: int|
                0 <= i < out.len() ==> (#[trigger] out[i] matches EffectView::Configure(m)
                    ==> tuned(m, w.config, w.tx_power_dbm))
        }),
        ({
            let (w, out) = verified(v, version, now);
            forall|i: int|
                0 <= i < out.len() ==> (#[trigger] out[i] matches EffectView::Configure(m)
                    ==> tuned(m, w.config, w.tx_power_dbm))
        }),
        ({
            let out = after_sending(v, purpose, error);
            forall|i: int|
                0 <= i < out.len() ==> (#[trigger] out[i] matches EffectView::Configure(m)
                    ==> tuned(m, v.config, v.tx_power_dbm))
        }),
{
    config::law_radio_works_on_the_settings(obeyed(v, src, commander, s).0.config, obeyed(
        v,
        src,
        commander,
        s,
    ).0.tx_power_dbm);
    config::law_radio_works_on_the_settings(verified(v, version, now).0.config, v.tx_power_dbm);
    config::law_radio_works_on_the_settings(v.config, v.tx_power_dbm);
}

/// A power that is commanded is that of the radio, and an interval that is
/// commanded is that of the heartbeats; nothing else of the node changes.
pub proof fn law_commanded_value_takes_effect(
    v: NodeView,
    src: u16,
    commander: u16,
    dbm: i8,
    secs: u32,
)
    ensures
        ({
            let (w, out) = obeyed(v, src, commander, Setting::TxPowerDbm(dbm));
            &&& w.tx_power_dbm == dbm
            &&& w == (NodeView { tx_power_dbm: w.tx_power_dbm, ..v })
            &&& out.len() == 2
            &&& out[0] matches EffectView::Configure(m)
            &&& m.tx_power_dbm == dbm
            &&& m.sync_word == v.config.sync_word
        }),
        ({
            let (w, out) = obeyed(v, src, commander, Setting::HeartbeatIntervalSecs(secs));
            &&& w.heartbeat_secs == secs
            &&& w == (NodeView { heartbeat_secs: w.heartbeat_secs, ..v })
            &&& forall|i: int| 0 <= i < out.len() ==> #[trigger] out[i] !is Configure
        }),
{
    config::law_radio_works_on_the_settings(v.config, dbm);
}

/// Entering settings mode stages the settings in force; a setting that is staged
/// is confirmed by a frame that names this node, the commander and the setting,
/// sent to whoever handed the command in.
pub proof fn law_staged_setting_is_confirmed(
    v: NodeView,
    src: u16,
    commander: u16,
    s: Setting,
    c: NodeConfig,
    d: NodeConfig,
)
    requires
        v.settings == Some(c),
        staged(c, s) == Some(d),
    ensures
        obeyed(v, src, commander, Setting::SettingsMode(true)).0.settings == Some(v.config),
        ({
            let (w, out) = obeyed(v, src, commander, s);
            &&& w == (NodeView { settings: Some(d), ..v })
            &&& out.len() == 1
            &&& out[0] matches EffectView::Send { dest, bytes, .. }
            &&& dest == src
            &&& protocol::parsed_frame(vstd::utf8::decode_utf8(bytes)) == Some(
                protocol::FrameView::Ack { origin: v.config.addr, commander, setting: s },
            )
        }),
{
    let ack = protocol::FrameView::Ack { origin: v.config.addr, commander, setting: s };
    protocol::law_frame_round_trip(ack);
    vstd::utf8::encode_utf8_valid_utf8(ack.wire());
    vstd::utf8::encode_utf8_decode_utf8(ack.wire());
}

/// What is meant for another node changes nothing here and is not answered:
/// acknowledgements, version queries, confirmations and commands.
pub proof fn law_others_traffic_is_ignored(
    v: NodeView,
    src: u16,
    bytes: Seq<u8>,
    version: Seq<char>,
)
    requires
        match acked(bytes) {
            Some((node, _)) => node != v.config.addr,
            None => {
                let t = vstd::utf8::decode_utf8(bytes);
                &&& node_protocol::parsed_version_query(t) != Some(v.config.addr)
                &&& node_protocol::parsed_config_ack(t) != Some(v.config.addr)
                &&& !(protocol::parsed_frame(t) matches Some(
                    protocol::FrameView::Command { target, .. },
                ) && target == v.config.addr)
            },
        },
    ensures
        heard(v, src, bytes, version).0 == v,
        heard(v, src, bytes, version).1.len() == 0,
{
}

/// A node that is not confirmed keeps its radio mode for thirty seconds from its
/// start, announces itself every ten seconds to where it sends, and then falls
/// back; a confirmed one does nothing of this.
pub proof fn law_unconfirmed_node_announces_itself(v: NodeView, version: Seq<char>, now: u64)
    requires
        version.len() > 0,
    ensures
        !v.verifying ==> verified(v, version, now) == (v, Seq::<EffectView>::empty()),
        now < v.started + 30_000 ==> verified(v, version, now).0.config == v.config && verified(
            v,
            version,
            now,
        ).0.verifying == v.verifying,
        v.verifying && now >= v.started + 30_000 ==> {
            let (w, out) = verified(v, version, now);
            &&& w.config == v.config.standard()
            &&& !w.verifying
            &&& out.len() == 2
            &&& out[1] matches EffectView::Configure(m)
            &&& m.freq_hz == 868_000_000
            &&& m.sync_word == 0x12
            &&& m.spreading_factor == 7
            &&& m.addr == v.config.addr
        },
        v.verifying && now < v.started + 30_000 && now < v.last_announcement + 10_000 ==> verified(
            v,
            version,
            now,
        ) == (v, Seq::<EffectView>::empty()),
        v.verifying && now < v.started + 30_000 && now >= v.last_announcement + 10_000 ==> {
            let (w, out) = verified(v, version, now);
            &&& w == (NodeView { last_announcement: now, ..v })
            &&& out.len() == 1
            &&& out[0] matches EffectView::Send { dest, bytes, .. }
            &&& dest == v.config.dest
            &&& protocol::parsed_frame(vstd::utf8::decode_utf8(bytes)) == Some(
                protocol::FrameView::VersionReport { origin: v.config.addr, version },
            )
        },
{
    let report = protocol::FrameView::VersionReport { origin: v.config.addr, version };
    protocol::law_frame_round_trip(report);
    vstd::utf8::encode_utf8_valid_utf8(report.wire());
    vstd::utf8::encode_utf8_decode_utf8(report.wire());
}

/// A heartbeat is due when its interval has passed since the last one, and right
/// after a boot.
pub proof fn law_heartbeat_comes_at_its_interval(v: NodeView, now: u64, c: NodeConfig)
    ensures
        v.last_heartbeat matches Some(t) ==> (now >= t ==> (heartbeat_due(v, now) <==> now >= t
            + 1000 * v.heartbeat_secs)),
        heartbeat_due(booted(c, now), now),
        booted(c, now).config == c,
        booted(c, now).verifying,
        booted(c, now).heartbeat_secs == 60,
        booted(c, now).tx_power_dbm == 20,
{
}

/// Punches leave in the order in which the cards were read: with none waiting,
/// the oldest of the queue goes to where the node sends, under the node's own
/// address; the one that waits is sent again, as it was, once five seconds have
/// passed, and never given up.
pub proof fn law_punches_leave_in_order(v: NodeView, now: u64)
    ensures
        v.punch is None && v.queue.len() > 0 ==> {
            &&& punched(v, now).0 == v
            &&& punched(v, now).1 matches Some(EffectView::Send { dest, bytes, .. })
            &&& dest == v.config.dest
            &&& sportident::parsed_addressed_payload(vstd::utf8::decode_utf8(bytes)) == Some(
                (v.config.addr, v.config.dest, v.queue[0]),
            )
        },
        v.punch is None && v.queue.len() == 0 ==> punched(v, now) == (v, None::<EffectView>),
        v.punch matches Some(p) ==> {
            let (w, e) = punched(v, now);
            &&& now < p.sent_at + 5_000 <==> e is None
            &&& e is None ==> w == v
            &&& e matches Some(x) ==> (x matches EffectView::Send { dest, bytes, .. } && dest
                == v.config.dest && bytes == p.payload)
            &&& e is Some ==> (w.punch matches Some(q) && q.sent_at == now && q.card_id == p.card_id
                && q.payload == p.payload && w.queue == v.queue)
        },
{
    if v.punch is None && v.queue.len() > 0 {
        let sent = sportident::addressed_payload(v.config.addr, v.config.dest, v.queue[0]);
        sportident::law_addressed_payload_round_trip(v.config.addr, v.config.dest, v.queue[0]);
        vstd::utf8::encode_utf8_valid_utf8(sent);
        vstd::utf8::encode_utf8_decode_utf8(sent);
    }
}

/// A sending that fails resets the radio, unless the node is about to restart;
/// one that succeeds does not.
pub proof fn law_failed_sending_resets_the_radio(v: NodeView, purpose: Purpose, e: Seq<char>)
    ensures
        purpose != Purpose::LastAnswer ==> after_sending(v, purpose, Some(e)).last() is Configure,
        forall|i: int|
            0 <= i < after_sending(v, purpose, None).len() ==> #[trigger] after_sending(
                v,
                purpose,
                None,
            )[i] !is Configure,
        after_sending(v, Purpose::LastAnswer, Some(e)).len() == 0,
{
}

/// A node that is asked for its version tells it to whoever asked, under its own
/// address, and does nothing else.
pub proof fn law_version_query_is_answered(
    v: NodeView,
    src: u16,
    t: Seq<char>,
    version: Seq<char>,
)
    requires
        node_protocol::parsed_version_query(t) == Some(v.config.addr),
        version.len() > 0,
    ensures
        ({
            let (w, out) = heard_text(v, src, t, version);
            &&& w == v
            &&& out.len() == 1
            &&& out[0] matches EffectView::Send { dest, bytes, .. }
            &&& dest == src
            &&& protocol::parsed_frame(vstd::utf8::decode_utf8(bytes)) == Some(
                protocol::FrameView::VersionReport { origin: v.config.addr, version },
            )
        }),
{
    let report = protocol::FrameView::VersionReport { origin: v.config.addr, version };
    protocol::law_frame_round_trip(report);
    vstd::utf8::encode_utf8_valid_utf8(report.wire());
    vstd::utf8::encode_utf8_decode_utf8(report.wire());
}

} // verus!
