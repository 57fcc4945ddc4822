//! The daemon's decisions.
//!
//! Whoever owns the radio, the buffer and the clock hands in what happened and
//! carries out the effects that come back, in their order. Time is in
//! milliseconds of a clock that does not run backwards.

use vstd::prelude::*;
use crate::esp32_node::protocol as node_protocol;
use crate::sportident;
use crate::sportident::{CardReadout, ControlPunch};
use crate::{decimal, text};
use super::backend::{
    from_hex, next_local_batch, parse_heartbeat, parse_packed_heartbeat, Batch, Heartbeat,
};
use super::protocol::{parse_punch_ack, Frame, Setting};
use super::punch_buffer::BufferedPunch;
use super::radio::encode_rx_line;
use super::status::StatusEvent;
use super::{backend, protocol, punch_buffer, radio, status};

verus! {

/// Time after which a command that was not confirmed is sent again.
pub const CMD_RETRY_INTERVAL_MS: u64 = 5_000;

/// How often a command is sent before it is given up.
pub const CMD_MAX_ATTEMPTS: u32 = 5;

/// Time after which a punch that was not acknowledged is sent again. A punch is
/// never given up.
pub const PUNCH_RETRY_INTERVAL_MS: u64 = 5_000;

/// A command that waits for its confirmation.
#[derive(Debug, Clone, Copy, PartialEq, Eq, Structural)]
pub struct PendingCommand {
    pub target: u16,
    pub setting: Setting,
    pub sent_at: u64,
    pub attempts: u32,
}

/// The punches that wait for their acknowledgement; at most one batch does.
#[derive(Debug)]
pub struct PendingPunch {
    pub card_id: u32,
    pub row_ids: Vec<i64>,
    pub payload: String,
    pub sent_at: u64,
    pub attempts: u32,
}

/// Waiting punches as a value.
pub struct PendingView {
    pub card_id: u32,
    pub row_ids: Seq<i64>,
    pub payload: Seq<char>,
    pub sent_at: u64,
    pub attempts: u32,
}

impl View for PendingPunch {
    type V = PendingView;

    open spec fn view(&self) -> PendingView {
        PendingView {
            card_id: self.card_id,
            row_ids: self.row_ids@,
            payload: self.payload@,
            sent_at: self.sent_at,
            attempts: self.attempts,
        }
    }
}

/// What a sending is for, which decides what is logged of it.
#[derive(Debug, Clone, Copy, PartialEq, Eq, Structural)]
pub enum Purpose {
    /// A payload or a punch, or one passed on.
    Payload,
    Command,
    Heartbeat,
    /// An answer, of which nothing is logged.
    Answer,
}

/// Something to do.
#[derive(Debug)]
pub enum Effect {
    /// Send these bytes and log the outcome as `outcome_line` says. `shown` is
    /// the text of the bytes.
    Send { dest: u16, bytes: Vec<u8>, shown: String, purpose: Purpose },
    /// Log a line.
    Log(String),
    /// Record a punch in the buffer.
    Record { card_id: u32, station: u8, time_s: u32, source: String },
    /// Note in the buffer that a punch was delivered.
    MarkSent(i64),
    /// Note that a punch of a node arrived.
    NodePunch { node: u16, rssi: Option<i16> },
    /// Note a node's heartbeat.
    NodeHeartbeat { node: u16, battery: Option<(u8, u16)>, si_present: Option<bool> },
    /// Note a node's version.
    NodeVersion { node: u16, version: String },
}

/// An effect as a value.
pub enum EffectView {
    Send { dest: u16, bytes: Seq<u8>, shown: Seq<char>, purpose: Purpose },
    Log(Seq<char>),
    Record { card_id: u32, station: u8, time_s: u32, source: Seq<char> },
    MarkSent(i64),
    NodePunch { node: u16, rssi: Option<i16> },
    NodeHeartbeat { node: u16, battery: Option<(u8, u16)>, si_present: Option<bool> },
    NodeVersion { node: u16, version: Seq<char> },
}

impl View for Effect {
    type V = EffectView;

    open spec fn view(&self) -> EffectView {
        match *self {
            Effect::Send { dest, bytes, shown, purpose } => EffectView::Send {
                dest,
                bytes: bytes@,
                shown: shown@,
                purpose,
            },
            Effect::Log(line) => EffectView::Log(line@),
            Effect::Record { card_id, station, time_s, source } => EffectView::Record {
                card_id,
                station,
                time_s,
                source: source@,
            },
            Effect::MarkSent(id) => EffectView::MarkSent(id),
            Effect::NodePunch { node, rssi } => EffectView::NodePunch { node, rssi },
            Effect::NodeHeartbeat { node, battery, si_present } => EffectView::NodeHeartbeat {
                node,
                battery,
                si_present,
            },
            Effect::NodeVersion { node, version } => EffectView::NodeVersion {
                node,
                version: version@,
            },
        }
    }
}

/// A list of effects as values.
pub open spec fn views(v: Seq<Effect>) -> Seq<EffectView> {
    Seq::new(v.len(), |i: int| v[i]@)
}

/// Sending a text.
pub open spec fn send_text(dest: u16, shown: Seq<char>, purpose: Purpose) -> EffectView {
    EffectView::Send { dest, bytes: vstd::utf8::encode_utf8(shown), shown, purpose }
}

/// Logging an event.
pub open spec fn log_event(e: status::StatusView) -> EffectView {
    EffectView::Log(e.line())
}

/// Sends a text.
pub fn text_effect(dest: u16, shown: String, purpose: Purpose) -> (r: Effect)
    ensures
        r@ == send_text(dest, shown@, purpose),
{
    let mut bytes: Vec<u8> = Vec::new();
    bytes.extend_from_slice(shown.as_str().as_bytes());
    assert(bytes@ =~= vstd::utf8::encode_utf8(shown@));
    Effect::Send { dest, bytes, shown, purpose }
}

/// Logs an event.
fn event_effect(e: StatusEvent) -> (r: Effect)
    ensures
        r@ == log_event(e@),
{
    Effect::Log(e.encode())
}

/// What precedes the error in the log line of a failed sending.
pub open spec fn failure_name(p: Purpose) -> Seq<char> {
    match p {
        Purpose::Payload => "TX: "@,
        Purpose::Command => "CMD: "@,
        Purpose::Heartbeat => "HB: "@,
        Purpose::Answer => Seq::empty(),
    }
}

/// The log line of a sending that succeeded, or failed with an error.
pub open spec fn outcome(e: EffectView, error: Option<Seq<char>>) -> Option<Seq<char>> {
    match e {
        EffectView::Send { dest, shown, purpose, .. } => if purpose == Purpose::Answer {
            None
        } else {
            match error {
                Some(m) => Some((status::StatusView::Error(failure_name(purpose) + m)).line()),
                None => if purpose == Purpose::Heartbeat {
                    Some((status::StatusView::Heartbeat { dest }).line())
                } else {
                    Some((status::StatusView::Tx { dest, payload: shown }).line())
                },
            }
        },
        _ => None,
    }
}

/// An optional text as a value.
pub open spec fn opt_text(o: Option<String>) -> Option<Seq<char>> {
    match o {
        Some(s) => Some(s@),
        None => None,
    }
}

/// An optional text as a value.
pub open spec fn opt_str(o: Option<&str>) -> Option<Seq<char>> {
    match o {
        Some(s) => Some(s@),
        None => None,
    }
}

/// `<what>: <error>`, logged as an error.
pub fn failure(what: &str, error: &str) -> (r: String)
    ensures
        r@ == (status::StatusView::Error(what@ + error@)).line(),
{
    let mut m: String = String::new();
    m.push_str(what);
    m.push_str(error);
    assert(m@ =~= what@ + error@);
    StatusEvent::Error(m).encode()
}

impl Effect {
    /// The log line of a sending that succeeded, or failed with an error; `None`
    /// where nothing is logged.
    pub fn outcome_line(&self, error: Option<&str>) -> (r: Option<String>)
        ensures
            opt_text(r) == outcome(self@, opt_str(error)),
    {
        match self {
            Effect::Send { dest, shown, purpose, .. } => {
                if *purpose == Purpose::Answer {
                    return None;
                }
                match error {
                    Some(m) => Some(
                        match purpose {
                            Purpose::Payload => failure("TX: ", m),
                            Purpose::Command => failure("CMD: ", m),
                            _ => failure("HB: ", m),
                        },
                    ),
                    None => Some(
                        if *purpose == Purpose::Heartbeat {
                            StatusEvent::Heartbeat { dest: *dest }.encode()
                        } else {
                            StatusEvent::Tx { dest: *dest, payload: shown.clone() }.encode()
                        },
                    ),
                }
            },
            _ => None,
        }
    }
}

/// The daemon's state.
#[derive(Debug)]
pub struct Daemon {
    pub own_addr: u16,
    /// Whether it passes on what is meant for others.
    pub relay: bool,
    /// Where it sends to.
    pub dest: u16,
    /// Seconds between its heartbeats, if it sends any.
    pub heartbeat_secs: Option<u64>,
    pub last_heartbeat: u64,
    pub commands: Vec<PendingCommand>,
    pub punch: Option<PendingPunch>,
}

/// The state as a value.
pub struct DaemonView {
    pub own_addr: u16,
    pub relay: bool,
    pub dest: u16,
    pub heartbeat_secs: Option<u64>,
    pub last_heartbeat: u64,
    pub commands: Seq<PendingCommand>,
    pub punch: Option<PendingView>,
}

/// Optional waiting punches as a value.
pub open spec fn opt_pending(o: Option<PendingPunch>) -> Option<PendingView> {
    match o {
        Some(p) => Some(p@),
        None => None,
    }
}

impl View for Daemon {
    type V = DaemonView;

    open spec fn view(&self) -> DaemonView {
        DaemonView {
            own_addr: self.own_addr,
            relay: self.relay,
            dest: self.dest,
            heartbeat_secs: self.heartbeat_secs,
            last_heartbeat: self.last_heartbeat,
            commands: self.commands@,
            punch: opt_pending(self.punch),
        }
    }
}

/// The period of a heartbeat interval, which 0 turns off.
pub open spec fn period(secs: u64) -> Option<u64> {
    if secs > 0 {
        Some(secs)
    } else {
        None
    }
}

/// The time from `since` to `now`.
pub open spec fn elapsed(now: u64, since: u64) -> int {
    if now > since {
        now - since
    } else {
        0
    }
}

/// The time from `since` to `now`.
pub fn elapsed_ms(now: u64, since: u64) -> (r: u64)
    ensures
        r == elapsed(now, since),
{
    if now > since {
        now - since
    } else {
        0
    }
}

/// Sending a command to the next hop.
pub open spec fn command_send(d: DaemonView, target: u16, setting: Setting) -> EffectView {
    send_text(
        d.dest,
        (protocol::FrameView::Command { target, commander: d.own_addr, setting }).wire(),
        Purpose::Command,
    )
}

/// What a command line asks for that only the buffer can answer.
#[derive(Debug)]
pub enum CommandStep {
    /// These effects and no more.
    Done(Vec<Effect>),
    /// Record a made-up punch, and log what `test_punch_recorded` says.
    RecordTest { card_id: u32, station: u8, time_s: u32 },
    /// Give up an unsent local punch, and call `punch_cleared`.
    Clear(i64),
    /// Give up all unsent local punches, and call `punches_cleared`.
    ClearAll,
}

/// A step as a value.
pub enum CommandStepView {
    Done(Seq<EffectView>),
    RecordTest { card_id: u32, station: u8, time_s: u32 },
    Clear(i64),
    ClearAll,
}

impl View for CommandStep {
    type V = CommandStepView;

    open spec fn view(&self) -> CommandStepView {
        match *self {
            CommandStep::Done(v) => CommandStepView::Done(views(v@)),
            CommandStep::RecordTest { card_id, station, time_s } => CommandStepView::RecordTest {
                card_id,
                station,
                time_s,
            },
            CommandStep::Clear(id) => CommandStepView::Clear(id),
            CommandStep::ClearAll => CommandStepView::ClearAll,
        }
    }
}

/// No effect.
pub open spec fn nothing() -> CommandStepView {
    CommandStepView::Done(Seq::empty())
}

/// One effect.
pub open spec fn only(e: EffectView) -> CommandStepView {
    CommandStepView::Done(seq![e])
}

/// Sending a command and waiting for its confirmation.
pub open spec fn commanded(d: DaemonView, now: u64, order: Option<(u16, Setting)>) -> (
    DaemonView,
    CommandStepView,
) {
    match order {
        Some((target, setting)) => (
            DaemonView {
                commands: d.commands.push(
                    PendingCommand { target, setting, sent_at: now, attempts: 1 },
                ),
                ..d
            },
            only(command_send(d, target, setting)),
        ),
        None => (d, nothing()),
    }
}

/// Reads `<address> <seconds>`.
pub open spec fn parsed_interval(s: Seq<char>) -> Option<(u16, Setting)> {
    match (decimal::as_u16(text::head(s, ' ')), text::tail(s, ' ')) {
        (Some(target), Some(t)) => match decimal::as_u32(t) {
            Some(secs) => Some((target, Setting::HeartbeatIntervalSecs(secs))),
            None => None,
        },
        _ => None,
    }
}

/// Whether a text has three fields.
pub open spec fn three_fields(s: Seq<char>) -> bool {
    match text::tail(s, ' ') {
        Some(t) => text::tail(t, ' ') is Some,
        None => false,
    }
}

/// What the daemon does about a command line. An unknown one is ignored.
pub open spec fn obeyed(d: DaemonView, cmd: Seq<char>, now: u64) -> (DaemonView, CommandStepView) {
    if let Some(n) = text::strip(cmd, "SET_DEST "@) {
        match protocol::parsed_addr(n) {
            Some(dest) => (DaemonView { dest, ..d }, nothing()),
            None => (d, nothing()),
        }
    } else if let Some(payload) = text::strip(cmd, "SEND "@) {
        (d, only(send_text(d.dest, payload, Purpose::Payload)))
    } else if let Some(rest) = text::strip(cmd, "SENDBIN "@) {
        match backend::unhex(rest) {
            Some(bytes) => (
                d,
                only(
                    EffectView::Send {
                        dest: d.dest,
                        bytes,
                        shown: text::shown(bytes),
                        purpose: Purpose::Payload,
                    },
                ),
            ),
            None => (d, nothing()),
        }
    } else if let Some(rest) = text::strip(cmd, "CMD "@) {
        commanded(d, now, parsed_interval(rest))
    } else if let Some(rest) = text::strip(cmd, "SETCFG "@) {
        commanded(d, now, status::parsed_target(rest))
    } else if let Some(rest) = text::strip(cmd, "QUERYVERSION "@) {
        match protocol::parsed_addr(rest) {
            Some(target) => (
                d,
                only(
                    send_text(
                        d.dest,
                        (protocol::FrameView::VersionQuery { target }).wire(),
                        Purpose::Payload,
                    ),
                ),
            ),
            None => (d, nothing()),
        }
    } else if let Some(rest) = text::strip(cmd, "TESTPUNCH "@) {
        match status::parsed_triple(rest) {
            Some((card_id, station, time_s)) => (
                d,
                CommandStepView::RecordTest { card_id, station, time_s },
            ),
            None => if three_fields(rest) {
                (d, only(EffectView::Log("ERR TESTPUNCH: bad numeric fields"@)))
            } else {
                (
                    d,
                    only(
                        EffectView::Log(
                            "ERR TESTPUNCH: usage TESTPUNCH <card_id> <station> <time_s>"@,
                        ),
                    ),
                )
            },
        }
    } else if let Some(rest) = text::strip(cmd, "CLEARPUNCH "@) {
        match decimal::as_i64(text::trimmed(rest)) {
            Some(id) => (d, CommandStepView::Clear(id)),
            None => (d, only(EffectView::Log("ERR CLEARPUNCH: usage CLEARPUNCH <id>"@))),
        }
    } else if text::trimmed(cmd) == "CLEARPUNCHES"@ {
        (d, CommandStepView::ClearAll)
    } else {
        (d, nothing())
    }
}

/// No effect.
fn no_effect() -> (r: CommandStep)
    ensures
        r@ == nothing(),
{
    let v: Vec<Effect> = Vec::new();
    assert(views(v@) =~= Seq::empty());
    CommandStep::Done(v)
}

/// One effect.
fn one_effect(e: Effect) -> (r: CommandStep)
    ensures
        r@ == only(e@),
{
    let mut v: Vec<Effect> = Vec::new();
    v.push(e);
    assert(views(v@) =~= seq![e@]);
    CommandStep::Done(v)
}

/// Reads `<address> <seconds>`.
fn parse_interval(s: &[char]) -> (r: Option<(u16, Setting)>)
    ensures
        r == parsed_interval(s@),
{
    let (first, rest) = text::split_head(s, ' ');
    match (decimal::parse_u16(first), rest) {
        (Some(target), Some(t)) => match decimal::parse_u32(t) {
            Some(secs) => Some((target, Setting::HeartbeatIntervalSecs(secs))),
            None => None,
        },
        _ => None,
    }
}

/// The commands after a look at what is overdue, and what is done about them:
/// an overdue one is sent again, or given up after the last attempt.
pub open spec fn retried(d: DaemonView, cmds: Seq<PendingCommand>, now: u64) -> (
    Seq<PendingCommand>,
    Seq<EffectView>,
)
    decreases cmds.len(),
{
    if cmds.len() == 0 {
        (Seq::empty(), Seq::empty())
    } else {
        let (kept, effects) = retried(d, cmds.drop_last(), now);
        let c = cmds.last();
        if elapsed(now, c.sent_at) < CMD_RETRY_INTERVAL_MS {
            (kept.push(c), effects)
        } else if c.attempts >= CMD_MAX_ATTEMPTS {
            (
                kept,
                effects.push(
                    log_event(status::StatusView::CmdErr { target: c.target, setting: c.setting }),
                ),
            )
        } else {
            (
                kept.push(
                    PendingCommand { attempts: (c.attempts + 1) as u32, sent_at: now, ..c },
                ),
                effects.push(command_send(d, c.target, c.setting)),
            )
        }
    }
}

/// What is due of the own heartbeat.
pub open spec fn heartbeat_due(d: DaemonView, now: u64) -> bool {
    match d.heartbeat_secs {
        Some(secs) => elapsed(now, d.last_heartbeat) / 1000 >= secs,
        None => false,
    }
}

/// Recording the punches of a card, in order.
pub open spec fn recordings(card_id: u32, punches: Seq<ControlPunch>, source: Seq<char>) -> Seq<
    EffectView,
> {
    Seq::new(
        punches.len(),
        |i: int|
            EffectView::Record {
                card_id,
                station: punches[i].station,
                time_s: punches[i].time_s,
                source,
            },
    )
}

/// Appends the recording of a card's punches.
fn push_recordings(out: &mut Vec<Effect>, readout: &CardReadout, source: &str)
    ensures
        views(final(out)@) == views(old(out)@) + recordings(
            readout.card_id,
            readout.punches@,
            source@,
        ),
{
    let mut i: usize = 0;
    let ghost start = views(out@);
    let ghost all = recordings(readout.card_id, readout.punches@, source@);
    assert(views(out@) =~= start + all.take(0));
    while i < readout.punches.len()
        invariant
            i <= readout.punches@.len(),
            all == recordings(readout.card_id, readout.punches@, source@),
            views(out@) == start + all.take(i as int),
        decreases readout.punches@.len() - i,
    {
        let ghost before = out@;
        out.push(
            Effect::Record {
                card_id: readout.card_id,
                station: readout.punches[i].station,
                time_s: readout.punches[i].time_s,
                source: source.to_owned(),
            },
        );
        assert(views(out@) =~= views(before).push(all[i as int]));
        i += 1;
        assert(all.take(i as int) =~= all.take(i - 1).push(all[i - 1]));
        assert(views(out@) =~= start + all.take(i as int));
    }
    assert(all.take(all.len() as int) =~= all);
}

/// What is due of the punches to send.
#[derive(Debug)]
pub enum PunchStep {
    Idle,
    /// Send a first batch, and call `punch_sent` where that succeeded.
    First(Batch, Effect),
    /// Send the waiting batch again.
    Again(Effect),
}

/// Noting that rows were delivered, in order.
pub open spec fn markings(ids: Seq<i64>) -> Seq<EffectView> {
    Seq::new(ids.len(), |i: int| EffectView::MarkSent(ids[i]))
}

/// Passing a text on.
pub open spec fn forward(next_hop: u16, t: Seq<char>) -> Seq<EffectView> {
    seq![send_text(next_hop, t, Purpose::Payload)]
}

/// Passing a text on, where the daemon is a relay.
pub open spec fn relayed(d: DaemonView, next_hop: u16, t: Seq<char>) -> (
    DaemonView,
    Seq<EffectView>,
) {
    (
        d,
        if d.relay {
            forward(next_hop, t)
        } else {
            Seq::empty()
        },
    )
}

/// The commands without the one that was confirmed.
pub open spec fn unconfirmed(cmds: Seq<PendingCommand>, target: u16, setting: Setting) -> Seq<
    PendingCommand,
>
    decreases cmds.len(),
{
    if cmds.len() == 0 {
        Seq::empty()
    } else {
        let front = unconfirmed(cmds.drop_last(), target, setting);
        if cmds.last().target == target && cmds.last().setting == setting {
            front
        } else {
            front.push(cmds.last())
        }
    }
}

/// What the daemon does about a frame that it received from `src`.
pub open spec fn on_frame(d: DaemonView, src: u16, f: protocol::FrameView, t: Seq<char>) -> (
    DaemonView,
    Seq<EffectView>,
) {
    match f {
        protocol::FrameView::Command { target, commander, setting } => if target == d.own_addr {
            match setting {
                Setting::HeartbeatIntervalSecs(secs) => (
                    DaemonView { heartbeat_secs: period(secs as u64), ..d },
                    seq![
                        send_text(
                            src,
                            (protocol::FrameView::Ack {
                                origin: d.own_addr,
                                commander,
                                setting,
                            }).wire(),
                            Purpose::Answer,
                        ),
                        log_event(status::StatusView::CmdApplied { commander, setting }),
                    ],
                ),
                _ => (d, Seq::empty()),
            }
        } else {
            relayed(d, target, t)
        },
        protocol::FrameView::Ack { origin, commander, setting } => if commander == d.own_addr {
            let left = unconfirmed(d.commands, origin, setting);
            (
                DaemonView { commands: left, ..d },
                if left.len() < d.commands.len() {
                    seq![log_event(status::StatusView::CmdOk { target: origin, setting })]
                } else {
                    Seq::empty()
                },
            )
        } else {
            relayed(d, commander, t)
        },
        protocol::FrameView::VersionReport { origin, version } => (
            d,
            seq![
                EffectView::NodeVersion { node: origin, version },
                send_text(
                    origin,
                    (protocol::FrameView::ConfigAck { target: origin }).wire(),
                    Purpose::Answer,
                ),
            ],
        ),
        _ => (d, Seq::empty()),
    }
}

/// What the daemon does about the acknowledgement of a punch, which came as
/// these bytes and is shown as `t`.
pub open spec fn on_punch_ack(
    d: DaemonView,
    src: u16,
    node: u16,
    card_id: u32,
    bytes: Seq<u8>,
    t: Seq<char>,
) -> (DaemonView, Seq<EffectView>) {
    if node == d.own_addr {
        match d.punch {
            Some(p) => if p.card_id == card_id {
                (
                    DaemonView { punch: None, ..d },
                    markings(p.row_ids).push(
                        log_event(status::StatusView::PunchAckOk { card_id, acked_by: src }),
                    ),
                )
            } else {
                (d, Seq::empty())
            },
            None => (d, Seq::empty()),
        }
    } else {
        (
            d,
            if d.relay {
                seq![EffectView::Send { dest: node, bytes, shown: t, purpose: Purpose::Payload }]
            } else {
                Seq::empty()
            },
        )
    }
}

/// What the daemon does about a heartbeat.
pub open spec fn on_heartbeat(src: u16, hb: Heartbeat) -> Seq<EffectView> {
    seq![
        EffectView::NodeHeartbeat { node: src, battery: hb.battery, si_present: hb.si_present },
        log_event(
            status::StatusView::HeartbeatRx {
                node: src,
                battery: hb.battery,
                si_present: hb.si_present,
            },
        ),
    ]
}

/// What the daemon does about a punch from `origin` to `dest`: it takes and
/// acknowledges its own, and passes on others where it is a relay.
pub open spec fn on_punch(
    d: DaemonView,
    src: u16,
    rssi: Option<i16>,
    origin: u16,
    dest: u16,
    readout: sportident::ReadoutView,
    t: Seq<char>,
) -> (DaemonView, Seq<EffectView>) {
    if dest == d.own_addr {
        (
            d,
            seq![
                EffectView::NodePunch { node: origin, rssi },
                log_event(status::StatusView::PunchRx { origin, card_id: readout.card_id }),
            ] + recordings(readout.card_id, readout.punches, decimal::dec(origin as nat)).push(
                send_text(
                    src,
                    node_protocol::punch_ack_text(origin, readout.card_id),
                    Purpose::Answer,
                ),
            ),
        )
    } else {
        relayed(d, d.dest, t)
    }
}

/// What the daemon does about a received text, besides logging it.
pub open spec fn on_text(d: DaemonView, src: u16, rssi: Option<i16>, t: Seq<char>) -> (
    DaemonView,
    Seq<EffectView>,
) {
    if let Some((origin, dest, readout)) = sportident::parsed_addressed_payload(t) {
        on_punch(d, src, rssi, origin, dest, readout, t)
    } else if let Some(f) = protocol::parsed_frame(t) {
        on_frame(d, src, f, t)
    } else if let Some((node, card_id)) = node_protocol::parsed_punch_ack_text(t) {
        on_punch_ack(d, src, node, card_id, vstd::utf8::encode_utf8(t), t)
    } else if let Some(hb) = backend::parsed_heartbeat(t) {
        (d, on_heartbeat(src, hb))
    } else {
        (d, Seq::empty())
    }
}

/// What the daemon does about received bytes, besides logging them. Heartbeats
/// and acknowledgements of punches come packed or as texts, all else as texts.
pub open spec fn on_bytes(d: DaemonView, src: u16, rssi: Option<i16>, bytes: Seq<u8>) -> (
    DaemonView,
    Seq<EffectView>,
) {
    if let Some(hb) = backend::parsed_packed_heartbeat(bytes) {
        (d, on_heartbeat(src, hb))
    } else if let Some((node, card_id)) = protocol::parsed_punch_ack(bytes) {
        on_punch_ack(d, src, node, card_id, bytes, text::shown(bytes))
    } else {
        on_text(d, src, rssi, text::shown(bytes))
    }
}

/// What the daemon does about a received packet.
pub open spec fn on_packet(d: DaemonView, src: u16, rssi: Option<i16>, bytes: Seq<u8>) -> (
    DaemonView,
    Seq<EffectView>,
) {
    let (after, effects) = on_bytes(d, src, rssi, bytes);
    (after, effects.push(EffectView::Log(radio::rx_line(src, rssi, text::shown(bytes)))))
}

/// Whether bytes are one of the packed frames.
pub open spec fn packed(bytes: Seq<u8>) -> bool {
    backend::parsed_packed_heartbeat(bytes) is Some || protocol::parsed_punch_ack(bytes) is Some
}

impl Daemon {
    /// A daemon that just started.
    pub fn new(own_addr: u16, dest: u16, heartbeat_interval: u64, relay: bool, now: u64) -> (r:
        Daemon)
        ensures
            r@ == (DaemonView {
                own_addr,
                relay,
                dest,
                heartbeat_secs: period(heartbeat_interval),
                last_heartbeat: now,
                commands: Seq::empty(),
                punch: None,
            }),
    {
        let commands: Vec<PendingCommand> = Vec::new();
        assert(commands@ =~= Seq::empty());
        Daemon {
            own_addr,
            relay,
            dest,
            heartbeat_secs: if heartbeat_interval > 0 {
                Some(heartbeat_interval)
            } else {
                None
            },
            last_heartbeat: now,
            commands,
            punch: None,
        }
    }

    /// Sends a command, and waits for its confirmation.
    fn send_command(&mut self, order: Option<(u16, Setting)>, now: u64) -> (r: CommandStep)
        ensures
            (final(self)@, r@) == commanded(old(self)@, now, order),
    {
        match order {
            Some((target, setting)) => {
                let e = self.command_effect(target, setting);
                self.commands.push(
                    PendingCommand { target, setting, sent_at: now, attempts: 1 },
                );
                one_effect(e)
            },
            None => no_effect(),
        }
    }

    /// Sends a command to the next hop.
    fn command_effect(&self, target: u16, setting: Setting) -> (r: Effect)
        ensures
            r@ == command_send(self@, target, setting),
    {
        let frame = Frame::Command { target, commander: self.own_addr, setting };
        text_effect(self.dest, frame.encode(), Purpose::Command)
    }

    /// Obeys a command line.
    pub fn command(&mut self, cmd: &str, now: u64) -> (r: CommandStep)
        ensures
            (final(self)@, r@) == obeyed(old(self)@, cmd@, now),
    {
        let all = text::chars(cmd);
        let s = all.as_slice();
        if let Some(n) = text::strip_prefix(s, "SET_DEST ") {
            if let Some(dest) = protocol::parse_addr(n) {
                self.dest = dest;
            }
            return no_effect();
        }
        if let Some(payload) = text::strip_prefix(s, "SEND ") {
            let e = text_effect(self.dest, text::string_of(payload), Purpose::Payload);
            return one_effect(e);
        }
        if let Some(rest) = text::strip_prefix(s, "SENDBIN ") {
            let digits = text::string_of(rest);
            return match from_hex(digits.as_str()) {
                Some(bytes) => {
                    let shown = text::from_utf8_lossy(bytes.as_slice());
                    one_effect(
                        Effect::Send { dest: self.dest, bytes, shown, purpose: Purpose::Payload },
                    )
                },
                None => no_effect(),
            };
        }
        if let Some(rest) = text::strip_prefix(s, "CMD ") {
            let order = parse_interval(rest);
            return self.send_command(order, now);
        }
        if let Some(rest) = text::strip_prefix(s, "SETCFG ") {
            let order = status::parse_target(rest);
            return self.send_command(order, now);
        }
        if let Some(rest) = text::strip_prefix(s, "QUERYVERSION ") {
            return match protocol::parse_addr(rest) {
                Some(target) => {
                    let frame = Frame::VersionQuery { target };
                    one_effect(text_effect(self.dest, frame.encode(), Purpose::Payload))
                },
                None => no_effect(),
            };
        }
        if let Some(rest) = text::strip_prefix(s, "TESTPUNCH ") {
            return self.test_punch(rest);
        }
        if let Some(rest) = text::strip_prefix(s, "CLEARPUNCH ") {
            return match decimal::parse_i64(text::trim(rest)) {
                Some(id) => CommandStep::Clear(id),
                None => one_effect(
                    Effect::Log("ERR CLEARPUNCH: usage CLEARPUNCH <id>".to_owned()),
                ),
            };
        }
        if text::same(text::trim(s), "CLEARPUNCHES") {
            return CommandStep::ClearAll;
        }
        no_effect()
    }

    /// Obeys a request for a made-up punch.
    fn test_punch(&self, rest: &[char]) -> (r: CommandStep)
        ensures
            r@ == (match status::parsed_triple(rest@) {
                Some((card_id, station, time_s)) => CommandStepView::RecordTest {
                    card_id,
                    station,
                    time_s,
                },
                None => if three_fields(rest@) {
                    only(EffectView::Log("ERR TESTPUNCH: bad numeric fields"@))
                } else {
                    only(
                        EffectView::Log(
                            "ERR TESTPUNCH: usage TESTPUNCH <card_id> <station> <time_s>"@,
                        ),
                    )
                },
            }),
    {
        if let Some((card_id, station, time_s)) = status::parse_triple(rest) {
            return CommandStep::RecordTest { card_id, station, time_s };
        }
        let (_, more) = text::split_head(rest, ' ');
        let complete: bool = match more {
            Some(t) => {
                let (_, last) = text::split_head(t, ' ');
                last.is_some()
            },
            None => false,
        };
        if complete {
            one_effect(Effect::Log("ERR TESTPUNCH: bad numeric fields".to_owned()))
        } else {
            one_effect(
                Effect::Log(
                    "ERR TESTPUNCH: usage TESTPUNCH <card_id> <station> <time_s>".to_owned(),
                ),
            )
        }
    }

    /// The log line of a made-up punch that was recorded, or was not.
    pub fn test_punch_recorded(
        &self,
        card_id: u32,
        station: u8,
        time_s: u32,
        error: Option<&str>,
    ) -> (r: String)
        ensures
            r@ == (match error {
                Some(m) => (status::StatusView::Error("TESTPUNCH: "@ + m@)).line(),
                None => (status::StatusView::TestPunchOk { card_id, station, time_s }).line(),
            }),
    {
        match error {
            Some(m) => failure("TESTPUNCH: ", m),
            None => StatusEvent::TestPunchOk { card_id, station, time_s }.encode(),
        }
    }

    /// Takes the buffer's answer to a request to give up a punch: whether there
    /// was one. The waiting batch is dropped with it, since nothing else would
    /// end its repetition.
    pub fn punch_cleared(&mut self, id: i64, answer: Result<bool, &str>) -> (r: String)
        ensures
            r@ == (match answer {
                Ok(true) => (status::StatusView::ClearPunchOk { id }).line(),
                Ok(false) => (status::StatusView::Error(
                    "CLEARPUNCH: no unsent local punch "@ + decimal::dec_signed(id as int),
                )).line(),
                Err(m) => (status::StatusView::Error("CLEARPUNCH: "@ + m@)).line(),
            }),
            final(self)@ == if answer == Ok::<bool, &str>(true) && (old(self)@.punch matches Some(p)
                && p.row_ids.contains(id)) {
                DaemonView { punch: None, ..old(self)@ }
            } else {
                old(self)@
            },
    {
        match answer {
            Ok(true) => {
                let hit: bool = match &self.punch {
                    Some(p) => contains(&p.row_ids, id),
                    None => false,
                };
                if hit {
                    self.punch = None;
                }
                StatusEvent::ClearPunchOk { id }.encode()
            },
            Ok(false) => {
                let mut m: String = String::new();
                m.push_str("CLEARPUNCH: no unsent local punch ");
                decimal::push_dec_signed(&mut m, id);
                assert(m@ =~= "CLEARPUNCH: no unsent local punch "@ + decimal::dec_signed(
                    id as int,
                ));
                StatusEvent::Error(m).encode()
            },
            Err(m) => failure("CLEARPUNCH: ", m),
        }
    }

    /// Takes the buffer's answer to a request to give up all local punches: how
    /// many there were. Whatever waited is gone with them.
    pub fn punches_cleared(&mut self, answer: Result<usize, &str>) -> (r: String)
        ensures
            r@ == (match answer {
                Ok(count) => (status::StatusView::ClearPunchesOk { count }).line(),
                Err(m) => (status::StatusView::Error("CLEARPUNCHES: "@ + m@)).line(),
            }),
            final(self)@ == if answer is Ok {
                DaemonView { punch: None, ..old(self)@ }
            } else {
                old(self)@
            },
    {
        match answer {
            Ok(count) => {
                self.punch = None;
                StatusEvent::ClearPunchesOk { count }.encode()
            },
            Err(m) => failure("CLEARPUNCHES: ", m),
        }
    }

    /// Sends overdue commands again, or gives them up.
    pub fn retry_commands(&mut self, now: u64) -> (r: Vec<Effect>)
        ensures
            final(self)@.commands == retried(old(self)@, old(self)@.commands, now).0,
            final(self)@ == (DaemonView { commands: final(self)@.commands, ..old(self)@ }),
            views(r@) == retried(old(self)@, old(self)@.commands, now).1,
    {
        let mut kept: Vec<PendingCommand> = Vec::new();
        let mut out: Vec<Effect> = Vec::new();
        let mut i: usize = 0;
        let ghost cmds = self.commands@;
        assert(kept@ =~= Seq::empty());
        assert(views(out@) =~= Seq::empty());
        while i < self.commands.len()
            invariant
                *self == *old(self),
                cmds == self.commands@,
                i <= cmds.len(),
                (kept@, views(out@)) == retried(self@, cmds.take(i as int), now),
            decreases cmds.len() - i,
        {
            let ghost before = out@;
            assert(cmds.take(i + 1).drop_last() =~= cmds.take(i as int));
            let c: PendingCommand = self.commands[i];
            if elapsed_ms(now, c.sent_at) < CMD_RETRY_INTERVAL_MS {
                kept.push(c);
            } else if c.attempts >= CMD_MAX_ATTEMPTS {
                out.push(
                    event_effect(
                        StatusEvent::CmdErr { target: c.target, setting: c.setting },
                    ),
                );
                assert(views(out@) =~= views(before).push(out@[out@.len() - 1]@));
            } else {
                out.push(self.command_effect(c.target, c.setting));
                assert(views(out@) =~= views(before).push(out@[out@.len() - 1]@));
                kept.push(PendingCommand { attempts: c.attempts + 1, sent_at: now, ..c });
            }
            i += 1;
        }
        assert(cmds.take(cmds.len() as int) =~= cmds);
        self.commands = kept;
        out
    }

    /// Sends the own heartbeat where it is due; never to the daemon itself.
    pub fn heartbeat(&mut self, now: u64) -> (r: Option<Effect>)
        ensures
            r is Some <==> heartbeat_due(old(self)@, now) && old(self)@.dest != old(self)@.own_addr,
            r matches Some(e) ==> e@ == send_text(old(self)@.dest, "HB"@, Purpose::Heartbeat),
            final(self)@ == if heartbeat_due(old(self)@, now) {
                DaemonView { last_heartbeat: now, ..old(self)@ }
            } else {
                old(self)@
            },
    {
        let due: bool = match self.heartbeat_secs {
            Some(secs) => elapsed_ms(now, self.last_heartbeat) / 1000 >= secs,
            None => false,
        };
        if !due {
            return None;
        }
        self.last_heartbeat = now;
        if self.dest == self.own_addr {
            return None;
        }
        Some(text_effect(self.dest, "HB".to_owned(), Purpose::Heartbeat))
    }

    /// Records the punches of a card that the own reader read.
    pub fn local_readout(&self, readout: &CardReadout) -> (r: Vec<Effect>)
        ensures
            views(r@) == recordings(readout.card_id, readout.punches@, "local"@),
    {
        let mut out: Vec<Effect> = Vec::new();
        push_recordings(&mut out, readout, "local");
        assert(views(out@) =~= recordings(readout.card_id, readout.punches@, "local"@));
        out
    }

    /// Looks at the punches to send, of which the unsent local ones are given,
    /// oldest first. Nothing is sent to the daemon itself, and no second batch
    /// while one waits.
    pub fn punch_step(&mut self, now: u64, unsent: &Vec<BufferedPunch>) -> (r: PunchStep)
        ensures
            r is First <==> old(self)@.dest != old(self)@.own_addr && old(self)@.punch is None
                && unsent@.len() > 0,
            r is Again <==> old(self)@.dest != old(self)@.own_addr && (old(self)@.punch matches Some(
                p,
            ) && elapsed(now, p.sent_at) >= 5_000),
            r !is Again ==> final(self)@ == old(self)@,
            r matches PunchStep::First(b, e) ==> {
                let rows = backend::first_card(punch_buffer::views(unsent@));
                &&& b.card_id == unsent@[0].card_id
                &&& b.row_ids@ == Seq::new(rows.len(), |i: int| rows[i].id)
                &&& b.payload@ == sportident::addressed_payload(
                    old(self)@.own_addr,
                    old(self)@.dest,
                    sportident::ReadoutView {
                        card_id: b.card_id,
                        punches: backend::punches_of(rows),
                    },
                )
                &&& e@ == send_text(old(self)@.dest, b.payload@, Purpose::Payload)
            },
            r matches PunchStep::Again(e) ==> {
                let p = old(self)@.punch->0;
                &&& e@ == send_text(old(self)@.dest, p.payload, Purpose::Payload)
                &&& final(self)@ == (DaemonView {
                    punch: Some(
                        PendingView {
                            sent_at: now,
                            attempts: if p.attempts < u32::MAX {
                                (p.attempts + 1) as u32
                            } else {
                                p.attempts
                            },
                            ..p
                        },
                    ),
                    ..old(self)@
                })
            },
    {
        if self.dest == self.own_addr {
            return PunchStep::Idle;
        }
        match self.punch.take() {
            None => match next_local_batch(unsent, self.own_addr, self.dest) {
                Some(b) => {
                    let e = text_effect(self.dest, b.payload.clone(), Purpose::Payload);
                    PunchStep::First(b, e)
                },
                None => PunchStep::Idle,
            },
            Some(p) => {
                let mut p = p;
                if elapsed_ms(now, p.sent_at) < PUNCH_RETRY_INTERVAL_MS {
                    self.punch = Some(p);
                    return PunchStep::Idle;
                }
                if p.attempts < u32::MAX {
                    p.attempts = p.attempts + 1;
                }
                p.sent_at = now;
                let e = text_effect(self.dest, p.payload.clone(), Purpose::Payload);
                self.punch = Some(p);
                PunchStep::Again(e)
            },
        }
    }

    /// Notes that a first batch was sent; it waits from now on.
    pub fn punch_sent(&mut self, batch: Batch, now: u64)
        ensures
            final(self)@ == (DaemonView {
                punch: Some(
                    PendingView {
                        card_id: batch.card_id,
                        row_ids: batch.row_ids@,
                        payload: batch.payload@,
                        sent_at: now,
                        attempts: 1,
                    },
                ),
                ..old(self)@
            }),
    {
        self.punch = Some(
            PendingPunch {
                card_id: batch.card_id,
                row_ids: batch.row_ids,
                payload: batch.payload,
                sent_at: now,
                attempts: 1,
            },
        );
    }

    /// Passes a text on, where the daemon is a relay.
    fn relay_text(&self, next_hop: u16, t: &str) -> (r: Vec<Effect>)
        ensures
            views(r@) == relayed(self@, next_hop, t@).1,
    {
        let mut out: Vec<Effect> = Vec::new();
        if self.relay {
            out.push(text_effect(next_hop, t.to_owned(), Purpose::Payload));
        }
        assert(views(out@) =~= relayed(self@, next_hop, t@).1);
        out
    }

    /// Takes a frame.
    fn take_frame(&mut self, src: u16, f: Frame, t: &str) -> (r: Vec<Effect>)
        ensures
            (final(self)@, views(r@)) == on_frame(old(self)@, src, f@, t@),
    {
        let mut out: Vec<Effect> = Vec::new();
        assert(views(out@) =~= Seq::empty());
        match f {
            Frame::Command { target, commander, setting } => {
                if target != self.own_addr {
                    return self.relay_text(target, t);
                }
                match setting {
                    Setting::HeartbeatIntervalSecs(secs) => {
                        self.heartbeat_secs = if secs > 0 {
                            Some(secs as u64)
                        } else {
                            None
                        };
                        let ack = Frame::Ack { origin: self.own_addr, commander, setting };
                        out.push(text_effect(src, ack.encode(), Purpose::Answer));
                        out.push(event_effect(StatusEvent::CmdApplied { commander, setting }));
                        assert(views(out@) =~= on_frame(old(self)@, src, f@, t@).1);
                        out
                    },
                    _ => out,
                }
            },
            Frame::Ack { origin, commander, setting } => {
                if commander != self.own_addr {
                    return self.relay_text(commander, t);
                }
                let left = confirm(&self.commands, origin, setting);
                let fewer: bool = left.len() < self.commands.len();
                self.commands = left;
                if fewer {
                    out.push(event_effect(StatusEvent::CmdOk { target: origin, setting }));
                }
                assert(views(out@) =~= on_frame(old(self)@, src, f@, t@).1);
                out
            },
            Frame::VersionReport { origin, version } => {
                let ack = Frame::ConfigAck { target: origin };
                out.push(Effect::NodeVersion { node: origin, version });
                out.push(text_effect(origin, ack.encode(), Purpose::Answer));
                assert(views(out@) =~= on_frame(old(self)@, src, f@, t@).1);
                out
            },
            _ => out,
        }
    }

    /// Takes the acknowledgement of a punch.
    fn take_punch_ack(
        &mut self,
        src: u16,
        node: u16,
        card_id: u32,
        bytes: &[u8],
        t: &str,
    ) -> (r: Vec<Effect>)
        ensures
            (final(self)@, views(r@)) == on_punch_ack(
                old(self)@,
                src,
                node,
                card_id,
                bytes@,
                t@,
            ),
    {
        let mut out: Vec<Effect> = Vec::new();
        assert(views(out@) =~= Seq::empty());
        if node != self.own_addr {
            if self.relay {
                let mut copy: Vec<u8> = Vec::new();
                copy.extend_from_slice(bytes);
                assert(copy@ =~= bytes@);
                out.push(
                    Effect::Send {
                        dest: node,
                        bytes: copy,
                        shown: t.to_owned(),
                        purpose: Purpose::Payload,
                    },
                );
            }
            assert(views(out@) =~= on_punch_ack(self@, src, node, card_id, bytes@, t@).1);
            return out;
        }
        match self.punch.take() {
            Some(p) => {
                if p.card_id != card_id {
                    self.punch = Some(p);
                    return out;
                }
                let mut i: usize = 0;
                let ghost all = markings(p.row_ids@);
                while i < p.row_ids.len()
                    invariant
                        i <= p.row_ids@.len(),
                        all == markings(p.row_ids@),
                        views(out@) == all.take(i as int),
                    decreases p.row_ids@.len() - i,
                {
                    let ghost before = out@;
                    out.push(Effect::MarkSent(p.row_ids[i]));
                    assert(views(out@) =~= views(before).push(all[i as int]));
                    i += 1;
                    assert(all.take(i as int) =~= all.take(i - 1).push(all[i - 1]));
                }
                assert(all.take(all.len() as int) =~= all);
                let ghost before = out@;
                out.push(event_effect(StatusEvent::PunchAckOk { card_id, acked_by: src }));
                assert(views(out@) =~= views(before).push(out@[out@.len() - 1]@));
                out
            },
            None => out,
        }
    }

    /// Takes a punch from `origin` to `dest`.
    fn take_punch(
        &mut self,
        src: u16,
        rssi: Option<i16>,
        origin: u16,
        dest: u16,
        readout: CardReadout,
        t: &str,
    ) -> (r: Vec<Effect>)
        ensures
            (final(self)@, views(r@)) == on_punch(
                old(self)@,
                src,
                rssi,
                origin,
                dest,
                readout@,
                t@,
            ),
    {
        if dest != self.own_addr {
            return self.relay_text(self.dest, t);
        }
        let mut out: Vec<Effect> = Vec::new();
        let mut source: String = String::new();
        decimal::push_dec(&mut source, origin as u64);
        assert(source@ =~= decimal::dec(origin as nat));
        out.push(Effect::NodePunch { node: origin, rssi });
        out.push(event_effect(StatusEvent::PunchRx { origin, card_id: readout.card_id }));
        let ghost noted = views(out@);
        assert(noted =~= seq![
            EffectView::NodePunch { node: origin, rssi },
            log_event(status::StatusView::PunchRx { origin, card_id: readout.card_id }),
        ]);
        push_recordings(&mut out, &readout, source.as_str());
        let ghost before = out@;
        let ack = node_protocol::encode_punch_ack(origin, readout.card_id);
        out.push(text_effect(src, ack, Purpose::Answer));
        assert(views(out@) =~= views(before).push(out@[out@.len() - 1]@));
        assert(views(out@) =~= on_punch(old(self)@, src, rssi, origin, dest, readout@, t@).1);
        out
    }

    /// Takes a received packet.
    pub fn received(&mut self, src: u16, rssi: Option<i16>, payload: &[u8]) -> (r: Vec<Effect>)
        ensures
            (final(self)@, views(r@)) == on_packet(old(self)@, src, rssi, payload@),
    {
        let t = text::from_utf8_lossy(payload);
        let mut out = if let Some(hb) = parse_packed_heartbeat(payload) {
            heartbeat_effects(src, hb)
        } else if let Some((node, card_id)) = parse_punch_ack(payload) {
            self.take_punch_ack(src, node, card_id, payload, t.as_str())
        } else {
            self.received_text(src, rssi, t.as_str())
        };
        let ghost before = out@;
        out.push(Effect::Log(encode_rx_line(src, rssi, t.as_str())));
        assert(views(out@) =~= views(before).push(out@[out@.len() - 1]@));
        out
    }

    /// Takes a received text.
    pub fn received_text(&mut self, src: u16, rssi: Option<i16>, t: &str) -> (r: Vec<Effect>)
        ensures
            (final(self)@, views(r@)) == on_text(old(self)@, src, rssi, t@),
    {
        if let Some((origin, dest, readout)) = CardReadout::parse_addressed_payload(t) {
            return self.take_punch(src, rssi, origin, dest, readout, t);
        }
        if let Some(f) = Frame::parse(t) {
            return self.take_frame(src, f, t);
        }
        if let Some((node, card_id)) = node_protocol::parse_punch_ack(t) {
            return self.take_punch_ack(src, node, card_id, t.as_bytes(), t);
        }
        if let Some(hb) = parse_heartbeat(t) {
            return heartbeat_effects(src, hb);
        }
        let out: Vec<Effect> = Vec::new();
        assert(views(out@) =~= Seq::empty());
        out
    }

    /// The log line of a failed look for a packet.
    pub fn receive_failed(&self, error: &str) -> (r: String)
        ensures
            r@ == (status::StatusView::Error("RX: "@ + error@)).line(),
    {
        failure("RX: ", error)
    }
}

/// Takes a heartbeat.
fn heartbeat_effects(src: u16, hb: Heartbeat) -> (r: Vec<Effect>)
    ensures
        views(r@) == on_heartbeat(src, hb),
{
    let mut out: Vec<Effect> = Vec::new();
    out.push(Effect::NodeHeartbeat { node: src, battery: hb.battery, si_present: hb.si_present });
    out.push(
        event_effect(
            StatusEvent::HeartbeatRx {
                node: src,
                battery: hb.battery,
                si_present: hb.si_present,
            },
        ),
    );
    assert(views(out@) =~= on_heartbeat(src, hb));
    out
}

/// Whether a list holds a number.
fn contains(v: &Vec<i64>, id: i64) -> (r: bool)
    ensures
        r == v@.contains(id),
{
    let mut i: usize = 0;
    while i < v.len()
        invariant
            i <= v@.len(),
            forall|j: int| 0 <= j < i ==> v@[j] != id,
        decreases v@.len() - i,
    {
        if v[i] == id {
            return true;
        }
        i += 1;
    }
    false
}

/// The commands without the one that was confirmed.
fn confirm(cmds: &Vec<PendingCommand>, target: u16, setting: Setting) -> (r: Vec<PendingCommand>)
    ensures
        r@ == unconfirmed(cmds@, target, setting),
{
    let mut out: Vec<PendingCommand> = Vec::new();
    let mut i: usize = 0;
    assert(out@ =~= Seq::empty());
    while i < cmds.len()
        invariant
            i <= cmds@.len(),
            out@ == unconfirmed(cmds@.take(i as int), target, setting),
        decreases cmds@.len() - i,
    {
        assert(cmds@.take(i + 1).drop_last() =~= cmds@.take(i as int));
        let c: PendingCommand = cmds[i];
        if !(c.target == target && c.setting == setting) {
            out.push(c);
        }
        i += 1;
    }
    assert(cmds@.take(cmds@.len() as int) =~= cmds@);
    out
}

/// A punch is recorded from the radio only where it was addressed to this
/// daemon, whoever else hears it.
pub proof fn law_only_own_punches_are_taken(
    d: DaemonView,
    src: u16,
    rssi: Option<i16>,
    bytes: Seq<u8>,
)
    ensures
        (exists|i: int|
            0 <= i < on_packet(d, src, rssi, bytes).1.len() && #[trigger] on_packet(
                d,
                src,
                rssi,
                bytes,
            ).1[i] is Record) ==> (sportident::parsed_addressed_payload(text::shown(bytes)) matches Some(
            (_, dest, _),
        ) && dest == d.own_addr),
{
    let all = on_packet(d, src, rssi, bytes).1;
    if exists|i: int| 0 <= i < all.len() && #[trigger] all[i] is Record {
        let i = choose|i: int| 0 <= i < all.len() && #[trigger] all[i] is Record;
        let t = text::shown(bytes);
        let inner = on_bytes(d, src, rssi, bytes).1;
        assert(all[i] == inner[i]);
        if packed(bytes) {
            assert(inner[i] !is Record);
        } else if sportident::parsed_addressed_payload(t) is None {
            if let Some(f) = protocol::parsed_frame(t) {
                assert(inner[i] !is Record);
            } else if let Some((node, card_id)) = node_protocol::parsed_punch_ack_text(t) {
                assert(inner[i] !is Record);
            }
        }
    }
}

/// A daemon that is no relay passes nothing on: all that it sends in answer to
/// a packet is an answer.
pub proof fn law_without_relay_nothing_is_passed_on(
    d: DaemonView,
    src: u16,
    rssi: Option<i16>,
    bytes: Seq<u8>,
)
    requires
        !d.relay,
    ensures
        forall|i: int|
            0 <= i < on_packet(d, src, rssi, bytes).1.len() ==> (#[trigger] on_packet(
                d,
                src,
                rssi,
                bytes,
            ).1[i] matches EffectView::Send { purpose, .. } ==> purpose == Purpose::Answer),
{
    let all = on_packet(d, src, rssi, bytes).1;
    let inner = on_bytes(d, src, rssi, bytes).1;
    assert forall|i: int| 0 <= i < all.len() implies (#[trigger] all[i] matches EffectView::Send {
        purpose,
        ..
    } ==> purpose == Purpose::Answer) by {
        if i < inner.len() {
            assert(all[i] == inner[i]);
        }
    }
}

/// The first characters of the names that a received text can have.
proof fn lemma_names()
    ensures
        "PUNCH "@.len() == 6 && "PUNCH "@[0] == 'P' && "PUNCH "@[1] == 'U',
        "PACK "@.len() == 5 && "PACK "@[0] == 'P' && "PACK "@[1] == 'A',
        "CMD "@.len() == 4 && "CMD "@[0] == 'C',
        "ACK "@.len() == 4 && "ACK "@[0] == 'A',
        "VQUERY "@.len() == 7 && "VQUERY "@[0] == 'V',
        "VERSION "@.len() == 8 && "VERSION "@[0] == 'V',
        "CACK "@.len() == 5 && "CACK "@[0] == 'C',
{
    reveal_strlit("PUNCH ");
    reveal_strlit("PACK ");
    reveal_strlit("CMD ");
    reveal_strlit("ACK ");
    reveal_strlit("VQUERY ");
    reveal_strlit("VERSION ");
    reveal_strlit("CACK ");
}

/// A frame is not taken for a punch.
proof fn lemma_frame_is_no_punch(f: protocol::FrameView)
    ensures
        sportident::parsed_addressed_payload(f.wire()) is None,
{
    lemma_names();
    text::lemma_strip_none(f.wire(), "PUNCH "@, 0);
}

/// An acknowledgement is taken for nothing else.
proof fn lemma_ack_is_an_ack(node: u16, card_id: u32)
    ensures
        sportident::parsed_addressed_payload(node_protocol::punch_ack_text(node, card_id)) is None,
        protocol::parsed_frame(node_protocol::punch_ack_text(node, card_id)) is None,
        node_protocol::parsed_punch_ack_text(node_protocol::punch_ack_text(node, card_id)) == Some(
            (node, card_id),
        ),
{
    lemma_names();
    let t = node_protocol::punch_ack_text(node, card_id);
    text::lemma_strip_none(t, "PUNCH "@, 1);
    text::lemma_strip_none(t, "CMD "@, 0);
    text::lemma_strip_none(t, "ACK "@, 0);
    text::lemma_strip_none(t, "VQUERY "@, 0);
    text::lemma_strip_none(t, "VERSION "@, 0);
    text::lemma_strip_none(t, "CACK "@, 0);
    node_protocol::law_punch_ack_text_round_trip(node, card_id);
}

/// A text that begins with a printable character is not taken for a packed
/// frame.
pub proof fn law_printable_text_is_not_packed(t: Seq<char>)
    requires
        t.len() > 0,
        ' ' <= t[0] <= '~',
    ensures
        !packed(vstd::utf8::encode_utf8(t)),
{
    let x: u32 = t[0] as u32;
    assert((x & 0x7F) as u8 == x as u8) by (bit_vector)
        requires
            x <= 0x7F,
    ;
    assert(vstd::utf8::encode_scalar(x) =~= seq![x as u8]);
    assert(vstd::utf8::encode_utf8(t)[0] == x as u8);
}

/// A text that was sent as its bytes is received as that text, unless these
/// bytes are a packed frame.
pub proof fn law_text_is_received_as_sent(d: DaemonView, src: u16, rssi: Option<i16>, t: Seq<char>)
    requires
        !packed(vstd::utf8::encode_utf8(t)),
    ensures
        on_packet(d, src, rssi, vstd::utf8::encode_utf8(t)) == (
            on_text(d, src, rssi, t).0,
            on_text(d, src, rssi, t).1.push(EffectView::Log(radio::rx_line(src, rssi, t))),
        ),
{
    vstd::utf8::encode_utf8_valid_utf8(t);
    vstd::utf8::encode_utf8_decode_utf8(t);
}

/// A batch that one daemon sends to another is recorded there, punch by punch,
/// and the answer ends the sender's waiting and marks every row of the batch as
/// delivered.
pub proof fn law_punch_exchange(
    sender: DaemonView,
    receiver: DaemonView,
    p: PendingView,
    readout: sportident::ReadoutView,
    rssi: Option<i16>,
    back: Option<i16>,
)
    requires
        readout.card_id == p.card_id,
        p.payload == sportident::addressed_payload(
            sender.own_addr,
            receiver.own_addr,
            readout,
        ),
        sender.punch == Some(p),
    ensures
        ({
            let heard = on_text(receiver, sender.own_addr, rssi, p.payload).1;
            let answer = node_protocol::punch_ack_text(sender.own_addr, p.card_id);
            let after = on_text(sender, receiver.own_addr, back, answer);
            &&& heard.subrange(2, heard.len() - 1) == recordings(
                readout.card_id,
                readout.punches,
                decimal::dec(sender.own_addr as nat),
            )
            &&& heard.last() == send_text(sender.own_addr, answer, Purpose::Answer)
            &&& after.0 == (DaemonView { punch: None, ..sender })
            &&& after.1.drop_last() == markings(p.row_ids)
        }),
{
    sportident::law_addressed_payload_round_trip(sender.own_addr, receiver.own_addr, readout);
    lemma_ack_is_an_ack(sender.own_addr, p.card_id);
    let heard = on_text(receiver, sender.own_addr, rssi, p.payload).1;
    let answer = node_protocol::punch_ack_text(sender.own_addr, p.card_id);
    let after = on_text(sender, receiver.own_addr, back, answer);
    assert(heard.subrange(2, heard.len() - 1) =~= recordings(
        readout.card_id,
        readout.punches,
        decimal::dec(sender.own_addr as nat),
    ));
    assert(after.1.drop_last() =~= markings(p.row_ids));
}

/// A confirmed command is not among those that wait.
proof fn lemma_unconfirmed(cmds: Seq<PendingCommand>, target: u16, setting: Setting)
    ensures
        unconfirmed(cmds, target, setting).len() <= cmds.len(),
        forall|i: int|
            0 <= i < unconfirmed(cmds, target, setting).len() ==> {
                let c = #[trigger] unconfirmed(cmds, target, setting)[i];
                c.target != target || c.setting != setting
            },
        (exists|i: int|
            0 <= i < cmds.len() && (#[trigger] cmds[i]).target == target && cmds[i].setting
                == setting) ==> unconfirmed(cmds, target, setting).len() < cmds.len(),
    decreases cmds.len(),
{
    if cmds.len() > 0 {
        let front = cmds.drop_last();
        lemma_unconfirmed(front, target, setting);
        if exists|i: int|
            0 <= i < cmds.len() && (#[trigger] cmds[i]).target == target && cmds[i].setting
                == setting {
            let i = choose|i: int|
                0 <= i < cmds.len() && (#[trigger] cmds[i]).target == target && cmds[i].setting
                    == setting;
            if i < front.len() {
                assert(front[i] == cmds[i]);
            }
        }
    }
}

/// A heartbeat interval that one daemon commands another is taken over there,
/// and the answer ends the waiting for it: it is logged as confirmed and not
/// sent again.
pub proof fn law_command_exchange(
    sender: DaemonView,
    target: DaemonView,
    secs: u32,
    k: int,
    rssi: Option<i16>,
    back: Option<i16>,
)
    requires
        0 <= k < sender.commands.len(),
        sender.commands[k].target == target.own_addr,
        sender.commands[k].setting == Setting::HeartbeatIntervalSecs(secs),
    ensures
        ({
            let setting = Setting::HeartbeatIntervalSecs(secs);
            let order = (protocol::FrameView::Command {
                target: target.own_addr,
                commander: sender.own_addr,
                setting,
            }).wire();
            let answer = (protocol::FrameView::Ack {
                origin: target.own_addr,
                commander: sender.own_addr,
                setting,
            }).wire();
            let heard = on_text(target, sender.own_addr, rssi, order);
            let after = on_text(sender, target.own_addr, back, answer);
            &&& heard.0 == (DaemonView { heartbeat_secs: period(secs as u64), ..target })
            &&& heard.1[0] == send_text(sender.own_addr, answer, Purpose::Answer)
            &&& after.1 == seq![
                log_event(status::StatusView::CmdOk { target: target.own_addr, setting }),
            ]
            &&& forall|i: int|
                0 <= i < after.0.commands.len() ==> (#[trigger] after.0.commands[i]).target
                    != target.own_addr || after.0.commands[i].setting != setting
        }),
{
    let setting = Setting::HeartbeatIntervalSecs(secs);
    let order = protocol::FrameView::Command {
        target: target.own_addr,
        commander: sender.own_addr,
        setting,
    };
    let answer = protocol::FrameView::Ack {
        origin: target.own_addr,
        commander: sender.own_addr,
        setting,
    };
    lemma_frame_is_no_punch(order);
    lemma_frame_is_no_punch(answer);
    protocol::law_frame_round_trip(order);
    protocol::law_frame_round_trip(answer);
    assert(sender.commands[k].target == target.own_addr && sender.commands[k].setting == setting);
    lemma_unconfirmed(sender.commands, target.own_addr, setting);
}

/// No command is sent more often than allowed, and one that was sent for the
/// last time is given up at the next overdue look.
pub proof fn law_commands_are_given_up(d: DaemonView, cmds: Seq<PendingCommand>, now: u64)
    requires
        forall|i: int| 0 <= i < cmds.len() ==> (#[trigger] cmds[i]).attempts <= CMD_MAX_ATTEMPTS,
    ensures
        forall|i: int|
            0 <= i < retried(d, cmds, now).0.len() ==> (#[trigger] retried(
                d,
                cmds,
                now,
            ).0[i]).attempts <= CMD_MAX_ATTEMPTS,
        forall|i: int|
            0 <= i < retried(d, cmds, now).0.len() ==> elapsed(
                now,
                (#[trigger] retried(d, cmds, now).0[i]).sent_at,
            ) < CMD_RETRY_INTERVAL_MS,
        retried(d, cmds, now).0.len() <= cmds.len(),
    decreases cmds.len(),
{
    if cmds.len() > 0 {
        law_commands_are_given_up(d, cmds.drop_last(), now);
    }
}

/// A packed acknowledgement of the punch that waits ends the waiting and marks
/// every row of the batch as delivered, as one that comes as a text does.
pub proof fn law_packed_ack_ends_the_waiting(
    d: DaemonView,
    p: PendingView,
    src: u16,
    rssi: Option<i16>,
)
    requires
        d.punch == Some(p),
    ensures
        on_bytes(d, src, rssi, protocol::punch_ack(d.own_addr, p.card_id)) == on_text(
            d,
            src,
            rssi,
            node_protocol::punch_ack_text(d.own_addr, p.card_id),
        ),
        on_bytes(d, src, rssi, protocol::punch_ack(d.own_addr, p.card_id)) == (
            (DaemonView { punch: None, ..d }),
            markings(p.row_ids).push(
                log_event(
                    status::StatusView::PunchAckOk { card_id: p.card_id, acked_by: src },
                ),
            ),
        ),
{
    protocol::law_punch_ack_round_trip(d.own_addr, p.card_id, Seq::empty());
    lemma_ack_is_an_ack(d.own_addr, p.card_id);
}

/// A punch for this daemon is booked to the node that read the card, whoever
/// passed it on: every record names the origin as its source, the records are
/// the punches of the card in their order, and no others. Who passed it on gets
/// the acknowledgement, which names the origin and the card.
pub proof fn law_punch_is_booked_to_its_reader(
    d: DaemonView,
    src: u16,
    rssi: Option<i16>,
    t: Seq<char>,
    origin: u16,
    readout: sportident::ReadoutView,
)
    requires
        sportident::parsed_addressed_payload(t) == Some((origin, d.own_addr, readout)),
    ensures
        ({
            let (after, effects) = on_text(d, src, rssi, t);
            let n = readout.punches.len() as int;
            &&& after == d
            &&& forall|i: int|
                0 <= i < effects.len() ==> (#[trigger] effects[i] matches EffectView::Record {
                    card_id,
                    source,
                    ..
                } ==> card_id == readout.card_id && source == decimal::dec(origin as nat)
                    && decimal::as_u16(source) == Some(origin))
            &&& forall|i: int|
                0 <= i < effects.len() ==> (#[trigger] effects[i] matches EffectView::NodePunch {
                    node,
                    rssi: strength,
                } ==> node == origin && strength == rssi)
            &&& forall|i: int|
                0 <= i < effects.len() ==> (#[trigger] effects[i] matches EffectView::Send {
                    dest,
                    bytes,
                    shown,
                    ..
                } ==> dest == src && bytes == vstd::utf8::encode_utf8(shown)
                    && node_protocol::parsed_punch_ack_text(shown) == Some(
                    (origin, readout.card_id),
                ))
            &&& effects.len() == n + 3
            &&& effects[0] is NodePunch
            &&& effects[n + 2] is Send
            &&& forall|i: int|
                0 <= i < n ==> {
                    let p = readout.punches[i];
                    &&& #[trigger] effects[i + 2] matches EffectView::Record {
                        station,
                        time_s,
                        ..
                    }
                    &&& station == p.station
                    &&& time_s == p.time_s
                }
        }),
{
    decimal::lemma_parse_dec(origin as nat, u16::MAX as nat);
    node_protocol::law_punch_ack_text_round_trip(origin, readout.card_id);
    lemma_names();
}

/// What is recorded of a punch does not depend on who passed it on, nor on how
/// well it was heard.
pub proof fn law_records_do_not_depend_on_the_path(
    d: DaemonView,
    a: u16,
    b: u16,
    rssi: Option<i16>,
    other: Option<i16>,
    t: Seq<char>,
    i: int,
)
    requires
        0 <= i < on_text(d, a, rssi, t).1.len(),
        on_text(d, a, rssi, t).1[i] is Record,
    ensures
        i < on_text(d, b, other, t).1.len(),
        on_text(d, b, other, t).1[i] == on_text(d, a, rssi, t).1[i],
{
}

/// A card that a node read is recorded at the base station under that node, over
/// any number of relays: whoever hands the text on.
pub proof fn law_relayed_card_is_recorded_under_its_node(
    d: DaemonView,
    src: u16,
    rssi: Option<i16>,
    node: u16,
    readout: sportident::ReadoutView,
    i: int,
)
    requires
        0 <= i < readout.punches.len(),
    ensures
        ({
            let t = sportident::addressed_payload(node, d.own_addr, readout);
            let effects = on_packet(d, src, rssi, vstd::utf8::encode_utf8(t)).1;
            effects.contains(
                EffectView::Record {
                    card_id: readout.card_id,
                    station: readout.punches[i].station,
                    time_s: readout.punches[i].time_s,
                    source: decimal::dec(node as nat),
                },
            )
        }),
{
    let t = sportident::addressed_payload(node, d.own_addr, readout);
    lemma_names();
    assert(t[0] == 'P');
    law_printable_text_is_not_packed(t);
    law_text_is_received_as_sent(d, src, rssi, t);
    sportident::law_addressed_payload_round_trip(node, d.own_addr, readout);
    let effects = on_packet(d, src, rssi, vstd::utf8::encode_utf8(t)).1;
    assert(effects[i + 2] == EffectView::Record {
        card_id: readout.card_id,
        station: readout.punches[i].station,
        time_s: readout.punches[i].time_s,
        source: decimal::dec(node as nat),
    });
}

/// Whether the only thing done is to send a text to a node, as it is.
pub open spec fn handed_on(effects: Seq<EffectView>, dest: u16, t: Seq<char>) -> bool {
    effects.len() == 1 && (effects[0] matches EffectView::Send { dest: to, bytes, shown, .. } && to
        == dest && bytes == vstd::utf8::encode_utf8(t) && shown == t)
}

/// A relay hands on what is meant for others, unchanged and once: a punch to
/// where it sends its own, a command to its target, the confirmation of one to
/// the commander, the acknowledgement of a punch to the node that read the card.
/// Its own state stays, and it answers nothing.
pub proof fn law_relay_hands_on(d: DaemonView, src: u16, rssi: Option<i16>, t: Seq<char>)
    requires
        d.relay,
    ensures
        sportident::parsed_addressed_payload(t) matches Some((_, dest, _)) && dest != d.own_addr
            ==> handed_on(on_text(d, src, rssi, t).1, d.dest, t) && on_text(d, src, rssi, t).0 == d,
        sportident::parsed_addressed_payload(t) is None ==> {
            &&& (protocol::parsed_frame(t) matches Some(
                protocol::FrameView::Command { target, .. },
            ) ==> (target != d.own_addr ==> handed_on(on_text(d, src, rssi, t).1, target, t)
                && on_text(d, src, rssi, t).0 == d))
            &&& (protocol::parsed_frame(t) matches Some(
                protocol::FrameView::Ack { commander, .. },
            ) ==> (commander != d.own_addr ==> handed_on(
                on_text(d, src, rssi, t).1,
                commander,
                t,
            ) && on_text(d, src, rssi, t).0 == d))
        },
        sportident::parsed_addressed_payload(t) is None && protocol::parsed_frame(t) is None ==> (
        node_protocol::parsed_punch_ack_text(t) matches Some((node, _)) ==> (node != d.own_addr
            ==> handed_on(on_text(d, src, rssi, t).1, node, t) && on_text(d, src, rssi, t).0 == d)),
{
}

/// A command for this daemon is taken over, and confirmed to whoever handed it
/// in by a frame that names this daemon, the commander and the setting.
pub proof fn law_command_is_taken_and_confirmed(
    d: DaemonView,
    src: u16,
    rssi: Option<i16>,
    t: Seq<char>,
    commander: u16,
    secs: u32,
)
    requires
        sportident::parsed_addressed_payload(t) is None,
        protocol::parsed_frame(t) == Some(
            protocol::FrameView::Command {
                target: d.own_addr,
                commander,
                setting: Setting::HeartbeatIntervalSecs(secs),
            },
        ),
    ensures
        ({
            let (after, effects) = on_text(d, src, rssi, t);
            &&& after == (DaemonView { heartbeat_secs: after.heartbeat_secs, ..d })
            &&& secs == 0 <==> after.heartbeat_secs is None
            &&& secs > 0 ==> after.heartbeat_secs == Some(secs as u64)
            &&& effects.len() == 2
            &&& effects[0] matches EffectView::Send { dest, bytes, shown, .. }
            &&& dest == src
            &&& bytes == vstd::utf8::encode_utf8(shown)
            &&& protocol::parsed_frame(shown) == Some(
                protocol::FrameView::Ack {
                    origin: d.own_addr,
                    commander,
                    setting: Setting::HeartbeatIntervalSecs(secs),
                },
            )
        }),
{
    protocol::law_frame_round_trip(
        protocol::FrameView::Ack {
            origin: d.own_addr,
            commander,
            setting: Setting::HeartbeatIntervalSecs(secs),
        },
    );
}

/// A version report is noted for the node that it comes from, and that node is
/// told that it was heard.
pub proof fn law_version_is_noted_and_answered(
    d: DaemonView,
    src: u16,
    rssi: Option<i16>,
    t: Seq<char>,
    origin: u16,
    version: Seq<char>,
)
    requires
        sportident::parsed_addressed_payload(t) is None,
        protocol::parsed_frame(t) == Some(protocol::FrameView::VersionReport { origin, version }),
    ensures
        ({
            let (after, effects) = on_text(d, src, rssi, t);
            &&& after == d
            &&& effects.len() == 2
            &&& effects[0] == (EffectView::NodeVersion { node: origin, version })
            &&& effects[1] matches EffectView::Send { dest, bytes, shown, .. }
            &&& dest == origin
            &&& bytes == vstd::utf8::encode_utf8(shown)
            &&& node_protocol::parsed_config_ack(shown) == Some(origin)
        }),
{
    node_protocol::law_node_reads_base_station(origin);
}

/// A heartbeat is noted for the node that it is heard from, with what it tells.
pub proof fn law_heartbeat_is_noted_for_its_sender(
    d: DaemonView,
    src: u16,
    rssi: Option<i16>,
    bytes: Seq<u8>,
    hb: Heartbeat,
)
    requires
        backend::parsed_packed_heartbeat(bytes) == Some(hb) || (!packed(bytes)
            && sportident::parsed_addressed_payload(text::shown(bytes)) is None
            && protocol::parsed_frame(text::shown(bytes)) is None
            && node_protocol::parsed_punch_ack_text(text::shown(bytes)) is None
            && backend::parsed_heartbeat(text::shown(bytes)) == Some(hb)),
    ensures
        on_packet(d, src, rssi, bytes).0 == d,
        on_packet(d, src, rssi, bytes).1[0] == (EffectView::NodeHeartbeat {
            node: src,
            battery: hb.battery,
            si_present: hb.si_present,
        }),
        forall|i: int|
            0 <= i < on_packet(d, src, rssi, bytes).1.len() ==> #[trigger] on_packet(
                d,
                src,
                rssi,
                bytes,
            ).1[i] !is Send,
{
}

/// An acknowledgement that is not for the batch that waits, of another node or
/// another card, changes nothing and marks nothing.
pub proof fn law_other_acks_mark_nothing(
    d: DaemonView,
    src: u16,
    rssi: Option<i16>,
    t: Seq<char>,
    node: u16,
    card_id: u32,
)
    requires
        sportident::parsed_addressed_payload(t) is None,
        protocol::parsed_frame(t) is None,
        node_protocol::parsed_punch_ack_text(t) == Some((node, card_id)),
        node != d.own_addr || !(d.punch matches Some(p) && p.card_id == card_id),
    ensures
        on_text(d, src, rssi, t).0 == d,
        forall|i: int|
            0 <= i < on_text(d, src, rssi, t).1.len() ==> #[trigger] on_text(
                d,
                src,
                rssi,
                t,
            ).1[i] !is MarkSent,
{
}

/// A confirmation takes out the command that it names, and leaves every other
/// one waiting.
pub proof fn law_confirmation_leaves_the_others(
    cmds: Seq<PendingCommand>,
    target: u16,
    setting: Setting,
    k: int,
)
    requires
        0 <= k < cmds.len(),
    ensures
        unconfirmed(cmds, target, setting).contains(cmds[k]) <==> cmds[k].target != target
            || cmds[k].setting != setting,
    decreases cmds.len(),
{
    lemma_unconfirmed(cmds, target, setting);
    let all = unconfirmed(cmds, target, setting);
    let front = unconfirmed(cmds.drop_last(), target, setting);
    if cmds[k].target != target || cmds[k].setting != setting {
        if k < cmds.len() - 1 {
            law_confirmation_leaves_the_others(cmds.drop_last(), target, setting, k);
            let i = choose|i: int| 0 <= i < front.len() && front[i] == cmds.drop_last()[k];
            assert(all[i] == cmds[k]);
        } else {
            assert(all.last() == cmds[k]);
        }
    }
}

/// A look at the commands sends again exactly those that have waited for five
/// seconds and were sent fewer than five times, to where the daemon sends, as
/// they were given; one that was sent five times is given up, with an error that
/// names it; one that has not waited so long is left as it is.
pub proof fn law_overdue_command_is_sent_again(
    d: DaemonView,
    cmds: Seq<PendingCommand>,
    now: u64,
    k: int,
)
    requires
        0 <= k < cmds.len(),
    ensures
        ({
            let c = cmds[k];
            let (kept, effects) = retried(d, cmds, now);
            let due = now >= c.sent_at + 5_000;
            let again = send_text(
                d.dest,
                (protocol::FrameView::Command {
                    target: c.target,
                    commander: d.own_addr,
                    setting: c.setting,
                }).wire(),
                Purpose::Command,
            );
            &&& !due ==> kept.contains(c)
            &&& due && c.attempts < 5 ==> effects.contains(again) && kept.contains(
                PendingCommand { attempts: (c.attempts + 1) as u32, sent_at: now, ..c },
            )
            &&& due && c.attempts >= 5 ==> effects.contains(
                log_event(status::StatusView::CmdErr { target: c.target, setting: c.setting }),
            )
        }),
    decreases cmds.len(),
{
    let c = cmds[k];
    let (kept, effects) = retried(d, cmds, now);
    if k < cmds.len() - 1 {
        let (k0, e0) = retried(d, cmds.drop_last(), now);
        law_overdue_command_is_sent_again(d, cmds.drop_last(), now, k);
        assert(cmds.drop_last()[k] == c);
        assert forall|x: PendingCommand| k0.contains(x) implies kept.contains(x) by {
            let i = choose|i: int| 0 <= i < k0.len() && k0[i] == x;
            assert(kept[i] == x);
        }
        assert forall|x: EffectView| e0.contains(x) implies effects.contains(x) by {
            let i = choose|i: int| 0 <= i < e0.len() && e0[i] == x;
            assert(effects[i] == x);
        }
    } else {
        if kept.len() > 0 {
            assert(kept.contains(kept.last())) by {
                assert(kept[kept.len() - 1] == kept.last());
            }
        }
        if effects.len() > 0 {
            assert(effects.contains(effects.last())) by {
                assert(effects[effects.len() - 1] == effects.last());
            }
        }
    }
}

/// A look at the commands does nothing where none has waited for five seconds.
pub proof fn law_waiting_commands_are_left_alone(
    d: DaemonView,
    cmds: Seq<PendingCommand>,
    now: u64,
)
    requires
        forall|i: int|
            0 <= i < cmds.len() ==> now < (#[trigger] cmds[i]).sent_at + 5_000,
    ensures
        retried(d, cmds, now).0 == cmds,
        retried(d, cmds, now).1.len() == 0,
    decreases cmds.len(),
{
    if cmds.len() > 0 {
        assert(cmds[cmds.len() - 1] == cmds.last());
        assert forall|i: int| 0 <= i < cmds.drop_last().len() implies now < (
        #[trigger] cmds.drop_last()[i]).sent_at + 5_000 by {
            assert(cmds.drop_last()[i] == cmds[i]);
        }
        law_waiting_commands_are_left_alone(d, cmds.drop_last(), now);
        assert(cmds.drop_last().push(cmds.last()) =~= cmds);
    } else {
        assert(retried(d, cmds, now).0 =~= cmds);
    }
}

/// The own heartbeat is due when the interval has passed since the last one, and
/// never where it is turned off.
pub proof fn law_heartbeat_is_due_after_its_interval(d: DaemonView, now: u64)
    ensures
        d.heartbeat_secs is None ==> !heartbeat_due(d, now),
        d.heartbeat_secs matches Some(secs) ==> (secs > 0 ==> (heartbeat_due(d, now) <==> now
            >= d.last_heartbeat + 1000 * secs)),
{
}

/// A card that the own reader read is recorded punch by punch as local.
pub proof fn law_own_card_is_recorded_as_local(
    card: u32,
    punches: Seq<ControlPunch>,
    i: int,
)
    requires
        0 <= i < punches.len(),
    ensures
        recordings(card, punches, "local"@).len() == punches.len(),
        recordings(card, punches, "local"@)[i] matches EffectView::Record {
            card_id,
            station,
            time_s,
            source,
        } && card_id == card && station == punches[i].station && time_s == punches[i].time_s
            && punch_buffer::own(source),
{
}

/// A client's line that sets a node's setting sends that command to where the
/// daemon sends, names this daemon as the one that gives it, and waits for its
/// confirmation; one that asks for a version sends that question.
pub proof fn law_command_lines_are_obeyed(
    d: DaemonView,
    target: u16,
    setting: Setting,
    payload: Seq<char>,
    now: u64,
)
    ensures
        ({
            let line = "SETCFG "@ + (decimal::dec(target as nat).push(' ') + setting.wire());
            let (after, step) = obeyed(d, line, now);
            &&& after.commands == d.commands.push(
                PendingCommand { target, setting, sent_at: now, attempts: 1 },
            )
            &&& after == (DaemonView { commands: after.commands, ..d })
            &&& step matches CommandStepView::Done(e)
            &&& e.len() == 1
            &&& e[0] matches EffectView::Send { dest, bytes, shown, .. }
            &&& dest == d.dest
            &&& bytes == vstd::utf8::encode_utf8(shown)
            &&& protocol::parsed_frame(shown) == Some(
                protocol::FrameView::Command { target, commander: d.own_addr, setting },
            )
        }),
        ({
            let (after, step) = obeyed(d, "QUERYVERSION "@ + decimal::dec(target as nat), now);
            &&& after == d
            &&& step matches CommandStepView::Done(e)
            &&& e.len() == 1
            &&& e[0] matches EffectView::Send { dest, shown, .. }
            &&& dest == d.dest
            &&& node_protocol::parsed_version_query(shown) == Some(target)
        }),
        ({
            let (after, step) = obeyed(d, "SEND "@ + payload, now);
            &&& after == d
            &&& step matches CommandStepView::Done(e)
            &&& e.len() == 1
            &&& e[0] matches EffectView::Send { dest, bytes, shown, .. }
            &&& dest == d.dest
            &&& shown == payload
            &&& bytes == vstd::utf8::encode_utf8(payload)
        }),
{
    reveal_strlit("SET_DEST ");
    reveal_strlit("SEND ");
    reveal_strlit("SENDBIN ");
    reveal_strlit("CMD ");
    reveal_strlit("SETCFG ");
    reveal_strlit("QUERYVERSION ");
    let a = decimal::dec(target as nat);
    let rest = a.push(' ') + setting.wire();
    let line = "SETCFG "@ + rest;
    text::lemma_strip_none(line, "SET_DEST "@, 3);
    text::lemma_strip_none(line, "SEND "@, 2);
    text::lemma_strip_none(line, "SENDBIN "@, 2);
    text::lemma_strip_none(line, "CMD "@, 0);
    text::lemma_strip("SETCFG "@, rest);
    decimal::lemma_dec_without(target as nat, ' ');
    text::lemma_head_tail(a, ' ', setting.wire());
    decimal::lemma_parse_dec(target as nat, u16::MAX as nat);
    protocol::law_setting_round_trip(setting);
    protocol::law_frame_round_trip(
        protocol::FrameView::Command { target, commander: d.own_addr, setting },
    );
    let q = "QUERYVERSION "@ + a;
    text::lemma_strip_none(q, "SET_DEST "@, 0);
    text::lemma_strip_none(q, "SEND "@, 0);
    text::lemma_strip_none(q, "SENDBIN "@, 0);
    text::lemma_strip_none(q, "CMD "@, 0);
    text::lemma_strip_none(q, "SETCFG "@, 0);
    text::lemma_strip("QUERYVERSION "@, a);
    decimal::lemma_dec_trimmed(target as nat);
    node_protocol::law_node_reads_base_station(target);
    let p = "SEND "@ + payload;
    text::lemma_strip_none(p, "SET_DEST "@, 2);
    text::lemma_strip("SEND "@, payload);
}

/// A sending is logged as what was sent and to whom, a heartbeat as a heartbeat,
/// one that failed as an error that ends with why, and an answer not at all.
pub proof fn law_sending_is_logged(
    dest: u16,
    bytes: Seq<u8>,
    shown: Seq<char>,
    m: Seq<char>,
)
    ensures
        outcome(
            EffectView::Send { dest, bytes, shown, purpose: Purpose::Payload },
            None,
        ) matches Some(l) && status::parsed_status(l) == Some(
            status::StatusView::Tx { dest, payload: shown },
        ),
        outcome(
            EffectView::Send { dest, bytes, shown, purpose: Purpose::Heartbeat },
            None,
        ) matches Some(l) && status::parsed_status(l) == Some(
            status::StatusView::Heartbeat { dest },
        ),
        outcome(
            EffectView::Send { dest, bytes, shown, purpose: Purpose::Command },
            Some(m),
        ) matches Some(l) && status::parsed_status(l) == Some(
            status::StatusView::Error("CMD: "@ + m),
        ),
        outcome(
            EffectView::Send { dest, bytes, shown, purpose: Purpose::Heartbeat },
            Some(m),
        ) matches Some(l) && status::parsed_status(l) == Some(
            status::StatusView::Error("HB: "@ + m),
        ),
        outcome(EffectView::Send { dest, bytes, shown, purpose: Purpose::Answer }, Some(m)) is None,
{
    status::law_status_line_round_trip(status::StatusView::Tx { dest, payload: shown });
    status::law_status_line_round_trip(status::StatusView::Heartbeat { dest });
    status::law_status_line_round_trip(status::StatusView::Error("CMD: "@ + m));
    status::law_status_line_round_trip(status::StatusView::Error("HB: "@ + m));
}

} // verus!
