//! The state of the terminal client.

use std::collections::{HashMap, VecDeque};
use std::time::Instant;
use vstd::prelude::*;
use crate::clock::steady_now;
use crate::decimal;

verus! {

/// Most entries of the log.
pub const MAX_LOG_ENTRIES: usize = 1000;

/// What this session knows of a node.
#[derive(Debug)]
pub struct NodeStatus {
    pub last_heartbeat: Option<Instant>,
    pub battery_pct: Option<u8>,
    pub battery_mv: Option<u16>,
    pub si_present: Option<bool>,
    /// Punches of the node since this session began.
    pub punch_count: u64,
}

impl NodeStatus {
    /// A node of which nothing is known.
    pub open spec fn unknown() -> NodeStatus {
        NodeStatus {
            last_heartbeat: None,
            battery_pct: None,
            battery_mv: None,
            si_present: None,
            punch_count: 0,
        }
    }
}

impl Default for NodeStatus {
    fn default() -> (r: NodeStatus)
        ensures
            r == NodeStatus::unknown(),
    {
        NodeStatus {
            last_heartbeat: None,
            battery_pct: None,
            battery_mv: None,
            si_present: None,
            punch_count: 0,
        }
    }
}

/// A line of the log.
#[derive(Debug)]
pub enum LogEntry {
    Rx { timestamp: String, src_addr: u16, payload: String, rssi: Option<i16> },
    Tx { timestamp: String, dest_addr: u16, payload: String },
    Heartbeat { timestamp: String, dest_addr: u16 },
    Error { timestamp: String, message: String },
    /// A card read here, with the station and time of each punch.
    SiPunch { timestamp: String, card_id: u32, punches: Vec<(u8, u32)> },
    CmdResult { timestamp: String, target: u16, message: String, ok: bool },
    TestPunchResult { timestamp: String, card_id: u32, station: u8, time_s: u32 },
    ClearPunchResult { timestamp: String, message: String },
    Info { timestamp: String, message: String },
    PunchAcked { timestamp: String, card_id: u32, acked_by: u16 },
    CmdApplied { timestamp: String, commander: u16, message: String },
}

/// A line of the log as a value.
pub enum EntryView {
    Rx { timestamp: Seq<char>, src_addr: u16, payload: Seq<char>, rssi: Option<i16> },
    Tx { timestamp: Seq<char>, dest_addr: u16, payload: Seq<char> },
    Heartbeat { timestamp: Seq<char>, dest_addr: u16 },
    Error { timestamp: Seq<char>, message: Seq<char> },
    SiPunch { timestamp: Seq<char>, card_id: u32, punches: Seq<(u8, u32)> },
    CmdResult { timestamp: Seq<char>, target: u16, message: Seq<char>, ok: bool },
    TestPunchResult { timestamp: Seq<char>, card_id: u32, station: u8, time_s: u32 },
    ClearPunchResult { timestamp: Seq<char>, message: Seq<char> },
    Info { timestamp: Seq<char>, message: Seq<char> },
    PunchAcked { timestamp: Seq<char>, card_id: u32, acked_by: u16 },
    CmdApplied { timestamp: Seq<char>, commander: u16, message: Seq<char> },
}

impl View for LogEntry {
    type V = EntryView;

    open spec fn view(&self) -> EntryView {
        match *self {
            LogEntry::Rx { timestamp, src_addr, payload, rssi } => EntryView::Rx {
                timestamp: timestamp@,
                src_addr,
                payload: payload@,
                rssi,
            },
            LogEntry::Tx { timestamp, dest_addr, payload } => EntryView::Tx {
                timestamp: timestamp@,
                dest_addr,
                payload: payload@,
            },
            LogEntry::Heartbeat { timestamp, dest_addr } => EntryView::Heartbeat {
                timestamp: timestamp@,
                dest_addr,
            },
            LogEntry::Error { timestamp, message } => EntryView::Error {
                timestamp: timestamp@,
                message: message@,
            },
            LogEntry::SiPunch { timestamp, card_id, punches } => EntryView::SiPunch {
                timestamp: timestamp@,
                card_id,
                punches: punches@,
            },
            LogEntry::CmdResult { timestamp, target, message, ok } => EntryView::CmdResult {
                timestamp: timestamp@,
                target,
                message: message@,
                ok,
            },
            LogEntry::TestPunchResult { timestamp, card_id, station, time_s } =>
                EntryView::TestPunchResult { timestamp: timestamp@, card_id, station, time_s },
            LogEntry::ClearPunchResult { timestamp, message } => EntryView::ClearPunchResult {
                timestamp: timestamp@,
                message: message@,
            },
            LogEntry::Info { timestamp, message } => EntryView::Info {
                timestamp: timestamp@,
                message: message@,
            },
            LogEntry::PunchAcked { timestamp, card_id, acked_by } => EntryView::PunchAcked {
                timestamp: timestamp@,
                card_id,
                acked_by,
            },
            LogEntry::CmdApplied { timestamp, commander, message } => EntryView::CmdApplied {
                timestamp: timestamp@,
                commander,
                message: message@,
            },
        }
    }
}

/// The log as values.
pub open spec fn entries(log: Seq<LogEntry>) -> Seq<EntryView> {
    Seq::new(log.len(), |i: int| log[i]@)
}

/// The state of the terminal client.
pub struct App {
    pub log: VecDeque<LogEntry>,
    /// What was typed and not sent yet.
    pub input: String,
    pub should_quit: bool,
    pub addr: u16,
    pub dest: u16,
    /// How many entries the log is scrolled back.
    pub scroll_offset: usize,
    pub nodes: HashMap<u16, NodeStatus>,
    pub port_info: String,
}

/// What is known of a node, nothing where it was never heard of.
pub open spec fn known(nodes: Map<u16, NodeStatus>, node: u16) -> NodeStatus {
    if nodes.dom().contains(node) {
        nodes[node]
    } else {
        NodeStatus::unknown()
    }
}

/// The log with one more entry; the oldest makes room where it is full.
pub open spec fn logged(log: Seq<EntryView>, e: EntryView) -> Seq<EntryView> {
    if log.len() >= MAX_LOG_ENTRIES {
        log.skip(1).push(e)
    } else {
        log.push(e)
    }
}

/// How far the log is scrolled back with one more entry, so that the same
/// entries stay in view: further by one, but not where it follows the end or
/// the oldest entry made room.
pub open spec fn scrolled(log: Seq<EntryView>, offset: int) -> int {
    if offset > 0 && log.len() < MAX_LOG_ENTRIES {
        offset + 1
    } else {
        offset
    }
}

impl App {
    /// The log is bounded.
    pub open spec fn wf(self) -> bool {
        self.log@.len() <= MAX_LOG_ENTRIES
    }

    /// A session that just began.
    pub fn new(port_info: String, addr: u16, dest: u16) -> (r: App)
        ensures
            r.wf(),
            r.log@.len() == 0,
            r.input@ == Seq::<char>::empty(),
            !r.should_quit,
            r.addr == addr,
            r.dest == dest,
            r.scroll_offset == 0,
            r.nodes@ == Map::<u16, NodeStatus>::empty(),
            r.port_info == port_info,
    {
        let input = String::new();
        assert(input@ =~= Seq::empty());
        App {
            log: VecDeque::new(),
            input,
            should_quit: false,
            addr,
            dest,
            scroll_offset: 0,
            nodes: HashMap::new(),
            port_info,
        }
    }

    /// Takes what is known of a node out of the table.
    fn take(&mut self, node: u16) -> (r: NodeStatus)
        ensures
            r == known(old(self).nodes@, node),
            final(self).nodes@ == old(self).nodes@.remove(node),
            *final(self) == (App { nodes: final(self).nodes, ..*old(self) }),
    {
        broadcast use vstd::std_specs::hash::group_hash_axioms;

        match self.nodes.remove(&node) {
            Some(s) => s,
            None => {
                assert(old(self).nodes@.remove(node) =~= old(self).nodes@);
                NodeStatus::default()
            },
        }
    }

    /// Puts what is known of a node back.
    fn put(&mut self, node: u16, s: NodeStatus)
        ensures
            final(self).nodes@ == old(self).nodes@.insert(node, s),
            *final(self) == (App { nodes: final(self).nodes, ..*old(self) }),
    {
        broadcast use vstd::std_specs::hash::group_hash_axioms;

        self.nodes.insert(node, s);
    }

    /// Notes a heartbeat. What it does not report stays as it was.
    pub fn record_heartbeat(
        &mut self,
        node: u16,
        battery: Option<(u8, u16)>,
        si_present: Option<bool>,
    )
        ensures
            *final(self) == (App { nodes: final(self).nodes, ..*old(self) }),
            final(self).nodes@.dom().contains(node),
            final(self).nodes@ == old(self).nodes@.insert(node, final(self).nodes@[node]),
            final(self).nodes@[node].last_heartbeat is Some,
            final(self).nodes@[node] == (NodeStatus {
                last_heartbeat: final(self).nodes@[node].last_heartbeat,
                battery_pct: match battery {
                    Some((pct, _)) => Some(pct),
                    None => known(old(self).nodes@, node).battery_pct,
                },
                battery_mv: match battery {
                    Some((_, mv)) => Some(mv),
                    None => known(old(self).nodes@, node).battery_mv,
                },
                si_present: match si_present {
                    Some(p) => Some(p),
                    None => known(old(self).nodes@, node).si_present,
                },
                ..known(old(self).nodes@, node)
            }),
    {
        let mut s = self.take(node);
        s.last_heartbeat = Some(steady_now());
        if let Some((pct, mv)) = battery {
            s.battery_pct = Some(pct);
            s.battery_mv = Some(mv);
        }
        if let Some(present) = si_present {
            s.si_present = Some(present);
        }
        self.put(node, s);
        assert(self.nodes@ =~= old(self).nodes@.insert(node, s));
    }

    /// Counts a punch of a node.
    pub fn record_punch(&mut self, node: u16)
        requires
            known(old(self).nodes@, node).punch_count < u64::MAX,
        ensures
            *final(self) == (App { nodes: final(self).nodes, ..*old(self) }),
            final(self).nodes@ == old(self).nodes@.insert(
                node,
                (NodeStatus {
                    punch_count: (known(old(self).nodes@, node).punch_count + 1) as u64,
                    ..known(old(self).nodes@, node)
                }),
            ),
    {
        let mut s = self.take(node);
        s.punch_count = s.punch_count + 1;
        self.put(node, s);
        assert(self.nodes@ =~= old(self).nodes@.insert(node, s));
    }

    /// The line that tells what this session is.
    pub fn config_line(&self) -> (r: String)
        ensures
            r@ == self.port_info@ + "  addr: "@ + decimal::dec(self.addr as nat) + "  dest: "@
                + decimal::dec(self.dest as nat),
    {
        let mut out: String = String::new();
        out.push_str(self.port_info.as_str());
        out.push_str("  addr: ");
        decimal::push_dec(&mut out, self.addr as u64);
        out.push_str("  dest: ");
        decimal::push_dec(&mut out, self.dest as u64);
        assert(out@ =~= self.port_info@ + "  addr: "@ + decimal::dec(self.addr as nat)
            + "  dest: "@ + decimal::dec(self.dest as nat));
        out
    }

    /// Appends an entry to the log.
    pub fn push_log(&mut self, entry: LogEntry)
        requires
            old(self).wf(),
            old(self).scroll_offset < usize::MAX,
        ensures
            final(self).wf(),
            entries(final(self).log@) == logged(entries(old(self).log@), entry@),
            final(self).scroll_offset == scrolled(
                entries(old(self).log@),
                old(self).scroll_offset as int,
            ),
            *final(self) == (App {
                log: final(self).log,
                scroll_offset: final(self).scroll_offset,
                ..*old(self)
            }),
    {
        let at_capacity: bool = self.log.len() >= MAX_LOG_ENTRIES;
        if at_capacity {
            let _ = self.log.pop_front();
        }
        self.log.push_back(entry);
        if self.scroll_offset > 0 && !at_capacity {
            self.scroll_offset = self.scroll_offset + 1;
        }
        assert(entries(self.log@) =~= logged(entries(old(self).log@), entry@));
    }

    /// Scrolls back by one entry.
    pub fn scroll_up(&mut self)
        requires
            old(self).scroll_offset < usize::MAX,
        ensures
            *final(self) == (App {
                scroll_offset: (old(self).scroll_offset + 1) as usize,
                ..*old(self)
            }),
    {
        self.scroll_offset = self.scroll_offset + 1;
    }

    /// Scrolls forward by one entry, at most to the end.
    pub fn scroll_down(&mut self)
        ensures
            *final(self) == (App {
                scroll_offset: if old(self).scroll_offset > 0 {
                    (old(self).scroll_offset - 1) as usize
                } else {
                    0
                },
                ..*old(self)
            }),
    {
        self.scroll_offset = self.scroll_offset.saturating_sub(1);
    }
}

/// An entry that was in view at some distance from the end stays in view: with
/// one more entry in a log that is not full, a log that is scrolled back shows
/// the same entries.
pub proof fn law_scrolled_view_stays(log: Seq<EntryView>, e: EntryView, offset: int, k: int)
    requires
        0 < offset <= log.len() < MAX_LOG_ENTRIES,
        0 <= k < log.len() - offset,
    ensures
        logged(log, e)[logged(log, e).len() - scrolled(log, offset) - 1 - k] == log[log.len()
            - offset - 1 - k],
{
}

/// The log ends with the entry that was just written, keeps the thousand
/// youngest, and leaves them in their order.
pub proof fn law_log_keeps_the_youngest(log: Seq<EntryView>, e: EntryView, k: int)
    requires
        log.len() <= 1_000,
    ensures
        logged(log, e).last() == e,
        logged(log, e).len() == (if log.len() < 1_000 {
            log.len() + 1
        } else {
            1_000
        }),
        0 <= k < logged(log, e).len() - 1 ==> logged(log, e)[logged(log, e).len() - 2 - k]
            == log[log.len() - 1 - k],
{
}

/// A view that follows the end goes on following it.
pub proof fn law_following_view_follows(log: Seq<EntryView>, offset: int)
    ensures
        scrolled(log, 0) == 0,
        offset > 0 ==> scrolled(log, offset) >= offset,
{
}

} // verus!
