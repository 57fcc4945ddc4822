//! What a running daemon remembers for its dashboard: a bounded log and the
//! health of each node.

use std::collections::{HashMap, VecDeque};
use vstd::prelude::*;
use crate::clock::wall_now;

verus! {

/// Most entries of the log.
pub const LOG_CAPACITY: usize = 200;

/// A line of the log.
#[derive(Debug)]
pub struct LogEntry {
    /// Counts up by one with every line and is never used again, also when the
    /// line itself is gone.
    pub seq: u64,
    /// When it was written, in nanoseconds of the wall clock.
    pub at: u64,
    pub line: String,
}

/// What is known of a node.
#[derive(Debug)]
pub struct NodeStatus {
    /// In nanoseconds of the wall clock.
    pub last_heartbeat: Option<u64>,
    pub battery_pct: Option<u8>,
    pub battery_mv: Option<u16>,
    /// Whether a reader was connected at the last heartbeat that said so.
    pub si_present: Option<bool>,
    /// In nanoseconds of the wall clock.
    pub last_punch: Option<u64>,
    pub last_rssi: Option<i16>,
    /// The version that the node reported last.
    pub version: Option<String>,
    /// Punch packets of the node, by origin, since the start.
    pub punch_count: u64,
}

impl NodeStatus {
    /// A node of which nothing is known.
    pub open spec fn unknown() -> NodeStatus {
        NodeStatus {
            last_heartbeat: None,
            battery_pct: None,
            battery_mv: None,
            si_present: None,
            last_punch: None,
            last_rssi: None,
            version: None,
            punch_count: 0,
        }
    }
}

impl Default for NodeStatus {
    fn default() -> (r: NodeStatus)
        ensures
            r == NodeStatus::unknown(),
    {
        NodeStatus {
            last_heartbeat: None,
            battery_pct: None,
            battery_mv: None,
            si_present: None,
            last_punch: None,
            last_rssi: None,
            version: None,
            punch_count: 0,
        }
    }
}

/// The log and the nodes.
pub struct DaemonState {
    pub log: VecDeque<LogEntry>,
    pub nodes: HashMap<u16, NodeStatus>,
    /// The number of the last line.
    pub next_seq: u64,
}

/// What is known of a node, nothing where it was never heard of.
pub open spec fn known(nodes: Map<u16, NodeStatus>, node: u16) -> NodeStatus {
    if nodes.dom().contains(node) {
        nodes[node]
    } else {
        NodeStatus::unknown()
    }
}

/// Whether only one node changed.
pub open spec fn only_changed(
    before: Map<u16, NodeStatus>,
    after: Map<u16, NodeStatus>,
    node: u16,
) -> bool {
    after.dom().contains(node) && after == before.insert(node, after[node])
}

impl Default for DaemonState {
    fn default() -> (r: DaemonState)
        ensures
            r.wf(),
            r.log@.len() == 0,
            r.nodes@ == Map::<u16, NodeStatus>::empty(),
            r.next_seq == 0,
    {
        DaemonState { log: VecDeque::new(), nodes: HashMap::new(), next_seq: 0 }
    }
}

impl DaemonState {
    /// The log is bounded, and its lines are numbered without gaps up to the
    /// last.
    pub open spec fn wf(self) -> bool {
        &&& self.log@.len() <= LOG_CAPACITY
        &&& forall|i: int|
            0 <= i < self.log@.len() ==> (#[trigger] self.log@[i]).seq == self.next_seq - (
            self.log@.len() - 1 - i)
    }

    /// Appends a line with the time; the oldest makes room where the log is full.
    pub fn push_log(&mut self, line: String)
        requires
            old(self).wf(),
            old(self).next_seq < u64::MAX,
        ensures
            final(self).wf(),
            final(self).next_seq == old(self).next_seq + 1,
            final(self).nodes@ == old(self).nodes@,
            final(self).log@.len() > 0,
            final(self).log@.last().line == line,
            final(self).log@.last().seq == final(self).next_seq,
            final(self).log@.drop_last() == if old(self).log@.len() >= LOG_CAPACITY {
                old(self).log@.skip(1)
            } else {
                old(self).log@
            },
    {
        self.push_log_at(line, wall_now());
    }

    /// Appends a line of the time `now`; the oldest makes room where the log is
    /// full.
    pub fn push_log_at(&mut self, line: String, now: u64)
        requires
            old(self).wf(),
            old(self).next_seq < u64::MAX,
        ensures
            final(self).wf(),
            final(self).next_seq == old(self).next_seq + 1,
            final(self).nodes@ == old(self).nodes@,
            final(self).log@.len() > 0,
            final(self).log@.last().line == line,
            final(self).log@.last().seq == final(self).next_seq,
            final(self).log@.last().at == now,
            final(self).log@.drop_last() == if old(self).log@.len() >= LOG_CAPACITY {
                old(self).log@.skip(1)
            } else {
                old(self).log@
            },
    {
        if self.log.len() >= LOG_CAPACITY {
            let _ = self.log.pop_front();
        }
        let ghost kept = self.log@;
        assert(old(self).log@.len() >= LOG_CAPACITY ==> kept =~= old(self).log@.skip(1));
        self.next_seq = self.next_seq + 1;
        let entry = LogEntry { seq: self.next_seq, at: now, line };
        self.log.push_back(entry);
        assert(self.log@.drop_last() =~= kept);
        assert forall|i: int| 0 <= i < self.log@.len() implies (#[trigger] self.log@[i]).seq
            == self.next_seq - (self.log@.len() - 1 - i) by {
            if i < kept.len() {
                assert(self.log@[i] == kept[i]);
                if old(self).log@.len() >= LOG_CAPACITY {
                    assert(kept[i] == old(self).log@[i + 1]);
                }
            }
        }
    }

    /// Takes what is known of a node out of the table.
    fn take(&mut self, node: u16) -> (r: NodeStatus)
        ensures
            r == known(old(self).nodes@, node),
            final(self).nodes@ == old(self).nodes@.remove(node),
            final(self).log == old(self).log,
            final(self).next_seq == old(self).next_seq,
    {
        broadcast use vstd::std_specs::hash::group_hash_axioms;

        match self.nodes.remove(&node) {
            Some(s) => s,
            None => {
                assert(old(self).nodes@.remove(node) =~= old(self).nodes@);
                NodeStatus::default()
            },
        }
    }

    /// Puts what is known of a node back.
    fn put(&mut self, node: u16, s: NodeStatus)
        ensures
            final(self).nodes@ == old(self).nodes@.insert(node, s),
            final(self).log == old(self).log,
            final(self).next_seq == old(self).next_seq,
    {
        broadcast use vstd::std_specs::hash::group_hash_axioms;

        self.nodes.insert(node, s);
    }

    /// Notes a heartbeat. What it does not report stays as it was.
    pub fn record_heartbeat(
        &mut self,
        node: u16,
        battery: Option<(u8, u16)>,
        si_present: Option<bool>,
    )
        ensures
            final(self).log == old(self).log,
            final(self).next_seq == old(self).next_seq,
            only_changed(old(self).nodes@, final(self).nodes@, node),
            final(self).nodes@[node].last_heartbeat is Some,
            final(self).nodes@[node] == (NodeStatus {
                last_heartbeat: final(self).nodes@[node].last_heartbeat,
                battery_pct: match battery {
                    Some((pct, _)) => Some(pct),
                    None => known(old(self).nodes@, node).battery_pct,
                },
                battery_mv: match battery {
                    Some((_, mv)) => Some(mv),
                    None => known(old(self).nodes@, node).battery_mv,
                },
                si_present: match si_present {
                    Some(p) => Some(p),
                    None => known(old(self).nodes@, node).si_present,
                },
                ..known(old(self).nodes@, node)
            }),
    {
        self.record_heartbeat_at(node, battery, si_present, wall_now());
    }

    /// Notes a heartbeat of the time `now`. What it does not report stays as it
    /// was.
    pub fn record_heartbeat_at(
        &mut self,
        node: u16,
        battery: Option<(u8, u16)>,
        si_present: Option<bool>,
        now: u64,
    )
        ensures
            final(self).log == old(self).log,
            final(self).next_seq == old(self).next_seq,
            final(self).nodes@ == old(self).nodes@.insert(
                node,
                (NodeStatus {
                    last_heartbeat: Some(now),
                    battery_pct: match battery {
                        Some((pct, _)) => Some(pct),
                        None => known(old(self).nodes@, node).battery_pct,
                    },
                    battery_mv: match battery {
                        Some((_, mv)) => Some(mv),
                        None => known(old(self).nodes@, node).battery_mv,
                    },
                    si_present: match si_present {
                        Some(p) => Some(p),
                        None => known(old(self).nodes@, node).si_present,
                    },
                    ..known(old(self).nodes@, node)
                }),
            ),
    {
        let mut s = self.take(node);
        s.last_heartbeat = Some(now);
        if let Some((pct, mv)) = battery {
            s.battery_pct = Some(pct);
            s.battery_mv = Some(mv);
        }
        if let Some(present) = si_present {
            s.si_present = Some(present);
        }
        self.put(node, s);
        assert(self.nodes@ =~= old(self).nodes@.insert(node, s));
    }

    /// Notes the version that a node reported.
    pub fn record_version(&mut self, node: u16, version: String)
        ensures
            final(self).log == old(self).log,
            final(self).next_seq == old(self).next_seq,
            final(self).nodes@ == old(self).nodes@.insert(
                node,
                (NodeStatus { version: Some(version), ..known(old(self).nodes@, node) }),
            ),
    {
        let mut s = self.take(node);
        s.version = Some(version);
        self.put(node, s);
        assert(self.nodes@ =~= old(self).nodes@.insert(node, s));
    }

    /// Notes a punch packet.
    pub fn record_punch(&mut self, node: u16, rssi: Option<i16>)
        requires
            known(old(self).nodes@, node).punch_count < u64::MAX,
        ensures
            final(self).log == old(self).log,
            final(self).next_seq == old(self).next_seq,
            only_changed(old(self).nodes@, final(self).nodes@, node),
            final(self).nodes@[node].last_punch is Some,
            final(self).nodes@[node] == (NodeStatus {
                last_punch: final(self).nodes@[node].last_punch,
                last_rssi: rssi,
                punch_count: (known(old(self).nodes@, node).punch_count + 1) as u64,
                ..known(old(self).nodes@, node)
            }),
    {
        self.record_punch_at(node, rssi, wall_now());
    }

    /// Notes a punch packet of the time `now`.
    pub fn record_punch_at(&mut self, node: u16, rssi: Option<i16>, now: u64)
        requires
            known(old(self).nodes@, node).punch_count < u64::MAX,
        ensures
            final(self).log == old(self).log,
            final(self).next_seq == old(self).next_seq,
            final(self).nodes@ == old(self).nodes@.insert(
                node,
                (NodeStatus {
                    last_punch: Some(now),
                    last_rssi: rssi,
                    punch_count: (known(old(self).nodes@, node).punch_count + 1) as u64,
                    ..known(old(self).nodes@, node)
                }),
            ),
    {
        let mut s = self.take(node);
        s.last_punch = Some(now);
        s.last_rssi = rssi;
        s.punch_count = s.punch_count + 1;
        self.put(node, s);
        assert(self.nodes@ =~= old(self).nodes@.insert(node, s));
    }
}

} // verus!
