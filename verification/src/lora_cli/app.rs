//! The state of the terminal.

use std::collections::VecDeque;
use vstd::prelude::*;
use crate::decimal;

verus! {

/// Most entries of the log.
pub const MAX_LOG_ENTRIES: usize = 1000;

/// A line of the log.
#[derive(Debug)]
pub enum LogEntry {
    Rx { timestamp: String, src_addr: u16, payload: String, rssi: Option<i16> },
    Tx { timestamp: String, dest_addr: u16, payload: String },
    Heartbeat { timestamp: String, dest_addr: u16 },
    Error { timestamp: String, message: String },
}

/// The state of the terminal.
pub struct App {
    pub log: VecDeque<LogEntry>,
    /// What was typed and not sent yet.
    pub input: String,
    pub should_quit: bool,
    pub addr: u16,
    pub dest: u16,
    pub port_info: String,
}

impl App {
    /// The log is bounded.
    pub open spec fn wf(self) -> bool {
        self.log@.len() <= MAX_LOG_ENTRIES
    }

    /// A session that just began.
    pub fn new(port_info: String, addr: u16, dest: u16) -> (r: App)
        ensures
            r.wf(),
            r.log@.len() == 0,
            r.input@ == Seq::<char>::empty(),
            !r.should_quit,
            r.addr == addr,
            r.dest == dest,
            r.port_info == port_info,
    {
        let input = String::new();
        assert(input@ =~= Seq::empty());
        App { log: VecDeque::new(), input, should_quit: false, addr, dest, port_info }
    }

    /// The line that tells what this session is.
    pub fn config_line(&self) -> (r: String)
        ensures
            r@ == self.port_info@ + "  addr: "@ + decimal::dec(self.addr as nat) + "  dest: "@
                + decimal::dec(self.dest as nat),
    {
        let mut out: String = String::new();
        out.push_str(self.port_info.as_str());
        assert(out@ =~= self.port_info@);
        out.push_str("  addr: ");
        decimal::push_dec(&mut out, self.addr as u64);
        out.push_str("  dest: ");
        decimal::push_dec(&mut out, self.dest as u64);
        out
    }

    /// Appends an entry; the oldest makes room where the log is full.
    pub fn push_log(&mut self, entry: LogEntry)
        requires
            old(self).wf(),
        ensures
            final(self).wf(),
            final(self).log@ == if old(self).log@.len() >= MAX_LOG_ENTRIES {
                old(self).log@.skip(1).push(entry)
            } else {
                old(self).log@.push(entry)
            },
            *final(self) == (App { log: final(self).log, ..*old(self) }),
    {
        if self.log.len() >= MAX_LOG_ENTRIES {
            let _ = self.log.pop_front();
            assert(self.log@ =~= old(self).log@.skip(1));
        }
        self.log.push_back(entry);
    }
}

} // verus!
