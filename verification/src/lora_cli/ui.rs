//! What the terminal shows of its log.

use vstd::prelude::*;
use crate::lora_server::app::EntryView;
use crate::lora_server::ui::Span;
use crate::lora_server::{app, ui};
use super::app::LogEntry;

verus! {

/// A log entry as a value.
pub open spec fn entry(e: LogEntry) -> EntryView {
    match e {
        LogEntry::Rx { timestamp, src_addr, payload, rssi } => EntryView::Rx {
            timestamp: timestamp@,
            src_addr,
            payload: payload@,
            rssi,
        },
        LogEntry::Tx { timestamp, dest_addr, payload } => EntryView::Tx {
            timestamp: timestamp@,
            dest_addr,
            payload: payload@,
        },
        LogEntry::Heartbeat { timestamp, dest_addr } => EntryView::Heartbeat {
            timestamp: timestamp@,
            dest_addr,
        },
        LogEntry::Error { timestamp, message } => EntryView::Error {
            timestamp: timestamp@,
            message: message@,
        },
    }
}

/// Writes a log entry as a line.
pub fn format_entry(e: &LogEntry) -> (r: Vec<Span>)
    ensures
        ui::spans(r@) == ui::formatted(entry(*e)),
{
    let same = match e {
        LogEntry::Rx { timestamp, src_addr, payload, rssi } => app::LogEntry::Rx {
            timestamp: timestamp.clone(),
            src_addr: *src_addr,
            payload: payload.clone(),
            rssi: *rssi,
        },
        LogEntry::Tx { timestamp, dest_addr, payload } => app::LogEntry::Tx {
            timestamp: timestamp.clone(),
            dest_addr: *dest_addr,
            payload: payload.clone(),
        },
        LogEntry::Heartbeat { timestamp, dest_addr } => app::LogEntry::Heartbeat {
            timestamp: timestamp.clone(),
            dest_addr: *dest_addr,
        },
        LogEntry::Error { timestamp, message } => app::LogEntry::Error {
            timestamp: timestamp.clone(),
            message: message.clone(),
        },
    };
    ui::format_entry(&same)
}

} // verus!
