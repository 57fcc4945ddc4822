//! Lines of the daemon's log that tell what it did, and reading them back.

use vstd::prelude::*;
use crate::{decimal, text};
use super::protocol;
use super::protocol::Setting;

verus! {

/// Something the daemon did or saw that is not the packet itself.
#[derive(Debug, PartialEq)]
pub enum StatusEvent {
    /// It sent its own heartbeat.
    Heartbeat { dest: u16 },
    /// It sent a payload.
    Tx { dest: u16, payload: String },
    /// Something failed.
    Error(String),
    /// A command that it sent was confirmed by its target.
    CmdOk { target: u16, setting: Setting },
    /// A command that it sent was not confirmed, however often it was sent.
    CmdErr { target: u16, setting: Setting },
    /// It heard another node's heartbeat.
    HeartbeatRx { node: u16, battery: Option<(u8, u16)>, si_present: Option<bool> },
    /// It recorded a test punch.
    TestPunchOk { card_id: u32, station: u8, time_s: u32 },
    /// It removed an unsent local punch.
    ClearPunchOk { id: i64 },
    /// It removed all unsent local punches, this many.
    ClearPunchesOk { count: usize },
    /// A punch that it sent was acknowledged.
    PunchAckOk { card_id: u32, acked_by: u16 },
    /// It carried out a command that it received.
    CmdApplied { commander: u16, setting: Setting },
    /// It took a punch that was addressed to it.
    PunchRx { origin: u16, card_id: u32 },
}

/// An event as a value.
pub enum StatusView {
    Heartbeat { dest: u16 },
    Tx { dest: u16, payload: Seq<char> },
    Error(Seq<char>),
    CmdOk { target: u16, setting: Setting },
    CmdErr { target: u16, setting: Setting },
    HeartbeatRx { node: u16, battery: Option<(u8, u16)>, si_present: Option<bool> },
    TestPunchOk { card_id: u32, station: u8, time_s: u32 },
    ClearPunchOk { id: i64 },
    ClearPunchesOk { count: usize },
    PunchAckOk { card_id: u32, acked_by: u16 },
    CmdApplied { commander: u16, setting: Setting },
    PunchRx { origin: u16, card_id: u32 },
}

impl View for StatusEvent {
    type V = StatusView;

    open spec fn view(&self) -> StatusView {
        match *self {
            StatusEvent::Heartbeat { dest } => StatusView::Heartbeat { dest },
            StatusEvent::Tx { dest, payload } => StatusView::Tx { dest, payload: payload@ },
            StatusEvent::Error(m) => StatusView::Error(m@),
            StatusEvent::CmdOk { target, setting } => StatusView::CmdOk { target, setting },
            StatusEvent::CmdErr { target, setting } => StatusView::CmdErr { target, setting },
            StatusEvent::HeartbeatRx { node, battery, si_present } => StatusView::HeartbeatRx {
                node,
                battery,
                si_present,
            },
            StatusEvent::TestPunchOk { card_id, station, time_s } => StatusView::TestPunchOk {
                card_id,
                station,
                time_s,
            },
            StatusEvent::ClearPunchOk { id } => StatusView::ClearPunchOk { id },
            StatusEvent::ClearPunchesOk { count } => StatusView::ClearPunchesOk { count },
            StatusEvent::PunchAckOk { card_id, acked_by } => StatusView::PunchAckOk {
                card_id,
                acked_by,
            },
            StatusEvent::CmdApplied { commander, setting } => StatusView::CmdApplied {
                commander,
                setting,
            },
            StatusEvent::PunchRx { origin, card_id } => StatusView::PunchRx { origin, card_id },
        }
    }
}

/// What an optional event says.
pub open spec fn opt_status(o: Option<StatusEvent>) -> Option<StatusView> {
    match o {
        Some(e) => Some(e@),
        None => None,
    }
}

/// A battery as text: per cent and millivolts, or a dash.
pub open spec fn battery_text(b: Option<(u8, u16)>) -> Seq<char> {
    match b {
        Some((pct, mv)) => decimal::dec(pct as nat).push(' ') + decimal::dec(mv as nat),
        None => "-"@,
    }
}

/// The presence of a reader as text.
pub open spec fn present_text(p: Option<bool>) -> Seq<char> {
    match p {
        Some(true) => "1"@,
        Some(false) => "0"@,
        None => "-"@,
    }
}

/// `<number> <rest>`.
pub open spec fn numbered(n: nat, rest: Seq<char>) -> Seq<char> {
    decimal::dec(n).push(' ') + rest
}

impl StatusView {
    /// The log line of an event.
    pub open spec fn line(self) -> Seq<char> {
        match self {
            StatusView::Heartbeat { dest } => "HB "@ + decimal::dec(dest as nat),
            StatusView::Tx { dest, payload } => "TX "@ + numbered(dest as nat, payload),
            StatusView::Error(m) => "ERR "@ + m,
            StatusView::CmdOk { target, setting } => "CMDOK "@ + numbered(
                target as nat,
                setting.wire(),
            ),
            StatusView::CmdErr { target, setting } => "CMDERR "@ + numbered(
                target as nat,
                setting.wire(),
            ),
            StatusView::HeartbeatRx { node, battery, si_present } => "HBRX "@ + numbered(
                node as nat,
                battery_text(battery).push(' ') + present_text(si_present),
            ),
            StatusView::TestPunchOk { card_id, station, time_s } => "TESTPUNCHOK "@ + numbered(
                card_id as nat,
                numbered(station as nat, decimal::dec(time_s as nat)),
            ),
            StatusView::ClearPunchOk { id } => "CLEARPUNCHOK "@ + decimal::dec_signed(id as int),
            StatusView::ClearPunchesOk { count } => "CLEARPUNCHESOK "@ + decimal::dec(count as nat),
            StatusView::PunchAckOk { card_id, acked_by } => "PACKOK "@ + numbered(
                card_id as nat,
                decimal::dec(acked_by as nat),
            ),
            StatusView::CmdApplied { commander, setting } => "CMDAPPLIED "@ + numbered(
                commander as nat,
                setting.wire(),
            ),
            StatusView::PunchRx { origin, card_id } => "PUNCHRX "@ + numbered(
                origin as nat,
                decimal::dec(card_id as nat),
            ),
        }
    }
}

/// Reads `<address> <setting>`.
pub open spec fn parsed_target(s: Seq<char>) -> Option<(u16, Setting)> {
    match (decimal::as_u16(text::head(s, ' ')), text::tail(s, ' ')) {
        (Some(target), Some(rest)) => match protocol::parsed_setting(rest) {
            Some(setting) => Some((target, setting)),
            None => None,
        },
        _ => None,
    }
}

/// Reads the presence of a reader.
pub open spec fn parsed_present(s: Seq<char>) -> Option<Option<bool>> {
    if s == "1"@ {
        Some(Some(true))
    } else if s == "0"@ {
        Some(Some(false))
    } else if s == "-"@ {
        Some(None)
    } else {
        None
    }
}

/// Reads a battery from two fields.
pub open spec fn parsed_battery(pct: Seq<char>, mv: Seq<char>) -> Option<(u8, u16)> {
    match (decimal::as_u8(pct), decimal::as_u16(mv)) {
        (Some(p), Some(m)) => Some((p, m)),
        _ => None,
    }
}

/// Reads `<node> - <present>` or `<node> <per cent> <millivolts> <present>`.
pub open spec fn parsed_heard(s: Seq<char>) -> Option<StatusView> {
    let f = text::split(s, ' ');
    match decimal::as_u16(f[0]) {
        Some(node) => if f.len() == 3 && f[1] == "-"@ {
            match parsed_present(f[2]) {
                Some(si_present) => Some(
                    StatusView::HeartbeatRx { node, battery: None, si_present },
                ),
                None => None,
            }
        } else if f.len() == 4 {
            match (parsed_battery(f[1], f[2]), parsed_present(f[3])) {
                (Some(b), Some(si_present)) => Some(
                    StatusView::HeartbeatRx { node, battery: Some(b), si_present },
                ),
                _ => None,
            }
        } else {
            None
        },
        None => None,
    }
}

/// Reads `<card> <station> <time>`.
pub open spec fn parsed_triple(s: Seq<char>) -> Option<(u32, u8, u32)> {
    match (decimal::as_u32(text::head(s, ' ')), text::tail(s, ' ')) {
        (Some(card_id), Some(t)) => match (decimal::as_u8(text::head(t, ' ')), text::tail(t, ' ')) {
            (Some(station), Some(u)) => match decimal::as_u32(u) {
                Some(time_s) => Some((card_id, station, time_s)),
                None => None,
            },
            _ => None,
        },
        _ => None,
    }
}

/// Reads a log line of the daemon.
pub open spec fn parsed_status(s: Seq<char>) -> Option<StatusView> {
    if let Some(rest) = text::strip(s, "HB "@) {
        match protocol::parsed_addr(rest) {
            Some(dest) => Some(StatusView::Heartbeat { dest }),
            None => None,
        }
    } else if let Some(rest) = text::strip(s, "TX "@) {
        match decimal::as_u16(text::head(rest, ' ')) {
            Some(dest) => Some(
                StatusView::Tx {
                    dest,
                    payload: match text::tail(rest, ' ') {
                        Some(p) => p,
                        None => Seq::empty(),
                    },
                },
            ),
            None => None,
        }
    } else if let Some(rest) = text::strip(s, "ERR "@) {
        Some(StatusView::Error(rest))
    } else if let Some(rest) = text::strip(s, "CMDOK "@) {
        match parsed_target(rest) {
            Some((target, setting)) => Some(StatusView::CmdOk { target, setting }),
            None => None,
        }
    } else if let Some(rest) = text::strip(s, "CMDERR "@) {
        match parsed_target(rest) {
            Some((target, setting)) => Some(StatusView::CmdErr { target, setting }),
            None => None,
        }
    } else if let Some(rest) = text::strip(s, "HBRX "@) {
        parsed_heard(rest)
    } else if let Some(rest) = text::strip(s, "TESTPUNCHOK "@) {
        match parsed_triple(rest) {
            Some((card_id, station, time_s)) => Some(
                StatusView::TestPunchOk { card_id, station, time_s },
            ),
            None => None,
        }
    } else if let Some(rest) = text::strip(s, "CLEARPUNCHOK "@) {
        match decimal::as_i64(text::trimmed(rest)) {
            Some(id) => Some(StatusView::ClearPunchOk { id }),
            None => None,
        }
    } else if let Some(rest) = text::strip(s, "CLEARPUNCHESOK "@) {
        match decimal::as_usize(text::trimmed(rest)) {
            Some(count) => Some(StatusView::ClearPunchesOk { count }),
            None => None,
        }
    } else if let Some(rest) = text::strip(s, "PACKOK "@) {
        match (decimal::as_u32(text::head(rest, ' ')), text::tail(rest, ' ')) {
            (Some(card_id), Some(t)) => match decimal::as_u16(t) {
                Some(acked_by) => Some(StatusView::PunchAckOk { card_id, acked_by }),
                None => None,
            },
            _ => None,
        }
    } else if let Some(rest) = text::strip(s, "CMDAPPLIED "@) {
        match parsed_target(rest) {
            Some((commander, setting)) => Some(StatusView::CmdApplied { commander, setting }),
            None => None,
        }
    } else if let Some(rest) = text::strip(s, "PUNCHRX "@) {
        match (decimal::as_u16(text::head(rest, ' ')), text::tail(rest, ' ')) {
            (Some(origin), Some(t)) => match decimal::as_u32(t) {
                Some(card_id) => Some(StatusView::PunchRx { origin, card_id }),
                None => None,
            },
            _ => None,
        }
    } else {
        None
    }
}

/// Appends `<n> ` and nothing else.
fn push_number(out: &mut String, n: u64)
    ensures
        final(out)@ == old(out)@ + decimal::dec(n as nat).push(' '),
{
    decimal::push_dec(out, n);
    out.push(' ');
    assert(out@ =~= old(out)@ + decimal::dec(n as nat).push(' '));
}

/// Appends a battery.
pub fn push_battery(out: &mut String, battery: Option<(u8, u16)>)
    ensures
        final(out)@ == old(out)@ + battery_text(battery),
{
    match battery {
        Some((pct, mv)) => {
            push_number(out, pct as u64);
            decimal::push_dec(out, mv as u64);
            assert(out@ =~= old(out)@ + battery_text(battery));
        },
        None => out.push_str("-"),
    }
}

/// The presence of a reader as text.
fn present(si_present: Option<bool>) -> (r: &'static str)
    ensures
        r@ == present_text(si_present),
{
    match si_present {
        Some(true) => "1",
        Some(false) => "0",
        None => "-",
    }
}

impl StatusEvent {
    /// The log line of the event.
    pub fn encode(&self) -> (r: String)
        ensures
            r@ == self@.line(),
    {
        let mut out: String = String::new();
        match self {
            StatusEvent::Heartbeat { dest } => {
                out.push_str("HB ");
                decimal::push_dec(&mut out, *dest as u64);
            },
            StatusEvent::Tx { dest, payload } => {
                out.push_str("TX ");
                push_number(&mut out, *dest as u64);
                out.push_str(payload.as_str());
            },
            StatusEvent::Error(m) => {
                out.push_str("ERR ");
                out.push_str(m.as_str());
            },
            StatusEvent::CmdOk { target, setting } => {
                out.push_str("CMDOK ");
                push_number(&mut out, *target as u64);
                out.push_str(setting.encode().as_str());
            },
            StatusEvent::CmdErr { target, setting } => {
                out.push_str("CMDERR ");
                push_number(&mut out, *target as u64);
                out.push_str(setting.encode().as_str());
            },
            StatusEvent::HeartbeatRx { node, battery, si_present } => {
                out.push_str("HBRX ");
                push_number(&mut out, *node as u64);
                push_battery(&mut out, *battery);
                out.push(' ');
                out.push_str(present(*si_present));
            },
            StatusEvent::TestPunchOk { card_id, station, time_s } => {
                out.push_str("TESTPUNCHOK ");
                push_number(&mut out, *card_id as u64);
                push_number(&mut out, *station as u64);
                decimal::push_dec(&mut out, *time_s as u64);
            },
            StatusEvent::ClearPunchOk { id } => {
                out.push_str("CLEARPUNCHOK ");
                decimal::push_dec_signed(&mut out, *id);
            },
            StatusEvent::ClearPunchesOk { count } => {
                out.push_str("CLEARPUNCHESOK ");
                decimal::push_dec(&mut out, *count as u64);
            },
            StatusEvent::PunchAckOk { card_id, acked_by } => {
                out.push_str("PACKOK ");
                push_number(&mut out, *card_id as u64);
                decimal::push_dec(&mut out, *acked_by as u64);
            },
            StatusEvent::CmdApplied { commander, setting } => {
                out.push_str("CMDAPPLIED ");
                push_number(&mut out, *commander as u64);
                out.push_str(setting.encode().as_str());
            },
            StatusEvent::PunchRx { origin, card_id } => {
                out.push_str("PUNCHRX ");
                push_number(&mut out, *origin as u64);
                decimal::push_dec(&mut out, *card_id as u64);
            },
        }
        assert(out@ =~= self@.line());
        out
    }
}

/// Reads `<address> <setting>`.
pub fn parse_target(s: &[char]) -> (r: Option<(u16, Setting)>)
    ensures
        r == parsed_target(s@),
{
    let (first, rest) = text::split_head(s, ' ');
    let target = match decimal::parse_u16(first) {
        Some(v) => v,
        None => return None,
    };
    match rest {
        Some(t) => match Setting::parse_chars(t) {
            Some(setting) => Some((target, setting)),
            None => None,
        },
        None => None,
    }
}

/// Reads the presence of a reader.
fn parse_present(s: &[char]) -> (r: Option<Option<bool>>)
    ensures
        r == parsed_present(s@),
{
    if text::same(s, "1") {
        Some(Some(true))
    } else if text::same(s, "0") {
        Some(Some(false))
    } else if text::same(s, "-") {
        Some(None)
    } else {
        None
    }
}

/// Reads a battery from two fields.
pub fn parse_battery(pct: &[char], mv: &[char]) -> (r: Option<(u8, u16)>)
    ensures
        r == parsed_battery(pct@, mv@),
{
    match (decimal::parse_u8(pct), decimal::parse_u16(mv)) {
        (Some(p), Some(m)) => Some((p, m)),
        _ => None,
    }
}

/// Reads the body of a heard heartbeat.
fn parse_heard(s: &[char]) -> (r: Option<StatusEvent>)
    ensures
        opt_status(r) == parsed_heard(s@),
{
    let f = text::split_all(s, ' ');
    assert(f@.len() == text::split(s@, ' ').len());
    assert(forall|i: int| 0 <= i < f@.len() ==> f@[i]@ == #[trigger] text::split(s@, ' ')[i]);
    let node = match decimal::parse_u16(f[0]) {
        Some(v) => v,
        None => return None,
    };
    if f.len() == 3 && text::same(f[1], "-") {
        match parse_present(f[2]) {
            Some(si_present) => Some(
                StatusEvent::HeartbeatRx { node, battery: None, si_present },
            ),
            None => None,
        }
    } else if f.len() == 4 {
        match (parse_battery(f[1], f[2]), parse_present(f[3])) {
            (Some(b), Some(si_present)) => Some(
                StatusEvent::HeartbeatRx { node, battery: Some(b), si_present },
            ),
            _ => None,
        }
    } else {
        None
    }
}

/// Reads `<card> <station> <time>`.
pub fn parse_triple(s: &[char]) -> (r: Option<(u32, u8, u32)>)
    ensures
        r == parsed_triple(s@),
{
    let (first, rest) = text::split_head(s, ' ');
    let card_id = match decimal::parse_u32(first) {
        Some(v) => v,
        None => return None,
    };
    let rest = match rest {
        Some(t) => t,
        None => return None,
    };
    let (second, rest) = text::split_head(rest, ' ');
    let station = match decimal::parse_u8(second) {
        Some(v) => v,
        None => return None,
    };
    let rest = match rest {
        Some(t) => t,
        None => return None,
    };
    match decimal::parse_u32(rest) {
        Some(time_s) => Some((card_id, station, time_s)),
        None => None,
    }
}

/// Reads `<address> <rest>`.
fn parse_tx(s: &[char]) -> (r: Option<StatusEvent>)
    ensures
        opt_status(r) == (match decimal::as_u16(text::head(s@, ' ')) {
            Some(dest) => Some(
                StatusView::Tx {
                    dest,
                    payload: match text::tail(s@, ' ') {
                        Some(p) => p,
                        None => Seq::empty(),
                    },
                },
            ),
            None => None,
        }),
{
    let (first, rest) = text::split_head(s, ' ');
    let dest = match decimal::parse_u16(first) {
        Some(v) => v,
        None => return None,
    };
    match rest {
        Some(p) => Some(StatusEvent::Tx { dest, payload: text::string_of(p) }),
        None => {
            let payload = String::new();
            assert(payload@ =~= Seq::empty());
            Some(StatusEvent::Tx { dest, payload })
        },
    }
}

/// Reads `<card> <address>`.
fn parse_acked(s: &[char]) -> (r: Option<StatusEvent>)
    ensures
        opt_status(r) == (match (decimal::as_u32(text::head(s@, ' ')), text::tail(s@, ' ')) {
            (Some(card_id), Some(t)) => match decimal::as_u16(t) {
                Some(acked_by) => Some(StatusView::PunchAckOk { card_id, acked_by }),
                None => None,
            },
            _ => None,
        }),
{
    let (first, rest) = text::split_head(s, ' ');
    match (decimal::parse_u32(first), rest) {
        (Some(card_id), Some(t)) => match decimal::parse_u16(t) {
            Some(acked_by) => Some(StatusEvent::PunchAckOk { card_id, acked_by }),
            None => None,
        },
        _ => None,
    }
}

/// Reads `<address> <card>`.
fn parse_taken(s: &[char]) -> (r: Option<StatusEvent>)
    ensures
        opt_status(r) == (match (decimal::as_u16(text::head(s@, ' ')), text::tail(s@, ' ')) {
            (Some(origin), Some(t)) => match decimal::as_u32(t) {
                Some(card_id) => Some(StatusView::PunchRx { origin, card_id }),
                None => None,
            },
            _ => None,
        }),
{
    let (first, rest) = text::split_head(s, ' ');
    match (decimal::parse_u16(first), rest) {
        (Some(origin), Some(t)) => match decimal::parse_u32(t) {
            Some(card_id) => Some(StatusEvent::PunchRx { origin, card_id }),
            None => None,
        },
        _ => None,
    }
}

/// Reads a log line of the daemon; `None` for any other line.
pub fn parse_status_line(line: &str) -> (r: Option<StatusEvent>)
    ensures
        opt_status(r) == parsed_status(line@),
{
    let all = text::chars(line);
    let s = all.as_slice();
    if let Some(rest) = text::strip_prefix(s, "HB ") {
        return match protocol::parse_addr(rest) {
            Some(dest) => Some(StatusEvent::Heartbeat { dest }),
            None => None,
        };
    }
    if let Some(rest) = text::strip_prefix(s, "TX ") {
        return parse_tx(rest);
    }
    if let Some(rest) = text::strip_prefix(s, "ERR ") {
        return Some(StatusEvent::Error(text::string_of(rest)));
    }
    if let Some(rest) = text::strip_prefix(s, "CMDOK ") {
        return match parse_target(rest) {
            Some((target, setting)) => Some(StatusEvent::CmdOk { target, setting }),
            None => None,
        };
    }
    if let Some(rest) = text::strip_prefix(s, "CMDERR ") {
        return match parse_target(rest) {
            Some((target, setting)) => Some(StatusEvent::CmdErr { target, setting }),
            None => None,
        };
    }
    if let Some(rest) = text::strip_prefix(s, "HBRX ") {
        return parse_heard(rest);
    }
    if let Some(rest) = text::strip_prefix(s, "TESTPUNCHOK ") {
        return match parse_triple(rest) {
            Some((card_id, station, time_s)) => Some(
                StatusEvent::TestPunchOk { card_id, station, time_s },
            ),
            None => None,
        };
    }
    if let Some(rest) = text::strip_prefix(s, "CLEARPUNCHOK ") {
        return match decimal::parse_i64(text::trim(rest)) {
            Some(id) => Some(StatusEvent::ClearPunchOk { id }),
            None => None,
        };
    }
    if let Some(rest) = text::strip_prefix(s, "CLEARPUNCHESOK ") {
        return match decimal::parse_usize(text::trim(rest)) {
            Some(count) => Some(StatusEvent::ClearPunchesOk { count }),
            None => None,
        };
    }
    if let Some(rest) = text::strip_prefix(s, "PACKOK ") {
        return parse_acked(rest);
    }
    if let Some(rest) = text::strip_prefix(s, "CMDAPPLIED ") {
        return match parse_target(rest) {
            Some((commander, setting)) => Some(StatusEvent::CmdApplied { commander, setting }),
            None => None,
        };
    }
    if let Some(rest) = text::strip_prefix(s, "PUNCHRX ") {
        return parse_taken(rest);
    }
    None
}

/// A heard heartbeat is read back.
proof fn lemma_heard(node: u16, battery: Option<(u8, u16)>, si_present: Option<bool>)
    ensures
        parsed_heard(
            numbered(node as nat, battery_text(battery).push(' ') + present_text(si_present)),
        ) == Some(StatusView::HeartbeatRx { node, battery, si_present }),
{
    reveal_strlit("-");
    reveal_strlit("0");
    reveal_strlit("1");
    let a = decimal::dec(node as nat);
    let c = present_text(si_present);
    let rest = battery_text(battery).push(' ') + c;
    decimal::lemma_dec_without(node as nat, ' ');
    decimal::lemma_parse_dec(node as nat, u16::MAX as nat);
    text::lemma_split_cons(a, ' ', rest);
    assert(!c.contains(' '));
    text::lemma_split_cons(c, ' ', c);
    assert(parsed_present(c) == Some(si_present)) by {
        assert("0"@[0] != "1"@[0]);
        assert("-"@[0] != "1"@[0]);
        assert("-"@[0] != "0"@[0]);
    }
    match battery {
        Some((pct, mv)) => {
            let p = decimal::dec(pct as nat);
            let m = decimal::dec(mv as nat);
            decimal::lemma_dec_without(pct as nat, ' ');
            decimal::lemma_dec_without(mv as nat, ' ');
            decimal::lemma_parse_dec(pct as nat, u8::MAX as nat);
            decimal::lemma_parse_dec(mv as nat, u16::MAX as nat);
            assert(rest =~= p.push(' ') + (m.push(' ') + c));
            text::lemma_split_cons(p, ' ', m.push(' ') + c);
            text::lemma_split_cons(m, ' ', c);
            let f = text::split(numbered(node as nat, rest), ' ');
            assert(f =~= seq![a, p, m, c]);
        },
        None => {
            assert(!"-"@.contains(' '));
            text::lemma_split_cons("-"@, ' ', c);
            let f = text::split(numbered(node as nat, rest), ' ');
            assert(f =~= seq![a, "-"@, c]);
        },
    }
}

/// `<number> <rest>` comes apart again.
proof fn lemma_numbered(n: nat, rest: Seq<char>)
    ensures
        text::head(numbered(n, rest), ' ') == decimal::dec(n),
        text::tail(numbered(n, rest), ' ') == Some(rest),
{
    decimal::lemma_dec_without(n, ' ');
    text::lemma_head_tail(decimal::dec(n), ' ', rest);
}

/// The name of an event's line.
pub open spec fn name(e: StatusView) -> Seq<char> {
    match e {
        StatusView::Heartbeat { .. } => "HB "@,
        StatusView::Tx { .. } => "TX "@,
        StatusView::Error(_) => "ERR "@,
        StatusView::CmdOk { .. } => "CMDOK "@,
        StatusView::CmdErr { .. } => "CMDERR "@,
        StatusView::HeartbeatRx { .. } => "HBRX "@,
        StatusView::TestPunchOk { .. } => "TESTPUNCHOK "@,
        StatusView::ClearPunchOk { .. } => "CLEARPUNCHOK "@,
        StatusView::ClearPunchesOk { .. } => "CLEARPUNCHESOK "@,
        StatusView::PunchAckOk { .. } => "PACKOK "@,
        StatusView::CmdApplied { .. } => "CMDAPPLIED "@,
        StatusView::PunchRx { .. } => "PUNCHRX "@,
    }
}

/// What follows the name in an event's line.
pub open spec fn body(e: StatusView) -> Seq<char> {
    e.line().skip(name(e).len() as int)
}

/// Of all names a line begins with its own only.
proof fn lemma_line_names(e: StatusView)
    ensures
        text::strip(e.line(), name(e)) == Some(body(e)),
        e !is Heartbeat ==> text::strip(e.line(), "HB "@) is None,
        e !is Tx ==> text::strip(e.line(), "TX "@) is None,
        e !is Error ==> text::strip(e.line(), "ERR "@) is None,
        e !is CmdOk ==> text::strip(e.line(), "CMDOK "@) is None,
        e !is CmdErr ==> text::strip(e.line(), "CMDERR "@) is None,
        e !is HeartbeatRx ==> text::strip(e.line(), "HBRX "@) is None,
        e !is TestPunchOk ==> text::strip(e.line(), "TESTPUNCHOK "@) is None,
        e !is ClearPunchOk ==> text::strip(e.line(), "CLEARPUNCHOK "@) is None,
        e !is ClearPunchesOk ==> text::strip(e.line(), "CLEARPUNCHESOK "@) is None,
        e !is PunchAckOk ==> text::strip(e.line(), "PACKOK "@) is None,
        e !is CmdApplied ==> text::strip(e.line(), "CMDAPPLIED "@) is None,
{
    reveal_strlit("HB ");
    reveal_strlit("TX ");
    reveal_strlit("ERR ");
    reveal_strlit("CMDOK ");
    reveal_strlit("CMDERR ");
    reveal_strlit("HBRX ");
    reveal_strlit("TESTPUNCHOK ");
    reveal_strlit("CLEARPUNCHOK ");
    reveal_strlit("CLEARPUNCHESOK ");
    reveal_strlit("PACKOK ");
    reveal_strlit("CMDAPPLIED ");
    reveal_strlit("PUNCHRX ");
    let w = e.line();
    let n = name(e);
    assert(w =~= n + body(e));
    text::lemma_strip(n, body(e));
    assert(forall|i: int| 0 <= i < n.len() ==> #[trigger] w[i] == n[i]);
    if e !is Heartbeat {
        text::lemma_strip_none(w, "HB "@, if e is HeartbeatRx { 2 } else { 0 });
    }
    if e !is Tx {
        text::lemma_strip_none(w, "TX "@, if e is TestPunchOk { 1 } else { 0 });
    }
    if e !is Error {
        text::lemma_strip_none(w, "ERR "@, 0);
    }
    if e !is CmdOk {
        text::lemma_strip_none(
            w,
            "CMDOK "@,
            if e is CmdErr || e is CmdApplied {
                3
            } else if e is ClearPunchOk || e is ClearPunchesOk {
                1
            } else {
                0
            },
        );
    }
    if e !is CmdErr {
        text::lemma_strip_none(
            w,
            "CMDERR "@,
            if e is CmdOk || e is CmdApplied {
                3
            } else if e is ClearPunchOk || e is ClearPunchesOk {
                1
            } else {
                0
            },
        );
    }
    if e !is HeartbeatRx {
        text::lemma_strip_none(w, "HBRX "@, if e is Heartbeat { 2 } else { 0 });
    }
    if e !is TestPunchOk {
        text::lemma_strip_none(w, "TESTPUNCHOK "@, if e is Tx { 1 } else { 0 });
    }
    if e !is ClearPunchOk {
        text::lemma_strip_none(
            w,
            "CLEARPUNCHOK "@,
            if e is CmdOk || e is CmdErr || e is CmdApplied {
                1
            } else if e is ClearPunchesOk {
                10
            } else {
                0
            },
        );
    }
    if e !is ClearPunchesOk {
        text::lemma_strip_none(
            w,
            "CLEARPUNCHESOK "@,
            if e is CmdOk || e is CmdErr || e is CmdApplied {
                1
            } else if e is ClearPunchOk {
                10
            } else {
                0
            },
        );
    }
    if e !is PunchAckOk {
        text::lemma_strip_none(w, "PACKOK "@, if e is PunchRx { 1 } else { 0 });
    }
    if e !is CmdApplied {
        text::lemma_strip_none(
            w,
            "CMDAPPLIED "@,
            if e is CmdOk || e is CmdErr {
                3
            } else if e is ClearPunchOk || e is ClearPunchesOk {
                1
            } else {
                0
            },
        );
    }
}

/// Every event is read back from the line that was written for it.
pub proof fn law_status_line_round_trip(e: StatusView)
    ensures
        parsed_status(e.line()) == Some(e),
{
    lemma_line_names(e);
    match e {
        StatusView::Heartbeat { dest } => {
            assert(body(e) =~= decimal::dec(dest as nat));
            decimal::lemma_dec_trimmed(dest as nat);
            decimal::lemma_parse_dec(dest as nat, u16::MAX as nat);
        },
        StatusView::Tx { dest, payload } => {
            assert(body(e) =~= numbered(dest as nat, payload));
            lemma_numbered(dest as nat, payload);
            decimal::lemma_parse_dec(dest as nat, u16::MAX as nat);
        },
        StatusView::Error(m) => {
            assert(body(e) =~= m);
        },
        StatusView::CmdOk { target, setting } | StatusView::CmdErr {
            target,
            setting,
        } | StatusView::CmdApplied { commander: target, setting } => {
            assert(body(e) =~= numbered(target as nat, setting.wire()));
            lemma_numbered(target as nat, setting.wire());
            decimal::lemma_parse_dec(target as nat, u16::MAX as nat);
            protocol::law_setting_round_trip(setting);
        },
        StatusView::HeartbeatRx { node, battery, si_present } => {
            assert(body(e) =~= numbered(
                node as nat,
                battery_text(battery).push(' ') + present_text(si_present),
            ));
            lemma_heard(node, battery, si_present);
        },
        StatusView::TestPunchOk { card_id, station, time_s } => {
            let rest = numbered(station as nat, decimal::dec(time_s as nat));
            assert(body(e) =~= numbered(card_id as nat, rest));
            lemma_numbered(card_id as nat, rest);
            lemma_numbered(station as nat, decimal::dec(time_s as nat));
            decimal::lemma_parse_dec(card_id as nat, u32::MAX as nat);
            decimal::lemma_parse_dec(station as nat, u8::MAX as nat);
            decimal::lemma_parse_dec(time_s as nat, u32::MAX as nat);
        },
        StatusView::ClearPunchOk { id } => {
            assert(body(e) =~= decimal::dec_signed(id as int));
            decimal::lemma_dec_signed_trimmed(id as int);
            decimal::lemma_parse_dec_signed(id as int, i64::MIN as int, i64::MAX as int);
        },
        StatusView::ClearPunchesOk { count } => {
            assert(body(e) =~= decimal::dec(count as nat));
            decimal::lemma_dec_trimmed(count as nat);
            decimal::lemma_parse_dec(count as nat, usize::MAX as nat);
        },
        StatusView::PunchAckOk { card_id, acked_by } => {
            assert(body(e) =~= numbered(card_id as nat, decimal::dec(acked_by as nat)));
            lemma_numbered(card_id as nat, decimal::dec(acked_by as nat));
            decimal::lemma_parse_dec(card_id as nat, u32::MAX as nat);
            decimal::lemma_parse_dec(acked_by as nat, u16::MAX as nat);
        },
        StatusView::PunchRx { origin, card_id } => {
            assert(body(e) =~= numbered(origin as nat, decimal::dec(card_id as nat)));
            lemma_numbered(origin as nat, decimal::dec(card_id as nat));
            decimal::lemma_parse_dec(origin as nat, u16::MAX as nat);
            decimal::lemma_parse_dec(card_id as nat, u32::MAX as nat);
        },
    }
}

/// A line names its event first, and then tells its numbers in order with blanks
/// between.
pub proof fn law_status_line_fields(origin: u16, card: u32, station: u8, time: u32, by: u16)
    ensures
        ({
            let f = text::split((StatusView::PunchRx { origin, card_id: card }).line(), ' ');
            &&& f.len() == 3
            &&& f[0] == "PUNCHRX"@
            &&& decimal::says(f[1], origin as int)
            &&& decimal::says(f[2], card as int)
        }),
        ({
            let f = text::split(
                (StatusView::PunchAckOk { card_id: card, acked_by: by }).line(),
                ' ',
            );
            &&& f.len() == 3
            &&& f[0] == "PACKOK"@
            &&& decimal::says(f[1], card as int)
            &&& decimal::says(f[2], by as int)
        }),
        ({
            let f = text::split(
                (StatusView::TestPunchOk { card_id: card, station, time_s: time }).line(),
                ' ',
            );
            &&& f.len() == 4
            &&& f[0] == "TESTPUNCHOK"@
            &&& decimal::says(f[1], card as int)
            &&& decimal::says(f[2], station as int)
            &&& decimal::says(f[3], time as int)
        }),
{
    reveal_strlit("PUNCHRX ");
    reveal_strlit("PUNCHRX");
    reveal_strlit("PACKOK ");
    reveal_strlit("PACKOK");
    reveal_strlit("TESTPUNCHOK ");
    reveal_strlit("TESTPUNCHOK");
    assert("PUNCHRX "@ =~= "PUNCHRX"@.push(' '));
    assert("PACKOK "@ =~= "PACKOK"@.push(' '));
    assert("TESTPUNCHOK "@ =~= "TESTPUNCHOK"@.push(' '));
    assert(!"PUNCHRX"@.contains(' ') && !"PACKOK"@.contains(' ') && !"TESTPUNCHOK"@.contains(' '));
    lemma_written(origin as nat);
    lemma_written(card as nat);
    lemma_written(station as nat);
    lemma_written(time as nat);
    lemma_written(by as nat);
    let o = decimal::dec(origin as nat);
    let c = decimal::dec(card as nat);
    let s = decimal::dec(station as nat);
    let t = decimal::dec(time as nat);
    let a = decimal::dec(by as nat);
    text::lemma_split_cons("PUNCHRX"@, ' ', o.push(' ') + c);
    text::lemma_split_cons(o, ' ', c);
    text::lemma_split_cons(c, ' ', Seq::empty());
    assert(text::split((StatusView::PunchRx { origin, card_id: card }).line(), ' ') =~= seq![
        "PUNCHRX"@,
        o,
        c,
    ]);
    text::lemma_split_cons("PACKOK"@, ' ', c.push(' ') + a);
    text::lemma_split_cons(c, ' ', a);
    text::lemma_split_cons(a, ' ', Seq::empty());
    assert(text::split((StatusView::PunchAckOk { card_id: card, acked_by: by }).line(), ' ')
        =~= seq!["PACKOK"@, c, a]);
    text::lemma_split_cons("TESTPUNCHOK"@, ' ', c.push(' ') + (s.push(' ') + t));
    text::lemma_split_cons(c, ' ', s.push(' ') + t);
    text::lemma_split_cons(s, ' ', t);
    text::lemma_split_cons(t, ' ', Seq::empty());
    assert(text::split(
        (StatusView::TestPunchOk { card_id: card, station, time_s: time }).line(),
        ' ',
    ) =~= seq!["TESTPUNCHOK"@, c, s, t]);
}

/// A written number holds no blank and says what it is.
proof fn lemma_written(n: nat)
    ensures
        !decimal::dec(n).contains(' '),
        decimal::says(decimal::dec(n), n as int),
{
    decimal::lemma_dec(n);
    decimal::lemma_dec_without(n, ' ');
}

} // verus!
