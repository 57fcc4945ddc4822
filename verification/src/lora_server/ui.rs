//! What the terminal client shows and what it does about keys, packets and
//! events. Drawing and reading the keyboard are left to whoever owns the
//! terminal.

use vstd::prelude::*;
use crate::sportident;
use crate::sportident::CardReadout;
use crate::sx127x::packet::payload_bytes;
use crate::sx127x::ReceivedPacket;
use crate::{decimal, text};
use super::app;
use super::app::{App, EntryView, LogEntry};
use super::status::StatusEvent;
use super::{protocol, status};

verus! {

/// A colour of the terminal.
#[derive(Debug, Clone, Copy, PartialEq, Eq, Structural)]
pub enum Tint {
    DarkGray,
    Green,
    Yellow,
    Red,
    Cyan,
    Magenta,
    White,
}

/// A piece of a line in one style.
#[derive(Debug)]
pub struct Span {
    pub text: String,
    pub tint: Tint,
    pub dim: bool,
}

/// A piece of a line as a value.
pub struct SpanView {
    pub text: Seq<char>,
    pub tint: Tint,
    pub dim: bool,
}

impl View for Span {
    type V = SpanView;

    open spec fn view(&self) -> SpanView {
        SpanView { text: self.text@, tint: self.tint, dim: self.dim }
    }
}

/// A line as a value.
pub open spec fn spans(v: Seq<Span>) -> Seq<SpanView> {
    Seq::new(v.len(), |i: int| v[i]@)
}

/// A time of day as `hh:mm:ss`.
pub open spec fn time_text(t: nat) -> Seq<char> {
    decimal::pad(decimal::dec(t / 3600), 2, '0').push(':') + decimal::pad(
        decimal::dec(t % 3600 / 60),
        2,
        '0',
    ).push(':') + decimal::pad(decimal::dec(t % 60), 2, '0')
}

/// Appends a time of day.
pub fn push_time(out: &mut String, t: u64)
    ensures
        final(out)@ == old(out)@ + time_text(t as nat),
{
    decimal::push_padded(out, t / 3600, 2, '0');
    out.push(':');
    decimal::push_padded(out, t % 3600 / 60, 2, '0');
    out.push(':');
    decimal::push_padded(out, t % 60, 2, '0');
    assert(out@ =~= old(out)@ + time_text(t as nat));
}

/// The time of day of a point in time, given in seconds since the epoch.
pub fn timestamp(secs: u64) -> (r: String)
    ensures
        r@ == time_text((secs % 86400) as nat),
{
    let mut out: String = String::new();
    push_time(&mut out, secs % 86400);
    assert(out@ =~= time_text((secs % 86400) as nat));
    out
}

/// One punch as `<station>@<time>`.
pub open spec fn punch_text(p: (u8, u32)) -> Seq<char> {
    decimal::dec(p.0 as nat).push('@') + time_text(p.1 as nat)
}

/// Punches with blanks between.
pub open spec fn punches_text(ps: Seq<(u8, u32)>) -> Seq<char>
    decreases ps.len(),
{
    if ps.len() == 0 {
        Seq::empty()
    } else if ps.len() == 1 {
        punch_text(ps[0])
    } else {
        punches_text(ps.drop_last()).push(' ') + punch_text(ps.last())
    }
}

/// Appends one punch.
fn push_punch(out: &mut String, station: u8, time_s: u32)
    ensures
        final(out)@ == old(out)@ + punch_text((station, time_s)),
{
    decimal::push_dec(out, station as u64);
    out.push('@');
    push_time(out, time_s as u64);
    assert(out@ =~= old(out)@ + punch_text((station, time_s)));
}

/// Appends punches.
fn push_punches(out: &mut String, ps: &Vec<(u8, u32)>)
    ensures
        final(out)@ == old(out)@ + punches_text(ps@),
{
    let mut i: usize = 0;
    let ghost start = out@;
    assert(out@ =~= start + punches_text(ps@.take(0)));
    while i < ps.len()
        invariant
            i <= ps@.len(),
            out@ == start + punches_text(ps@.take(i as int)),
        decreases ps@.len() - i,
    {
        let ghost more = ps@.take(i + 1);
        assert(more.drop_last() =~= ps@.take(i as int));
        if i > 0 {
            out.push(' ');
        }
        push_punch(out, ps[i].0, ps[i].1);
        i += 1;
        assert(more[0] == ps@[0]);
        assert(out@ =~= start + punches_text(more));
    }
    assert(ps@.take(ps@.len() as int) =~= ps@);
}

/// The colour of a signal strength.
pub open spec fn rssi_tint(dbm: i16) -> Tint {
    if dbm > -90 {
        Tint::Green
    } else if dbm >= -110 {
        Tint::Yellow
    } else {
        Tint::Red
    }
}

/// The colour of a signal strength: good above -90 dBm, weak down to -110 dBm.
pub fn rssi_color(dbm: i16) -> (r: Tint)
    ensures
        r == rssi_tint(dbm),
{
    if dbm > -90 {
        Tint::Green
    } else if dbm >= -110 {
        Tint::Yellow
    } else {
        Tint::Red
    }
}

/// The time in front of a line.
pub open spec fn stamp(timestamp: Seq<char>) -> SpanView {
    SpanView { text: "["@ + timestamp + "] "@, tint: Tint::DarkGray, dim: true }
}

/// A plain piece of a line.
pub open spec fn plain(text: Seq<char>, tint: Tint) -> SpanView {
    SpanView { text, tint, dim: false }
}

/// An address in a column of five.
pub open spec fn column(addr: u16) -> Seq<char> {
    decimal::pad(decimal::dec(addr as nat), 5, ' ')
}

/// A card number in a column of seven.
pub open spec fn card_column(card_id: u32) -> Seq<char> {
    decimal::pad(decimal::dec(card_id as nat), 7, ' ')
}

/// A log entry as a line.
pub open spec fn formatted(e: EntryView) -> Seq<SpanView> {
    match e {
        EntryView::Rx { timestamp, src_addr, payload, rssi } => {
            let front = seq![
                stamp(timestamp),
                plain("RX from "@ + column(src_addr) + "  "@, Tint::Green),
                plain(payload, Tint::Green),
            ];
            match rssi {
                Some(dbm) => front.push(
                    plain(
                        "   RSSI: "@ + decimal::dec_signed(dbm as int) + "dBm"@,
                        rssi_tint(dbm),
                    ),
                ),
                None => front,
            }
        },
        EntryView::Tx { timestamp, dest_addr, payload } => seq![
            stamp(timestamp),
            plain("TX to   "@ + column(dest_addr) + "  "@ + payload, Tint::Cyan),
        ],
        EntryView::Heartbeat { timestamp, dest_addr } => seq![
            stamp(timestamp),
            plain("HB to   "@ + column(dest_addr), Tint::DarkGray),
        ],
        EntryView::Error { timestamp, message } => seq![
            stamp(timestamp),
            plain("ERR  "@ + message, Tint::Red),
        ],
        EntryView::SiPunch { timestamp, card_id, punches } => seq![
            stamp(timestamp),
            plain(
                "SI  card "@ + card_column(card_id) + "  "@ + punches_text(punches),
                Tint::Magenta,
            ),
        ],
        EntryView::CmdResult { timestamp, target, message, ok } => seq![
            stamp(timestamp),
            plain(
                "CMD  "@ + column(target) + "  "@ + message,
                if ok {
                    Tint::Green
                } else {
                    Tint::Red
                },
            ),
        ],
        EntryView::TestPunchResult { timestamp, card_id, station, time_s } => seq![
            stamp(timestamp),
            plain(
                "TEST card "@ + card_column(card_id) + "  "@ + punch_text((station, time_s)),
                Tint::Magenta,
            ),
        ],
        EntryView::ClearPunchResult { timestamp, message } => seq![
            stamp(timestamp),
            plain("CLR  "@ + message, Tint::Yellow),
        ],
        EntryView::Info { timestamp, message } => seq![
            stamp(timestamp),
            plain(message, Tint::White),
        ],
        EntryView::PunchAcked { timestamp, card_id, acked_by } => seq![
            stamp(timestamp),
            plain(
                "ACK  card "@ + card_column(card_id) + "  by "@ + decimal::dec(acked_by as nat),
                Tint::Green,
            ),
        ],
        EntryView::CmdApplied { timestamp, commander, message } => seq![
            stamp(timestamp),
            plain("CMD  "@ + column(commander) + "  "@ + message, Tint::Green),
        ],
    }
}

/// The time in front of a line.
fn stamp_span(timestamp: &String) -> (r: Span)
    ensures
        r@ == stamp(timestamp@),
{
    let mut text: String = String::new();
    text.push_str("[");
    text.push_str(timestamp.as_str());
    text.push_str("] ");
    assert(text@ =~= "["@ + timestamp@ + "] "@);
    Span { text, tint: Tint::DarkGray, dim: true }
}

/// `<name><address in its column><rest>`.
fn addressed(name: &str, addr: u16, rest: &str, message: &str) -> (r: String)
    ensures
        r@ == name@ + column(addr) + rest@ + message@,
{
    let mut out: String = String::new();
    out.push_str(name);
    decimal::push_padded(&mut out, addr as u64, 5, ' ');
    out.push_str(rest);
    out.push_str(message);
    assert(out@ =~= name@ + column(addr) + rest@ + message@);
    out
}

/// `<name><card in its column><rest>`.
fn carded(name: &str, card_id: u32, rest: &str) -> (r: String)
    ensures
        r@ == name@ + card_column(card_id) + rest@,
{
    let mut out: String = String::new();
    out.push_str(name);
    decimal::push_padded(&mut out, card_id as u64, 7, ' ');
    out.push_str(rest);
    assert(out@ =~= name@ + card_column(card_id) + rest@);
    out
}

/// A time and a plain piece.
fn two_spans(timestamp: &String, text: String, tint: Tint) -> (r: Vec<Span>)
    ensures
        spans(r@) == seq![stamp(timestamp@), plain(text@, tint)],
{
    let mut v: Vec<Span> = Vec::new();
    v.push(stamp_span(timestamp));
    v.push(Span { text, tint, dim: false });
    assert(spans(v@) =~= seq![stamp(timestamp@), plain(text@, tint)]);
    v
}

/// Writes a log entry as a line.
pub fn format_entry(entry: &LogEntry) -> (r: Vec<Span>)
    ensures
        spans(r@) == formatted(entry@),
{
    match entry {
        LogEntry::Rx { timestamp, src_addr, payload, rssi } => {
            let head = addressed("RX from ", *src_addr, "  ", "");
            proof {
                reveal_strlit("");
                assert(head@ =~= "RX from "@ + column(*src_addr) + "  "@);
            }
            let mut v = two_spans(timestamp, head, Tint::Green);
            let ghost two = spans(v@);
            v.push(Span { text: payload.clone(), tint: Tint::Green, dim: false });
            assert(spans(v@) =~= two.push(plain(payload@, Tint::Green)));
            let ghost three = spans(v@);
            assert(three =~= seq![
                stamp(timestamp@),
                plain("RX from "@ + column(*src_addr) + "  "@, Tint::Green),
                plain(payload@, Tint::Green),
            ]);
            if let Some(dbm) = rssi {
                let mut t: String = String::new();
                t.push_str("   RSSI: ");
                decimal::push_dec_signed(&mut t, *dbm as i64);
                t.push_str("dBm");
                assert(t@ =~= "   RSSI: "@ + decimal::dec_signed(*dbm as int) + "dBm"@);
                v.push(Span { text: t, tint: rssi_color(*dbm), dim: false });
                assert(spans(v@) =~= three.push(plain(t@, rssi_tint(*dbm))));
            }
            v
        },
        LogEntry::Tx { timestamp, dest_addr, payload } => two_spans(
            timestamp,
            addressed("TX to   ", *dest_addr, "  ", payload.as_str()),
            Tint::Cyan,
        ),
        LogEntry::Heartbeat { timestamp, dest_addr } => {
            let t = addressed("HB to   ", *dest_addr, "", "");
            proof {
                reveal_strlit("");
                assert(t@ =~= "HB to   "@ + column(*dest_addr));
            }
            two_spans(timestamp, t, Tint::DarkGray)
        },
        LogEntry::Error { timestamp, message } => {
            let mut t: String = String::new();
            t.push_str("ERR  ");
            t.push_str(message.as_str());
            assert(t@ =~= "ERR  "@ + message@);
            two_spans(timestamp, t, Tint::Red)
        },
        LogEntry::SiPunch { timestamp, card_id, punches } => {
            let mut t = carded("SI  card ", *card_id, "  ");
            push_punches(&mut t, punches);
            two_spans(timestamp, t, Tint::Magenta)
        },
        LogEntry::CmdResult { timestamp, target, message, ok } => two_spans(
            timestamp,
            addressed("CMD  ", *target, "  ", message.as_str()),
            if *ok {
                Tint::Green
            } else {
                Tint::Red
            },
        ),
        LogEntry::TestPunchResult { timestamp, card_id, station, time_s } => {
            let mut t = carded("TEST card ", *card_id, "  ");
            push_punch(&mut t, *station, *time_s);
            two_spans(timestamp, t, Tint::Magenta)
        },
        LogEntry::ClearPunchResult { timestamp, message } => {
            let mut t: String = String::new();
            t.push_str("CLR  ");
            t.push_str(message.as_str());
            assert(t@ =~= "CLR  "@ + message@);
            two_spans(timestamp, t, Tint::Yellow)
        },
        LogEntry::Info { timestamp, message } => two_spans(timestamp, message.clone(), Tint::White),
        LogEntry::PunchAcked { timestamp, card_id, acked_by } => {
            let mut t = carded("ACK  card ", *card_id, "  by ");
            decimal::push_dec(&mut t, *acked_by as u64);
            two_spans(timestamp, t, Tint::Green)
        },
        LogEntry::CmdApplied { timestamp, commander, message } => two_spans(
            timestamp,
            addressed("CMD  ", *commander, "  ", message.as_str()),
            Tint::Green,
        ),
    }
}

/// The part of the log in view.
#[derive(Debug, Clone, Copy, PartialEq, Eq, Structural)]
pub struct Window {
    pub start: usize,
    pub end: usize,
    /// How far the view is really scrolled back.
    pub scroll: usize,
}

/// The part of `total` entries that fits `height` lines, scrolled back by
/// `offset` but never past the oldest entry.
pub fn window(total: usize, height: usize, offset: usize) -> (r: Window)
    ensures
        r.scroll == if total < height {
            0
        } else if offset < total - height {
            offset as int
        } else {
            total - height
        },
        r.end == total - r.scroll,
        r.end - r.start == if total < height {
            total
        } else {
            height
        },
        r.start <= r.end <= total,
{
    let most: usize = total.saturating_sub(height);
    let scroll: usize = if offset < most {
        offset
    } else {
        most
    };
    let end: usize = total - scroll;
    let start: usize = end.saturating_sub(height);
    Window { start, end, scroll }
}

/// The title over the log.
pub fn log_title(scroll: usize) -> (r: String)
    ensures
        r@ == if scroll > 0 {
            " Traffic [+"@ + decimal::dec(scroll as nat) + "↓ to follow] "@
        } else {
            " Traffic "@
        },
{
    if scroll == 0 {
        return " Traffic ".to_owned();
    }
    let mut out: String = String::new();
    out.push_str(" Traffic [+");
    decimal::push_dec(&mut out, scroll as u64);
    out.push_str("↓ to follow] ");
    assert(out@ =~= " Traffic [+"@ + decimal::dec(scroll as nat) + "↓ to follow] "@);
    out
}

/// The line in which is typed.
pub fn input_line(app: &App) -> (r: String)
    ensures
        r@ == "> "@ + app.input@ + "_"@,
{
    let mut out: String = String::new();
    out.push_str("> ");
    out.push_str(app.input.as_str());
    out.push_str("_");
    assert(out@ =~= "> "@ + app.input@ + "_"@);
    out
}

/// A key of the keyboard.
#[derive(Debug, Clone, Copy, PartialEq, Eq, Structural)]
pub enum Key {
    Esc,
    Enter,
    Up,
    Down,
    Backspace,
    Char(char),
    Other,
}

/// What is typed after a key that is no command.
pub open spec fn typed(input: Seq<char>, key: Key) -> Seq<char> {
    match key {
        Key::Enter => Seq::empty(),
        Key::Backspace => if input.len() > 0 {
            input.drop_last()
        } else {
            input
        },
        Key::Char(c) => if c == 'q' {
            input
        } else {
            input.push(c)
        },
        _ => input,
    }
}

/// Takes a key. What was typed comes back at the end of the line, unless it is
/// empty. Escape and `q` end the session.
pub fn press(app: &mut App, key: Key) -> (r: Option<String>)
    requires
        old(app).scroll_offset < usize::MAX,
    ensures
        r is Some <==> key == Key::Enter && old(app).input@.len() > 0,
        r matches Some(m) ==> m@ == old(app).input@,
        final(app).input@ == typed(old(app).input@, key),
        final(app).should_quit == (old(app).should_quit || key == Key::Esc || key == Key::Char(
            'q',
        )),
        final(app).scroll_offset == (match key {
            Key::Up => old(app).scroll_offset + 1,
            Key::Down => if old(app).scroll_offset > 0 {
                old(app).scroll_offset - 1
            } else {
                0
            },
            _ => old(app).scroll_offset as int,
        }),
        *final(app) == (App {
            input: final(app).input,
            should_quit: final(app).should_quit,
            scroll_offset: final(app).scroll_offset,
            ..*old(app)
        }),
{
    match key {
        Key::Esc => {
            app.should_quit = true;
            None
        },
        Key::Enter => {
            let n: usize = text::chars(app.input.as_str()).len();
            if n == 0 {
                assert(app.input@ =~= Seq::empty());
                return None;
            }
            let msg = app.input.clone();
            let empty = String::new();
            assert(empty@ =~= Seq::empty());
            app.input = empty;
            Some(msg)
        },
        Key::Up => {
            app.scroll_up();
            None
        },
        Key::Down => {
            app.scroll_down();
            None
        },
        Key::Backspace => {
            let all = text::chars(app.input.as_str());
            let n: usize = all.len();
            if n > 0 {
                let front = vstd::slice::slice_subrange(all.as_slice(), 0, n - 1);
                app.input = text::string_of(front);
                assert(app.input@ =~= old(app).input@.drop_last());
            }
            None
        },
        Key::Char(c) => {
            if c == 'q' {
                app.should_quit = true;
            } else {
                app.input.push(c);
            }
            None
        },
        Key::Other => None,
    }
}

/// Whether all that happened is one more log entry.
pub open spec fn one_entry(before: App, after: App, e: EntryView) -> bool {
    &&& after.wf()
    &&& app::entries(after.log@) == app::logged(app::entries(before.log@), e)
    &&& after.scroll_offset == app::scrolled(
        app::entries(before.log@),
        before.scroll_offset as int,
    )
    &&& after == (App { log: after.log, scroll_offset: after.scroll_offset, ..before })
}

/// Whether the log can take another entry.
pub open spec fn ready(a: App) -> bool {
    a.wf() && a.scroll_offset < usize::MAX - 1
}

/// Something to ask of the radio.
#[derive(Debug)]
pub enum Request {
    Nothing,
    SetDest(u16),
    SendCommand { target: u16, secs: u32 },
    Send { dest: u16, payload: String },
}

/// A request as a value.
pub enum RequestView {
    Nothing,
    SetDest(u16),
    SendCommand { target: u16, secs: u32 },
    Send { dest: u16, payload: Seq<char> },
}

impl View for Request {
    type V = RequestView;

    open spec fn view(&self) -> RequestView {
        match *self {
            Request::Nothing => RequestView::Nothing,
            Request::SetDest(d) => RequestView::SetDest(d),
            Request::SendCommand { target, secs } => RequestView::SendCommand { target, secs },
            Request::Send { dest, payload } => RequestView::Send { dest, payload: payload@ },
        }
    }
}

/// Reads `<address> <seconds>` with white space around.
pub open spec fn parsed_cmd(s: Seq<char>) -> Option<(u16, u32)> {
    let t = text::trimmed(s);
    match (decimal::as_u16(text::head(t, ' ')), text::tail(t, ' ')) {
        (Some(target), Some(u)) => match decimal::as_u32(u) {
            Some(secs) => Some((target, secs)),
            None => None,
        },
        _ => None,
    }
}

/// What is asked of the radio for a typed line.
pub open spec fn requested(a: App, msg: Seq<char>) -> RequestView {
    if let Some(val) = text::strip(msg, "/dest "@) {
        match protocol::parsed_addr(val) {
            Some(n) => RequestView::SetDest(n),
            None => RequestView::Nothing,
        }
    } else if text::strip(msg, "/addr "@) is Some {
        RequestView::Nothing
    } else if let Some(val) = text::strip(msg, "/cmd "@) {
        match parsed_cmd(val) {
            Some((target, secs)) => RequestView::SendCommand { target, secs },
            None => RequestView::Nothing,
        }
    } else {
        RequestView::Send { dest: a.dest, payload: msg }
    }
}

/// The complaint about a typed line, if there is one.
pub open spec fn complaint(msg: Seq<char>) -> Option<Seq<char>> {
    if let Some(val) = text::strip(msg, "/dest "@) {
        if protocol::parsed_addr(val) is None {
            Some("invalid address: "@ + text::trimmed(val))
        } else {
            None
        }
    } else if let Some(val) = text::strip(msg, "/addr "@) {
        if protocol::parsed_addr(val) is None {
            Some("invalid address: "@ + text::trimmed(val))
        } else {
            None
        }
    } else if let Some(val) = text::strip(msg, "/cmd "@) {
        if parsed_cmd(val) is None {
            Some("usage: /cmd <target-addr> <heartbeat-secs>"@)
        } else {
            None
        }
    } else {
        None
    }
}

/// The own address after a typed line.
pub open spec fn own_addr_after(a: App, msg: Seq<char>) -> u16 {
    if text::strip(msg, "/dest "@) is Some {
        a.addr
    } else {
        match text::strip(msg, "/addr "@) {
            Some(val) => match protocol::parsed_addr(val) {
                Some(n) => n,
                None => a.addr,
            },
            None => a.addr,
        }
    }
}

/// Logs an error.
fn log_error(app: &mut App, timestamp: String, message: String)
    requires
        ready(*old(app)),
    ensures
        one_entry(
            *old(app),
            *final(app),
            EntryView::Error { timestamp: timestamp@, message: message@ },
        ),
{
    app.push_log(LogEntry::Error { timestamp, message });
}

/// The complaint about an address.
fn bad_address(val: &[char]) -> (r: String)
    ensures
        r@ == "invalid address: "@ + text::trimmed(val@),
{
    let mut out: String = String::new();
    out.push_str("invalid address: ");
    let t = text::string_of(text::trim(val));
    out.push_str(t.as_str());
    assert(out@ =~= "invalid address: "@ + text::trimmed(val@));
    out
}

/// Takes a typed line: a command of the client or a payload to send. What is
/// asked of the radio comes back.
pub fn submit(app: &mut App, msg: String, timestamp: String) -> (r: Request)
    requires
        ready(*old(app)),
    ensures
        final(app).wf(),
        r@ == requested(*old(app), msg@),
        complaint(msg@) matches Some(m) ==> one_entry(
            *old(app),
            *final(app),
            EntryView::Error { timestamp: timestamp@, message: m },
        ),
        complaint(msg@) is None ==> *final(app) == (App {
            dest: match requested(*old(app), msg@) {
                RequestView::SetDest(n) => n,
                _ => old(app).dest,
            },
            addr: own_addr_after(*old(app), msg@),
            ..*old(app)
        }),
{
    let all = text::chars(msg.as_str());
    let s = all.as_slice();
    if let Some(val) = text::strip_prefix(s, "/dest ") {
        return match protocol::parse_addr(val) {
            Some(n) => {
                app.dest = n;
                Request::SetDest(n)
            },
            None => {
                log_error(app, timestamp, bad_address(val));
                Request::Nothing
            },
        };
    }
    if let Some(val) = text::strip_prefix(s, "/addr ") {
        match protocol::parse_addr(val) {
            Some(n) => {
                app.addr = n;
            },
            None => {
                log_error(app, timestamp, bad_address(val));
            },
        }
        return Request::Nothing;
    }
    if let Some(val) = text::strip_prefix(s, "/cmd ") {
        let (first, second) = text::split_head(text::trim(val), ' ');
        if let (Some(target), Some(u)) = (decimal::parse_u16(first), second) {
            if let Some(secs) = decimal::parse_u32(u) {
                return Request::SendCommand { target, secs };
            }
        }
        log_error(app, timestamp, "usage: /cmd <target-addr> <heartbeat-secs>".to_owned());
        return Request::Nothing;
    }
    Request::Send { dest: app.dest, payload: msg }
}

/// The entry about a request that was carried out or failed, if there is one.
pub open spec fn request_entry(
    r: RequestView,
    error: Option<Seq<char>>,
    timestamp: Seq<char>,
) -> Option<EntryView> {
    match r {
        RequestView::SendCommand { target, secs } => Some(
            match error {
                Some(message) => EntryView::Error { timestamp, message },
                None => EntryView::Tx {
                    timestamp,
                    dest_addr: target,
                    payload: "CMD hb_interval="@ + decimal::dec(secs as nat),
                },
            },
        ),
        RequestView::Send { dest, payload } => Some(
            match error {
                Some(message) => EntryView::Error { timestamp, message },
                None => EntryView::Tx { timestamp, dest_addr: dest, payload },
            },
        ),
        _ => None,
    }
}

/// An optional text as a value.
pub open spec fn opt_text(o: Option<String>) -> Option<Seq<char>> {
    match o {
        Some(s) => Some(s@),
        None => None,
    }
}

/// Logs how a request went. A change of the destination is not logged.
pub fn request_done(app: &mut App, request: Request, error: Option<String>, timestamp: String)
    requires
        ready(*old(app)),
    ensures
        final(app).wf(),
        match request_entry(request@, opt_text(error), timestamp@) {
            Some(e) => one_entry(*old(app), *final(app), e),
            None => *final(app) == *old(app),
        },
{
    match request {
        Request::SendCommand { target, secs } => match error {
            Some(message) => log_error(app, timestamp, message),
            None => {
                let mut payload: String = String::new();
                payload.push_str("CMD hb_interval=");
                decimal::push_dec(&mut payload, secs as u64);
                assert(payload@ =~= "CMD hb_interval="@ + decimal::dec(secs as nat));
                app.push_log(LogEntry::Tx { timestamp, dest_addr: target, payload });
            },
        },
        Request::Send { dest, payload } => match error {
            Some(message) => log_error(app, timestamp, message),
            None => app.push_log(LogEntry::Tx { timestamp, dest_addr: dest, payload }),
        },
        _ => {},
    }
}

/// Whether the own heartbeat is due, where one is sent at all; the times are in
/// milliseconds.
pub fn heartbeat_due(heartbeat_interval: u64, now: u64, last: u64) -> (r: bool)
    ensures
        r == (heartbeat_interval > 0 && now >= last && (now - last) / 1000 >= heartbeat_interval),
{
    heartbeat_interval > 0 && now >= last && (now - last) / 1000 >= heartbeat_interval
}

/// Logs a heartbeat that was sent or failed.
pub fn heartbeat_done(app: &mut App, error: Option<String>, timestamp: String)
    requires
        ready(*old(app)),
    ensures
        one_entry(
            *old(app),
            *final(app),
            match opt_text(error) {
                Some(message) => EntryView::Error { timestamp: timestamp@, message },
                None => EntryView::Heartbeat { timestamp: timestamp@, dest_addr: old(app).dest },
            },
        ),
{
    match error {
        Some(message) => log_error(app, timestamp, message),
        None => {
            let dest_addr: u16 = app.dest;
            app.push_log(LogEntry::Heartbeat { timestamp, dest_addr });
        },
    }
}

/// Logs a packet that was received.
pub fn packet_received(app: &mut App, pkt: &ReceivedPacket, timestamp: String)
    requires
        ready(*old(app)),
    ensures
        one_entry(
            *old(app),
            *final(app),
            EntryView::Rx {
                timestamp: timestamp@,
                src_addr: pkt@.src_addr,
                payload: text::shown(pkt@.payload),
                rssi: pkt@.rssi,
            },
        ),
{
    let payload = text::from_utf8_lossy(payload_bytes(&pkt.payload));
    app.push_log(LogEntry::Rx { timestamp, src_addr: pkt.src_addr, payload, rssi: pkt.rssi });
}

/// Logs a failed look for a packet.
pub fn receive_failed(app: &mut App, error: String, timestamp: String)
    requires
        ready(*old(app)),
    ensures
        one_entry(
            *old(app),
            *final(app),
            EntryView::Error { timestamp: timestamp@, message: error@ },
        ),
{
    log_error(app, timestamp, error);
}

/// The punches of a card as stations and times.
pub open spec fn stations(ps: Seq<sportident::ControlPunch>) -> Seq<(u8, u32)> {
    Seq::new(ps.len(), |i: int| (ps[i].station, ps[i].time_s))
}

/// The payload to send for a card that was read here.
pub fn readout_payload(app: &App, readout: &CardReadout) -> (r: String)
    ensures
        r@ == sportident::addressed_payload(app.addr, app.dest, readout@),
{
    readout.to_addressed_payload(app.addr, app.dest)
}

/// Logs a card that was read here, after the error where sending it failed.
pub fn readout_done(
    app: &mut App,
    readout: &CardReadout,
    error: Option<String>,
    timestamp: String,
)
    requires
        ready(*old(app)),
    ensures
        final(app).wf(),
        ({
            let e = EntryView::SiPunch {
                timestamp: timestamp@,
                card_id: readout.card_id,
                punches: stations(readout.punches@),
            };
            match opt_text(error) {
                None => one_entry(*old(app), *final(app), e),
                Some(m) => {
                    let before = app::entries(old(app).log@);
                    let failed = app::logged(
                        before,
                        EntryView::Error {
                            timestamp: timestamp@,
                            message: "SI TX failed: "@ + m,
                        },
                    );
                    &&& app::entries(final(app).log@) == app::logged(failed, e)
                    &&& final(app).scroll_offset == app::scrolled(
                        failed,
                        app::scrolled(before, old(app).scroll_offset as int),
                    )
                },
            }
        }),
        *final(app) == (App {
            log: final(app).log,
            scroll_offset: final(app).scroll_offset,
            ..*old(app)
        }),
{
    if let Some(m) = error {
        let mut message: String = String::new();
        message.push_str("SI TX failed: ");
        message.push_str(m.as_str());
        assert(message@ =~= "SI TX failed: "@ + m@);
        app.push_log(LogEntry::Error { timestamp: timestamp.clone(), message });
    }
    let mut punches: Vec<(u8, u32)> = Vec::new();
    let mut i: usize = 0;
    while i < readout.punches.len()
        invariant
            i <= readout.punches@.len(),
            punches@ == stations(readout.punches@).take(i as int),
        decreases readout.punches@.len() - i,
    {
        punches.push((readout.punches[i].station, readout.punches[i].time_s));
        i += 1;
        assert(punches@ =~= stations(readout.punches@).take(i as int));
    }
    assert(punches@ =~= stations(readout.punches@));
    app.push_log(LogEntry::SiPunch { timestamp, card_id: readout.card_id, punches });
}

/// The entry about an event of the daemon; `None` for those that only change
/// what is known of a node.
pub open spec fn event_entry(e: status::StatusView, timestamp: Seq<char>) -> Option<EntryView> {
    match e {
        status::StatusView::Heartbeat { dest } => Some(
            EntryView::Heartbeat { timestamp, dest_addr: dest },
        ),
        status::StatusView::Tx { dest, payload } => Some(
            EntryView::Tx { timestamp, dest_addr: dest, payload },
        ),
        status::StatusView::Error(message) => Some(EntryView::Error { timestamp, message }),
        status::StatusView::CmdOk { target, setting } => Some(
            EntryView::CmdResult {
                timestamp,
                target,
                message: "acked: "@ + setting.wire(),
                ok: true,
            },
        ),
        status::StatusView::CmdErr { target, setting } => Some(
            EntryView::CmdResult {
                timestamp,
                target,
                message: "no ack: "@ + setting.wire(),
                ok: false,
            },
        ),
        status::StatusView::TestPunchOk { card_id, station, time_s } => Some(
            EntryView::TestPunchResult { timestamp, card_id, station, time_s },
        ),
        status::StatusView::ClearPunchOk { id } => Some(
            EntryView::ClearPunchResult {
                timestamp,
                message: "cleared unsent punch "@ + decimal::dec_signed(id as int),
            },
        ),
        status::StatusView::ClearPunchesOk { count } => Some(
            EntryView::ClearPunchResult {
                timestamp,
                message: "cleared unsent punches: "@ + decimal::dec(count as nat),
            },
        ),
        status::StatusView::PunchAckOk { card_id, acked_by } => Some(
            EntryView::PunchAcked { timestamp, card_id, acked_by },
        ),
        status::StatusView::CmdApplied { commander, setting } => Some(
            EntryView::CmdApplied { timestamp, commander, message: setting.wire() },
        ),
        status::StatusView::HeartbeatRx { .. } => None,
        status::StatusView::PunchRx { .. } => None,
    }
}

/// A word and a setting.
fn worded(word: &str, setting: protocol::Setting) -> (r: String)
    ensures
        r@ == word@ + setting.wire(),
{
    let mut out: String = String::new();
    out.push_str(word);
    out.push_str(setting.encode().as_str());
    assert(out@ =~= word@ + setting.wire());
    out
}

/// Takes an event of the daemon: logs it, or notes what it says of a node.
pub fn take_event(app: &mut App, event: StatusEvent, timestamp: String)
    requires
        ready(*old(app)),
        event@ matches status::StatusView::PunchRx { origin, .. } ==> app::known(
            old(app).nodes@,
            origin,
        ).punch_count < u64::MAX,
    ensures
        final(app).wf(),
        event_entry(event@, timestamp@) matches Some(e) ==> one_entry(*old(app), *final(app), e),
        event@ matches status::StatusView::PunchRx { origin, .. } ==> final(app).nodes@ == old(
            app,
        ).nodes@.insert(
            origin,
            (app::NodeStatus {
                punch_count: (app::known(old(app).nodes@, origin).punch_count + 1) as u64,
                ..app::known(old(app).nodes@, origin)
            }),
        ),
        event@ matches status::StatusView::HeartbeatRx { node, battery, si_present } ==> {
            &&& final(app).nodes@.dom().contains(node)
            &&& final(app).nodes@ == old(app).nodes@.insert(node, final(app).nodes@[node])
            &&& final(app).nodes@[node].last_heartbeat is Some
            &&& battery matches Some((pct, mv)) ==> final(app).nodes@[node].battery_pct == Some(pct)
                && final(app).nodes@[node].battery_mv == Some(mv)
            &&& battery is None ==> final(app).nodes@[node].battery_pct == app::known(
                old(app).nodes@,
                node,
            ).battery_pct && final(app).nodes@[node].battery_mv == app::known(
                old(app).nodes@,
                node,
            ).battery_mv
            &&& final(app).nodes@[node].si_present == if si_present is Some {
                si_present
            } else {
                app::known(old(app).nodes@, node).si_present
            }
            &&& final(app).nodes@[node].punch_count == app::known(
                old(app).nodes@,
                node,
            ).punch_count
        },
        event_entry(event@, timestamp@) is None ==> *final(app) == (App {
            nodes: final(app).nodes,
            ..*old(app)
        }),
{
    match event {
        StatusEvent::Heartbeat { dest } => app.push_log(
            LogEntry::Heartbeat { timestamp, dest_addr: dest },
        ),
        StatusEvent::Tx { dest, payload } => app.push_log(
            LogEntry::Tx { timestamp, dest_addr: dest, payload },
        ),
        StatusEvent::Error(message) => app.push_log(LogEntry::Error { timestamp, message }),
        StatusEvent::CmdOk { target, setting } => app.push_log(
            LogEntry::CmdResult {
                timestamp,
                target,
                message: worded("acked: ", setting),
                ok: true,
            },
        ),
        StatusEvent::CmdErr { target, setting } => app.push_log(
            LogEntry::CmdResult {
                timestamp,
                target,
                message: worded("no ack: ", setting),
                ok: false,
            },
        ),
        StatusEvent::TestPunchOk { card_id, station, time_s } => app.push_log(
            LogEntry::TestPunchResult { timestamp, card_id, station, time_s },
        ),
        StatusEvent::ClearPunchOk { id } => {
            let mut message: String = String::new();
            message.push_str("cleared unsent punch ");
            decimal::push_dec_signed(&mut message, id);
            assert(message@ =~= "cleared unsent punch "@ + decimal::dec_signed(id as int));
            app.push_log(LogEntry::ClearPunchResult { timestamp, message });
        },
        StatusEvent::ClearPunchesOk { count } => {
            let mut message: String = String::new();
            message.push_str("cleared unsent punches: ");
            decimal::push_dec(&mut message, count as u64);
            assert(message@ =~= "cleared unsent punches: "@ + decimal::dec(count as nat));
            app.push_log(LogEntry::ClearPunchResult { timestamp, message });
        },
        StatusEvent::PunchAckOk { card_id, acked_by } => app.push_log(
            LogEntry::PunchAcked { timestamp, card_id, acked_by },
        ),
        StatusEvent::CmdApplied { commander, setting } => {
            let message = setting.encode();
            app.push_log(LogEntry::CmdApplied { timestamp, commander, message });
        },
        StatusEvent::HeartbeatRx { node, battery, si_present } => app.record_heartbeat(
            node,
            battery,
            si_present,
        ),
        StatusEvent::PunchRx { origin, card_id } => app.record_punch(origin),
    }
}

/// A time of day is written as hours, minutes and seconds with colons between,
/// two digits each as far as they go, and stands for that time.
pub proof fn law_time_text_is_the_time(t: nat)
    ensures
        ({
            let f = text::split(time_text(t), ':');
            &&& f.len() == 3
            &&& decimal::all_digits(f[0]) && decimal::all_digits(f[1]) && decimal::all_digits(f[2])
            &&& f[0].len() >= 2 && f[1].len() == 2 && f[2].len() == 2
            &&& decimal::value(f[0]) * 3600 + decimal::value(f[1]) * 60 + decimal::value(f[2]) == t
            &&& decimal::value(f[1]) < 60
            &&& decimal::value(f[2]) < 60
        }),
{
    let h = decimal::pad(decimal::dec(t / 3600), 2, '0');
    let m = decimal::pad(decimal::dec(t % 3600 / 60), 2, '0');
    let s = decimal::pad(decimal::dec(t % 60), 2, '0');
    decimal::law_padding_keeps_the_value(t / 3600, 2);
    decimal::law_padding_keeps_the_value(t % 3600 / 60, 2);
    decimal::law_padding_keeps_the_value(t % 60, 2);
    lemma_two_digits(t % 3600 / 60);
    lemma_two_digits(t % 60);
    lemma_no_colon(h);
    lemma_no_colon(m);
    lemma_no_colon(s);
    assert(time_text(t) =~= h.push(':') + (m.push(':') + s));
    text::lemma_split_cons(h, ':', m.push(':') + s);
    text::lemma_split_cons(m, ':', s);
    text::lemma_split_cons(s, ':', Seq::empty());
    assert(text::split(time_text(t), ':') =~= seq![h, m, s]);
}

/// A number below a hundred has at most two digits.
proof fn lemma_two_digits(n: nat)
    requires
        n < 100,
    ensures
        decimal::dec(n).len() <= 2,
{
    if n >= 10 {
        decimal::law_written_number_is_its_digits(n);
        assert(decimal::dec(n / 10).len() == 1);
    }
}

/// Digits hold no colon.
proof fn lemma_no_colon(s: Seq<char>)
    requires
        decimal::all_digits(s),
    ensures
        !s.contains(':'),
{
    if s.contains(':') {
        let i = choose|i: int| 0 <= i < s.len() && s[i] == ':';
        assert(decimal::is_digit(s[i]));
    }
}

/// A typed line does what it says: `/dest` names where to send, `/addr` the own
/// address, `/cmd` a node and its interval; anything else is sent as it is to
/// where the terminal sends.
pub proof fn law_typed_line_is_obeyed(a: App, n: u16, secs: u32, msg: Seq<char>)
    ensures
        requested(a, "/dest "@ + decimal::dec(n as nat)) == RequestView::SetDest(n),
        complaint("/dest "@ + decimal::dec(n as nat)) is None,
        own_addr_after(a, "/dest "@ + decimal::dec(n as nat)) == a.addr,
        own_addr_after(a, "/addr "@ + decimal::dec(n as nat)) == n,
        requested(a, "/addr "@ + decimal::dec(n as nat)) == RequestView::Nothing,
        requested(
            a,
            "/cmd "@ + (decimal::dec(n as nat).push(' ') + decimal::dec(secs as nat)),
        ) == (RequestView::SendCommand { target: n, secs }),
        msg.len() > 0 && msg[0] != '/' ==> requested(a, msg) == (RequestView::Send {
            dest: a.dest,
            payload: msg,
        }) && complaint(msg) is None && own_addr_after(a, msg) == a.addr,
{
    reveal_strlit("/dest ");
    reveal_strlit("/addr ");
    reveal_strlit("/cmd ");
    let d = decimal::dec(n as nat);
    let s = decimal::dec(secs as nat);
    decimal::lemma_dec(n as nat);
    decimal::lemma_dec(secs as nat);
    decimal::lemma_dec_trimmed(n as nat);
    decimal::lemma_parse_dec(n as nat, u16::MAX as nat);
    decimal::lemma_parse_dec(secs as nat, u32::MAX as nat);
    text::lemma_strip("/dest "@, d);
    text::lemma_strip("/addr "@, d);
    text::lemma_strip_none("/addr "@ + d, "/dest "@, 1);
    let t = d.push(' ') + s;
    text::lemma_strip("/cmd "@, t);
    text::lemma_strip_none("/cmd "@ + t, "/dest "@, 1);
    text::lemma_strip_none("/cmd "@ + t, "/addr "@, 1);
    decimal::lemma_dec_without(n as nat, ' ');
    text::lemma_head_tail(d, ' ', s);
    assert(t[0] == d[0]);
    assert(t.last() == s.last());
    assert(decimal::is_digit(d[0]));
    assert(decimal::is_digit(s[s.len() - 1]));
    text::lemma_trimmed_same(t);
    if msg.len() > 0 && msg[0] != '/' {
        text::lemma_strip_none(msg, "/dest "@, 0);
        text::lemma_strip_none(msg, "/addr "@, 0);
        text::lemma_strip_none(msg, "/cmd "@, 0);
    }
}

/// What the terminal logs of an event names what the event names: where it was
/// sent to, the node that was commanded, the card and who acknowledged it.
pub proof fn law_event_is_logged_as_it_is(e: status::StatusView, timestamp: Seq<char>)
    ensures
        e matches status::StatusView::Heartbeat { dest } ==> event_entry(e, timestamp) == Some(
            EntryView::Heartbeat { timestamp, dest_addr: dest },
        ),
        e matches status::StatusView::Tx { dest, payload } ==> event_entry(e, timestamp) == Some(
            EntryView::Tx { timestamp, dest_addr: dest, payload },
        ),
        e matches status::StatusView::Error(m) ==> event_entry(e, timestamp) == Some(
            EntryView::Error { timestamp, message: m },
        ),
        e matches status::StatusView::CmdOk { target, .. } ==> (event_entry(
            e,
            timestamp,
        ) matches Some(EntryView::CmdResult { target: t, ok, .. }) && t == target && ok),
        e matches status::StatusView::CmdErr { target, .. } ==> (event_entry(
            e,
            timestamp,
        ) matches Some(EntryView::CmdResult { target: t, ok, .. }) && t == target && !ok),
        e matches status::StatusView::TestPunchOk { card_id, station, time_s } ==> event_entry(
            e,
            timestamp,
        ) == Some(EntryView::TestPunchResult { timestamp, card_id, station, time_s }),
        e matches status::StatusView::PunchAckOk { card_id, acked_by } ==> event_entry(
            e,
            timestamp,
        ) == Some(EntryView::PunchAcked { timestamp, card_id, acked_by }),
        e matches status::StatusView::CmdApplied { commander, setting } ==> event_entry(
            e,
            timestamp,
        ) == Some(EntryView::CmdApplied { timestamp, commander, message: setting.wire() }),
        event_entry(e, timestamp) is None <==> e is HeartbeatRx || e is PunchRx,
{
}

/// Digits that are filled up to the same text are the same.
proof fn lemma_same_column(a: Seq<char>, b: Seq<char>, width: nat)
    requires
        a.len() > 0 && decimal::all_digits(a),
        b.len() > 0 && decimal::all_digits(b),
        decimal::pad(a, width, ' ') == decimal::pad(b, width, ' '),
    ensures
        a == b,
{
    let p = decimal::pad(a, width, ' ');
    let q = decimal::pad(b, width, ' ');
    if a.len() < b.len() {
        assert(decimal::is_digit(b[0]));
        assert(q[q.len() - b.len()] == b[0]);
        assert(p[p.len() - b.len()] == ' ');
    } else if b.len() < a.len() {
        assert(decimal::is_digit(a[0]));
        assert(p[p.len() - a.len()] == a[0]);
        assert(q[q.len() - a.len()] == ' ');
    } else {
        assert forall|i: int| 0 <= i < a.len() implies a[i] == b[i] by {
            assert(p[p.len() - a.len() + i] == a[i]);
            assert(q[q.len() - b.len() + i] == b[i]);
        }
        assert(a =~= b);
    }
}

/// An address has at most five digits.
proof fn lemma_column(addr: u16)
    ensures
        column(addr).len() == 5,
        decimal::dec(addr as nat).len() > 0,
        decimal::all_digits(decimal::dec(addr as nat)),
        decimal::value(decimal::dec(addr as nat)) == addr,
{
    let n = addr as nat;
    decimal::lemma_dec(n);
    lemma_few_digits(n, 5);
}

/// A number below a power of ten has no more digits than that power.
proof fn lemma_few_digits(n: nat, k: nat)
    requires
        k == 1 && n < 10 || k == 2 && n < 100 || k == 3 && n < 1_000 || k == 4 && n < 10_000 || k
            == 5 && n < 100_000,
    ensures
        decimal::dec(n).len() <= k,
    decreases k,
{
    if n >= 10 {
        lemma_few_digits(n / 10, (k - 1) as nat);
    }
}

/// A text with an address in its column tells the address and what is behind it.
proof fn lemma_column_is_read(
    front: Seq<char>,
    a: u16,
    b: u16,
    p: Seq<char>,
    q: Seq<char>,
)
    requires
        front + column(a) + p == front + column(b) + q,
    ensures
        a == b,
        p == q,
{
    lemma_column(a);
    lemma_column(b);
    let s = front + column(a) + p;
    let t = front + column(b) + q;
    let n = front.len() as int;
    assert(s.subrange(n, n + 5) =~= column(a));
    assert(t.subrange(n, n + 5) =~= column(b));
    assert(s.skip(n + 5) =~= p);
    assert(t.skip(n + 5) =~= q);
    lemma_same_column(decimal::dec(a as nat), decimal::dec(b as nat), 5);
}

/// Lines about what was sent to different nodes differ, and so do lines about
/// different payloads.
pub proof fn law_sent_lines_differ(
    timestamp: Seq<char>,
    a: u16,
    b: u16,
    p: Seq<char>,
    q: Seq<char>,
)
    requires
        a != b || p != q,
    ensures
        formatted(EntryView::Tx { timestamp, dest_addr: a, payload: p }) != formatted(
            EntryView::Tx { timestamp, dest_addr: b, payload: q },
        ),
{
    let e = formatted(EntryView::Tx { timestamp, dest_addr: a, payload: p });
    let f = formatted(EntryView::Tx { timestamp, dest_addr: b, payload: q });
    if e == f {
        assert(e[1].text == f[1].text);
        let x = "TX to   "@ + column(a);
        let y = "TX to   "@ + column(b);
        assert(x + "  "@ + p =~= x + ("  "@ + p));
        assert(y + "  "@ + q =~= y + ("  "@ + q));
        lemma_column_is_read("TX to   "@, a, b, "  "@ + p, "  "@ + q);
        assert(("  "@ + p).skip("  "@.len() as int) =~= p);
        assert(("  "@ + q).skip("  "@.len() as int) =~= q);
    }
}

/// Lines about what was received from different nodes differ, and so do lines
/// about different payloads.
pub proof fn law_received_lines_differ(
    timestamp: Seq<char>,
    a: u16,
    b: u16,
    p: Seq<char>,
    q: Seq<char>,
    rssi: Option<i16>,
)
    requires
        a != b || p != q,
    ensures
        formatted(EntryView::Rx { timestamp, src_addr: a, payload: p, rssi }) != formatted(
            EntryView::Rx { timestamp, src_addr: b, payload: q, rssi },
        ),
{
    let g = formatted(EntryView::Rx { timestamp, src_addr: a, payload: p, rssi });
    let h = formatted(EntryView::Rx { timestamp, src_addr: b, payload: q, rssi });
    if g == h {
        assert(g[1].text == h[1].text);
        assert(g[2].text == p);
        assert(h[2].text == q);
        lemma_column_is_read("RX from "@, a, b, "  "@, "  "@);
    }
}

/// Lines about heartbeats to different nodes differ.
pub proof fn law_heartbeat_lines_differ(timestamp: Seq<char>, a: u16, b: u16)
    requires
        a != b,
    ensures
        formatted(EntryView::Heartbeat { timestamp, dest_addr: a }) != formatted(
            EntryView::Heartbeat { timestamp, dest_addr: b },
        ),
{
    let i = formatted(EntryView::Heartbeat { timestamp, dest_addr: a });
    let j = formatted(EntryView::Heartbeat { timestamp, dest_addr: b });
    if i == j {
        assert(i[1].text == j[1].text);
        let none = Seq::<char>::empty();
        assert("HB to   "@ + column(a) + none =~= "HB to   "@ + column(a));
        assert("HB to   "@ + column(b) + none =~= "HB to   "@ + column(b));
        lemma_column_is_read("HB to   "@, a, b, none, none);
    }
}

/// What was asked of the radio is logged as sent to that node, or as the error.
pub proof fn law_request_is_logged_as_it_went(
    dest: u16,
    payload: Seq<char>,
    m: Seq<char>,
    timestamp: Seq<char>,
)
    ensures
        request_entry(RequestView::Send { dest, payload }, None, timestamp) == Some(
            EntryView::Tx { timestamp, dest_addr: dest, payload },
        ),
        request_entry(RequestView::Send { dest, payload }, Some(m), timestamp) == Some(
            EntryView::Error { timestamp, message: m },
        ),
        request_entry(RequestView::SetDest(dest), None, timestamp) is None,
{
}

} // verus!
