//! The daemon's web interface: what it shows and which command a request is.

use vstd::prelude::*;
use crate::clock::secs_ago;
use crate::{clock, decimal, text};
use super::backend::from_hex;
use super::daemon_state::{DaemonState, LogEntry, NodeStatus};
use super::protocol::Setting;
use super::{backend, daemon, daemon_state, protocol, status};

verus! {

/// A node on the dashboard.
#[derive(Debug)]
pub struct NodeRow {
    pub addr: u16,
    pub last_heartbeat_secs_ago: Option<u64>,
    pub battery_pct: Option<u8>,
    pub battery_mv: Option<u16>,
    pub si_present: Option<bool>,
    pub last_punch_secs_ago: Option<u64>,
    pub last_rssi: Option<i16>,
    pub punch_count: u64,
    pub version: Option<String>,
}

/// A log line on the dashboard.
#[derive(Debug)]
pub struct LogLine {
    pub seq: u64,
    pub secs_ago: u64,
    pub line: String,
}

/// Everything on the dashboard.
#[derive(Debug)]
pub struct StatusPage {
    pub own_addr: u16,
    pub version: String,
    pub competition_id: String,
    pub radio_ready: bool,
    /// Whether the results server answers, where it is asked.
    pub roc_reachable: Option<bool>,
    /// By address.
    pub nodes: Vec<NodeRow>,
    /// Youngest first.
    pub log: Vec<LogLine>,
}

/// An optional text as a value.
pub open spec fn opt_text(o: Option<String>) -> Option<Seq<char>> {
    match o {
        Some(s) => Some(s@),
        None => None,
    }
}

/// Whether an age is that of a point in time, where there was one.
pub open spec fn is_age(a: Option<u64>, now: u64, at: Option<u64>) -> bool {
    match at {
        Some(t) => a matches Some(secs) && secs == clock::age(now, t),
        None => a is None,
    }
}

/// Whether a row shows what is known of a node at the time `now`.
pub open spec fn shows(row: NodeRow, s: NodeStatus, now: u64) -> bool {
    &&& is_age(row.last_heartbeat_secs_ago, now, s.last_heartbeat)
    &&& row.battery_pct == s.battery_pct
    &&& row.battery_mv == s.battery_mv
    &&& row.si_present == s.si_present
    &&& is_age(row.last_punch_secs_ago, now, s.last_punch)
    &&& row.last_rssi == s.last_rssi
    &&& row.punch_count == s.punch_count
    &&& opt_text(row.version) == opt_text(s.version)
}

/// An age, where there was a point in time.
fn age(now: u64, at: Option<u64>) -> (r: Option<u64>)
    ensures
        is_age(r, now, at),
{
    match at {
        Some(t) => Some(secs_ago(now, t)),
        None => None,
    }
}

/// An optional text again.
fn copy_text(t: &Option<String>) -> (r: Option<String>)
    ensures
        opt_text(r) == opt_text(*t),
{
    match t {
        Some(s) => Some(s.clone()),
        None => None,
    }
}

/// A node as a row.
fn node_row(addr: u16, s: &NodeStatus, now: u64) -> (r: NodeRow)
    ensures
        r.addr == addr,
        shows(r, *s, now),
{
    NodeRow {
        addr,
        last_heartbeat_secs_ago: age(now, s.last_heartbeat),
        battery_pct: s.battery_pct,
        battery_mv: s.battery_mv,
        si_present: s.si_present,
        last_punch_secs_ago: age(now, s.last_punch),
        last_rssi: s.last_rssi,
        punch_count: s.punch_count,
        version: copy_text(&s.version),
    }
}

/// The nodes by address: every node once.
fn node_rows(state: &DaemonState, now: u64) -> (r: Vec<NodeRow>)
    ensures
        forall|i: int, j: int| 0 <= i < j < r@.len() ==> r@[i].addr < r@[j].addr,
        forall|i: int| 0 <= i < r@.len() ==> state.nodes@.dom().contains((#[trigger] r@[i]).addr),
        forall|a: u16| #[trigger]
            state.nodes@.dom().contains(a) ==> exists|i: int|
                0 <= i < r@.len() && (#[trigger] r@[i]).addr == a,
        forall|i: int| 0 <= i < r@.len() ==> shows(#[trigger] r@[i], state.nodes@[r@[i].addr], now),
{
    broadcast use vstd::std_specs::hash::group_hash_axioms;

    let mut out: Vec<NodeRow> = Vec::new();
    let mut a: u32 = 0;
    while a < 65536
        invariant
            a <= 65536,
            forall|i: int, j: int| 0 <= i < j < out@.len() ==> out@[i].addr < out@[j].addr,
            forall|i: int| 0 <= i < out@.len() ==> (#[trigger] out@[i]).addr < a,
            forall|i: int|
                0 <= i < out@.len() ==> state.nodes@.dom().contains((#[trigger] out@[i]).addr),
            forall|b: u16|
                b < a && #[trigger] state.nodes@.dom().contains(b) ==> exists|i: int|
                    0 <= i < out@.len() && (#[trigger] out@[i]).addr == b,
            forall|i: int|
                0 <= i < out@.len() ==> shows(#[trigger] out@[i], state.nodes@[out@[i].addr], now),
        decreases 65536 - a,
    {
        let addr: u16 = a as u16;
        let ghost before = out@;
        if let Some(s) = state.nodes.get(&addr) {
            out.push(node_row(addr, s, now));
            assert(out@[out@.len() - 1].addr == addr);
            assert forall|b: u16| b < a + 1 && #[trigger] state.nodes@.dom().contains(b) implies exists|
                i: int,
            |
                0 <= i < out@.len() && (#[trigger] out@[i]).addr == b by {
                if b < a {
                    let i = choose|i: int| 0 <= i < before.len() && (#[trigger] before[i]).addr == b;
                    assert(out@[i].addr == b);
                } else {
                    assert(b == addr);
                }
            }
        } else {
            assert forall|b: u16| b < a + 1 && #[trigger] state.nodes@.dom().contains(b) implies exists|
                i: int,
            |
                0 <= i < out@.len() && (#[trigger] out@[i]).addr == b by {
                assert(b != addr);
            }
        }
        a += 1;
    }
    out
}

/// The log, youngest line first.
fn log_lines(log: &std::collections::VecDeque<LogEntry>, now: u64) -> (r: Vec<LogLine>)
    ensures
        r@.len() == log@.len(),
        forall|i: int|
            0 <= i < r@.len() ==> (#[trigger] r@[i]).seq == log@[log@.len() - 1 - i].seq
                && r@[i].line@ == log@[log@.len() - 1 - i].line@ && r@[i].secs_ago == clock::age(
                now,
                log@[log@.len() - 1 - i].at,
            ),
{
    let mut out: Vec<LogLine> = Vec::new();
    let mut i: usize = log.len();
    while i > 0
        invariant
            i <= log@.len(),
            out@.len() == log@.len() - i,
            forall|j: int|
                0 <= j < out@.len() ==> (#[trigger] out@[j]).seq == log@[log@.len() - 1 - j].seq
                    && out@[j].line@ == log@[log@.len() - 1 - j].line@ && out@[j].secs_ago
                    == clock::age(now, log@[log@.len() - 1 - j].at),
        decreases i,
    {
        i -= 1;
        let e = &log[i];
        out.push(LogLine { seq: e.seq, secs_ago: secs_ago(now, e.at), line: e.line.clone() });
    }
    out
}

/// What the dashboard shows at the time `now`, in nanoseconds of the wall clock.
pub fn build_status(
    own_addr: u16,
    version: &str,
    state: &DaemonState,
    radio_ready: bool,
    roc_reachable: Option<bool>,
    competition_id: &str,
    now: u64,
) -> (r: StatusPage)
    ensures
        r.own_addr == own_addr,
        r.version@ == version@,
        r.competition_id@ == competition_id@,
        r.radio_ready == radio_ready,
        r.roc_reachable == roc_reachable,
        forall|i: int, j: int| 0 <= i < j < r.nodes@.len() ==> r.nodes@[i].addr < r.nodes@[j].addr,
        forall|a: u16| #[trigger]
            state.nodes@.dom().contains(a) ==> exists|i: int|
                0 <= i < r.nodes@.len() && (#[trigger] r.nodes@[i]).addr == a,
        forall|i: int|
            0 <= i < r.nodes@.len() ==> state.nodes@.dom().contains((#[trigger] r.nodes@[i]).addr)
                && shows(r.nodes@[i], state.nodes@[r.nodes@[i].addr], now),
        r.log@.len() == state.log@.len(),
        forall|i: int|
            0 <= i < r.log@.len() ==> (#[trigger] r.log@[i]).seq == state.log@[state.log@.len() - 1
                - i].seq && r.log@[i].line@ == state.log@[state.log@.len() - 1 - i].line@
                && r.log@[i].secs_ago == clock::age(now, state.log@[state.log@.len() - 1 - i].at),
{
    let nodes = node_rows(state, now);
    let log = log_lines(&state.log, now);
    StatusPage {
        own_addr,
        version: version.to_owned(),
        competition_id: competition_id.to_owned(),
        radio_ready,
        roc_reachable,
        nodes,
        log,
    }
}

/// The value of `key` among form fields: that of the last field of this name.
pub open spec fn field(fields: Seq<Seq<char>>, key: Seq<char>) -> Option<Seq<char>>
    decreases fields.len(),
{
    if fields.len() == 0 {
        None
    } else if text::tail(fields.last(), '=') is Some && text::head(fields.last(), '=') == key {
        text::tail(fields.last(), '=')
    } else {
        field(fields.drop_last(), key)
    }
}

/// The value of `key` in the body of a form.
pub open spec fn form_value(body: Seq<char>, key: Seq<char>) -> Option<Seq<char>> {
    field(text::split(body, '&'), key)
}

/// Reads the value of `key` in the body of a form, `<key>=<value>` with `&`
/// between.
pub fn parse_form<'a>(body: &'a [char], key: &str) -> (r: Option<&'a [char]>)
    ensures
        text::opt_view(r) == form_value(body@, key@),
{
    let fields = text::split_all(body, '&');
    let ghost all = text::split(body@, '&');
    assert(text::views(fields@) == all);
    let mut i: usize = fields.len();
    assert(all.take(i as int) =~= all);
    while i > 0
        invariant
            i <= fields@.len(),
            all == text::split(body@, '&'),
            text::views(fields@) == all,
            field(all.take(i as int), key@) == field(all, key@),
        decreases i,
    {
        i -= 1;
        let ghost front = all.take(i + 1);
        assert(front.last() == fields@[i as int]@);
        assert(front.drop_last() =~= all.take(i as int));
        let (name, value) = text::split_head(fields[i], '=');
        if let Some(v) = value {
            if text::same(name, key) {
                return Some(v);
            }
        }
    }
    None
}

/// How a request is made.
#[derive(Debug, Clone, Copy, PartialEq, Eq, Structural)]
pub enum Method {
    Get,
    Post,
    Other,
}

/// What a request comes to.
#[derive(Debug)]
pub enum Route {
    /// The dashboard as data.
    StatusJson,
    /// The dashboard as a page.
    Page,
    /// A new competition.
    SetCompetition(String),
    /// A command line for the daemon. A form gets a page for an answer.
    Command { line: String, form: bool },
    /// Nothing; the request is answered with a status and words.
    Refuse { status: u16, words: &'static str },
}

/// What a request comes to, as a value.
pub enum RouteView {
    StatusJson,
    Page,
    SetCompetition(Seq<char>),
    Command { line: Seq<char>, form: bool },
    Refuse { status: u16, words: Seq<char> },
}

impl View for Route {
    type V = RouteView;

    open spec fn view(&self) -> RouteView {
        match *self {
            Route::StatusJson => RouteView::StatusJson,
            Route::Page => RouteView::Page,
            Route::SetCompetition(id) => RouteView::SetCompetition(id@),
            Route::Command { line, form } => RouteView::Command { line: line@, form },
            Route::Refuse { status, words } => RouteView::Refuse { status, words: words@ },
        }
    }
}

/// A bad request.
pub open spec fn bad(words: Seq<char>) -> RouteView {
    RouteView::Refuse { status: 400, words }
}

/// A command line.
pub open spec fn order(line: Seq<char>) -> RouteView {
    RouteView::Command { line, form: false }
}

/// An address among form values.
pub open spec fn form_addr(body: Seq<char>, key: Seq<char>) -> Option<u16> {
    match form_value(body, key) {
        Some(v) => decimal::as_u16(v),
        None => None,
    }
}

/// What a posted body comes to.
pub open spec fn posted(path: Seq<char>, body: Seq<char>) -> RouteView {
    if path == "/setcompetitionid"@ {
        match form_value(body, "competition_id"@) {
            Some(id) => if id.len() > 0 {
                RouteView::SetCompetition(id)
            } else {
                bad("missing/empty competition_id"@)
            },
            None => bad("missing/empty competition_id"@),
        }
    } else if path == "/testpunch"@ {
        match (
            form_value(body, "card_id"@),
            form_value(body, "station"@),
            form_value(body, "time_s"@),
        ) {
            (Some(c), Some(s), Some(t)) => RouteView::Command {
                line: "TESTPUNCH "@ + c + " "@ + s + " "@ + t,
                form: true,
            },
            _ => bad("missing card_id/station/time_s"@),
        }
    } else if path == "/send"@ {
        let payload = text::trim_end_of(body, "\r\n"@);
        if payload.len() == 0 {
            bad("empty payload"@)
        } else {
            order("SEND "@ + payload)
        }
    } else if path == "/sendbin"@ {
        let hex = text::trimmed(body);
        if hex.len() == 0 || backend::unhex(hex) is None {
            bad("empty or invalid hex payload"@)
        } else {
            order("SENDBIN "@ + hex)
        }
    } else if path == "/setdest"@ {
        match form_addr(body, "dest"@) {
            Some(dest) => order("SET_DEST "@ + decimal::dec(dest as nat)),
            None => bad("missing/invalid dest"@),
        }
    } else if path == "/cmd"@ {
        match (form_addr(body, "target"@), form_value(body, "heartbeat_interval_secs"@)) {
            (Some(target), Some(v)) => match decimal::as_u32(v) {
                Some(secs) => order(
                    "CMD "@ + decimal::dec(target as nat) + " "@ + decimal::dec(secs as nat),
                ),
                None => bad("missing/invalid target/heartbeat_interval_secs"@),
            },
            _ => bad("missing/invalid target/heartbeat_interval_secs"@),
        }
    } else if path == "/setcfg"@ {
        match (form_addr(body, "target"@), form_value(body, "setting"@)) {
            (Some(target), Some(v)) => match protocol::parsed_setting(v) {
                Some(setting) => order(
                    "SETCFG "@ + decimal::dec(target as nat) + " "@ + setting.wire(),
                ),
                None => bad("missing/invalid target/setting"@),
            },
            _ => bad("missing/invalid target/setting"@),
        }
    } else if path == "/queryversion"@ {
        match form_addr(body, "target"@) {
            Some(target) => RouteView::Command {
                line: "QUERYVERSION "@ + decimal::dec(target as nat),
                form: true,
            },
            None => bad("missing/invalid target"@),
        }
    } else if path == "/clearpunch"@ {
        match form_value(body, "id"@) {
            Some(v) => match decimal::as_i64(v) {
                Some(id) => order("CLEARPUNCH "@ + decimal::dec_signed(id as int)),
                None => bad("missing/invalid id"@),
            },
            None => bad("missing/invalid id"@),
        }
    } else if path == "/clearpunches"@ {
        order("CLEARPUNCHES"@)
    } else {
        RouteView::Refuse { status: 404, words: "not found"@ }
    }
}

/// What a request comes to.
pub open spec fn routed(method: Method, url: Seq<char>, body: Seq<char>) -> RouteView {
    let path = text::head(url, '?');
    if method == Method::Get && path == "/status.json"@ {
        RouteView::StatusJson
    } else if method == Method::Get && path == "/"@ {
        RouteView::Page
    } else if method == Method::Post {
        posted(path, body)
    } else {
        RouteView::Refuse { status: 404, words: "not found"@ }
    }
}

/// A bad request.
fn refuse(words: &'static str) -> (r: Route)
    ensures
        r@ == bad(words@),
{
    Route::Refuse { status: 400, words }
}

/// A command line of a name and a value.
fn command(name: &str, value: &str) -> (r: Route)
    ensures
        r@ == order(name@ + value@),
{
    let mut line: String = String::new();
    line.push_str(name);
    line.push_str(value);
    assert(line@ =~= name@ + value@);
    Route::Command { line, form: false }
}

/// An address among form values.
fn addr_value(body: &[char], key: &str) -> (r: Option<u16>)
    ensures
        r == form_addr(body@, key@),
{
    match parse_form(body, key) {
        Some(v) => decimal::parse_u16(v),
        None => None,
    }
}

/// A number in decimal.
fn decimal_text(n: u64) -> (r: String)
    ensures
        r@ == decimal::dec(n as nat),
{
    let mut out: String = String::new();
    decimal::push_dec(&mut out, n);
    assert(out@ =~= decimal::dec(n as nat));
    out
}

/// A new competition.
fn competition_request(body: &[char]) -> (r: Route)
    ensures
        r@ == (match form_value(body@, "competition_id"@) {
            Some(id) => if id.len() > 0 {
                RouteView::SetCompetition(id)
            } else {
                bad("missing/empty competition_id"@)
            },
            None => bad("missing/empty competition_id"@),
        }),
{
    match parse_form(body, "competition_id") {
        Some(id) => if id.len() > 0 {
            Route::SetCompetition(text::string_of(id))
        } else {
            refuse("missing/empty competition_id")
        },
        None => refuse("missing/empty competition_id"),
    }
}

/// A made-up punch.
fn test_punch_request(body: &[char]) -> (r: Route)
    ensures
        r@ == (match (
            form_value(body@, "card_id"@),
            form_value(body@, "station"@),
            form_value(body@, "time_s"@),
        ) {
            (Some(c), Some(s), Some(t)) => RouteView::Command {
                line: "TESTPUNCH "@ + c + " "@ + s + " "@ + t,
                form: true,
            },
            _ => bad("missing card_id/station/time_s"@),
        }),
{
    match (parse_form(body, "card_id"), parse_form(body, "station"), parse_form(body, "time_s")) {
        (Some(c), Some(s), Some(t)) => {
            let mut line: String = String::new();
            line.push_str("TESTPUNCH ");
            line.push_str(text::string_of(c).as_str());
            line.push_str(" ");
            line.push_str(text::string_of(s).as_str());
            line.push_str(" ");
            line.push_str(text::string_of(t).as_str());
            assert(line@ =~= "TESTPUNCH "@ + c@ + " "@ + s@ + " "@ + t@);
            Route::Command { line, form: true }
        },
        _ => refuse("missing card_id/station/time_s"),
    }
}

/// A payload in hexadecimal.
fn send_bytes_request(body: &[char]) -> (r: Route)
    ensures
        r@ == ({
            let hex = text::trimmed(body@);
            if hex.len() == 0 || backend::unhex(hex) is None {
                bad("empty or invalid hex payload"@)
            } else {
                order("SENDBIN "@ + hex)
            }
        }),
{
    let hex = text::string_of(text::trim(body));
    let n: usize = text::trim(body).len();
    if n == 0 || from_hex(hex.as_str()).is_none() {
        refuse("empty or invalid hex payload")
    } else {
        command("SENDBIN ", hex.as_str())
    }
}

/// A new heartbeat interval for a node.
fn interval_request(body: &[char]) -> (r: Route)
    ensures
        r@ == (match (form_addr(body@, "target"@), form_value(body@, "heartbeat_interval_secs"@)) {
            (Some(target), Some(v)) => match decimal::as_u32(v) {
                Some(secs) => order(
                    "CMD "@ + decimal::dec(target as nat) + " "@ + decimal::dec(secs as nat),
                ),
                None => bad("missing/invalid target/heartbeat_interval_secs"@),
            },
            _ => bad("missing/invalid target/heartbeat_interval_secs"@),
        }),
{
    if let (Some(target), Some(v)) = (
        addr_value(body, "target"),
        parse_form(body, "heartbeat_interval_secs"),
    ) {
        if let Some(secs) = decimal::parse_u32(v) {
            let mut line: String = String::new();
            line.push_str("CMD ");
            decimal::push_dec(&mut line, target as u64);
            line.push_str(" ");
            decimal::push_dec(&mut line, secs as u64);
            assert(line@ =~= "CMD "@ + decimal::dec(target as nat) + " "@ + decimal::dec(
                secs as nat,
            ));
            return Route::Command { line, form: false };
        }
    }
    refuse("missing/invalid target/heartbeat_interval_secs")
}

/// A new setting for a node.
fn setting_request(body: &[char]) -> (r: Route)
    ensures
        r@ == (match (form_addr(body@, "target"@), form_value(body@, "setting"@)) {
            (Some(target), Some(v)) => match protocol::parsed_setting(v) {
                Some(setting) => order(
                    "SETCFG "@ + decimal::dec(target as nat) + " "@ + setting.wire(),
                ),
                None => bad("missing/invalid target/setting"@),
            },
            _ => bad("missing/invalid target/setting"@),
        }),
{
    if let (Some(target), Some(v)) = (addr_value(body, "target"), parse_form(body, "setting")) {
        if let Some(setting) = Setting::parse_chars(v) {
            let mut line: String = String::new();
            line.push_str("SETCFG ");
            decimal::push_dec(&mut line, target as u64);
            line.push_str(" ");
            line.push_str(setting.encode().as_str());
            assert(line@ =~= "SETCFG "@ + decimal::dec(target as nat) + " "@ + setting.wire());
            return Route::Command { line, form: false };
        }
    }
    refuse("missing/invalid target/setting")
}

/// A punch to give up.
fn clear_request(body: &[char]) -> (r: Route)
    ensures
        r@ == (match form_value(body@, "id"@) {
            Some(v) => match decimal::as_i64(v) {
                Some(id) => order("CLEARPUNCH "@ + decimal::dec_signed(id as int)),
                None => bad("missing/invalid id"@),
            },
            None => bad("missing/invalid id"@),
        }),
{
    if let Some(v) = parse_form(body, "id") {
        if let Some(id) = decimal::parse_i64(v) {
            let mut line: String = String::new();
            line.push_str("CLEARPUNCH ");
            decimal::push_dec_signed(&mut line, id);
            assert(line@ =~= "CLEARPUNCH "@ + decimal::dec_signed(id as int));
            return Route::Command { line, form: false };
        }
    }
    refuse("missing/invalid id")
}

/// Decides what a request comes to.
pub fn route(method: Method, url: &str, body: &str) -> (r: Route)
    ensures
        r@ == routed(method, url@, body@),
{
    let all = text::chars(url);
    let (path, _) = text::split_head(all.as_slice(), '?');
    if method == Method::Get {
        if text::same(path, "/status.json") {
            return Route::StatusJson;
        }
        if text::same(path, "/") {
            return Route::Page;
        }
    }
    if method != Method::Post {
        return Route::Refuse { status: 404, words: "not found" };
    }
    let whole = text::chars(body);
    let b = whole.as_slice();
    if text::same(path, "/setcompetitionid") {
        return competition_request(b);
    }
    if text::same(path, "/testpunch") {
        return test_punch_request(b);
    }
    if text::same(path, "/send") {
        let payload = text::trim_end_chars(b, "\r\n");
        if payload.len() == 0 {
            return refuse("empty payload");
        }
        return command("SEND ", text::string_of(payload).as_str());
    }
    if text::same(path, "/sendbin") {
        return send_bytes_request(b);
    }
    if text::same(path, "/setdest") {
        return match addr_value(b, "dest") {
            Some(dest) => command("SET_DEST ", decimal_text(dest as u64).as_str()),
            None => refuse("missing/invalid dest"),
        };
    }
    if text::same(path, "/cmd") {
        return interval_request(b);
    }
    if text::same(path, "/setcfg") {
        return setting_request(b);
    }
    if text::same(path, "/queryversion") {
        return match addr_value(b, "target") {
            Some(target) => {
                let mut line: String = String::new();
                line.push_str("QUERYVERSION ");
                decimal::push_dec(&mut line, target as u64);
                assert(line@ =~= "QUERYVERSION "@ + decimal::dec(target as nat));
                Route::Command { line, form: true }
            },
            None => refuse("missing/invalid target"),
        };
    }
    if text::same(path, "/clearpunch") {
        return clear_request(b);
    }
    if text::same(path, "/clearpunches") {
        return Route::Command { line: "CLEARPUNCHES".to_owned(), form: false };
    }
    Route::Refuse { status: 404, words: "not found" }
}

/// An answer in words.
#[derive(Debug)]
pub struct Answer {
    pub status: u16,
    pub html: bool,
    pub words: &'static str,
}

/// The answer to a command, which only counts as taken where the daemon's loop
/// is there to take it.
pub fn command_answer(form: bool, taken: bool) -> (r: Answer)
    ensures
        !taken ==> r.status == 503 && !r.html && r.words@ == "daemon command loop is not running"@,
        taken && form ==> r.status == 200 && r.html && r.words@
            == "<html><body>Sent. <a href=\"/\">Back</a></body></html>"@,
        taken && !form ==> r.status == 200 && !r.html && r.words@ == "ok"@,
{
    if !taken {
        Answer { status: 503, html: false, words: "daemon command loop is not running" }
    } else if form {
        Answer {
            status: 200,
            html: true,
            words: "<html><body>Sent. <a href=\"/\">Back</a></body></html>",
        }
    } else {
        Answer { status: 200, html: false, words: "ok" }
    }
}

/// The answer to a new competition.
pub fn competition_answer() -> (r: Answer)
    ensures
        r.status == 200 && r.html && r.words@
            == "<html><body>Saved. <a href=\"/\">Back</a></body></html>"@,
{
    Answer {
        status: 200,
        html: true,
        words: "<html><body>Saved. <a href=\"/\">Back</a></body></html>",
    }
}

/// The last field of a name gives its value.
proof fn lemma_field(fields: Seq<Seq<char>>, key: Seq<char>, v: Seq<char>, i: int)
    requires
        0 <= i < fields.len(),
        !key.contains('='),
        fields[i] == key.push('=') + v,
        forall|j: int| i < j < fields.len() ==> text::head(#[trigger] fields[j], '=') != key,
    ensures
        field(fields, key) == Some(v),
    decreases fields.len(),
{
    text::lemma_head_tail(key, '=', v);
    if i < fields.len() - 1 {
        assert(text::head(fields[fields.len() - 1], '=') != key);
        let front = fields.drop_last();
        assert forall|j: int| i < j < front.len() implies text::head(#[trigger] front[j], '=')
            != key by {
            assert(text::head(fields[j], '=') != key);
        }
        lemma_field(front, key, v, i);
    }
}

/// A number holds neither of the characters that part a form.
proof fn lemma_number(n: nat)
    ensures
        !decimal::dec(n).contains('&'),
        !decimal::dec(n).contains('='),
{
    decimal::lemma_dec_without(n, '&');
    decimal::lemma_dec_without(n, '=');
}

/// A text of two parts without a character is without it.
proof fn lemma_without(a: Seq<char>, b: Seq<char>, c: char)
    requires
        !a.contains(c),
        !b.contains(c),
    ensures
        !(a + b).contains(c),
{
    if (a + b).contains(c) {
        let i = choose|i: int| 0 <= i < (a + b).len() && (a + b)[i] == c;
        if i < a.len() {
            assert(a[i] == c);
        } else {
            assert(b[i - a.len()] == c);
        }
    }
}

/// The names of the fields that a client sends.
proof fn lemma_field_names()
    ensures
        "dest="@ == "dest"@.push('='),
        "target="@ == "target"@.push('='),
        "&heartbeat_interval_secs="@ == "&"@ + "heartbeat_interval_secs"@.push('='),
        "card_id="@ == "card_id"@.push('='),
        "&station="@ == "&"@ + "station"@.push('='),
        "&time_s="@ == "&"@ + "time_s"@.push('='),
        "id="@ == "id"@.push('='),
        "&"@ == seq!['&'],
        !"dest"@.contains('=') && !"dest"@.contains('&'),
        !"target"@.contains('=') && !"target"@.contains('&'),
        !"heartbeat_interval_secs"@.contains('=') && !"heartbeat_interval_secs"@.contains('&'),
        !"card_id"@.contains('=') && !"card_id"@.contains('&'),
        !"station"@.contains('=') && !"station"@.contains('&'),
        !"time_s"@.contains('=') && !"time_s"@.contains('&'),
        !"id"@.contains('=') && !"id"@.contains('&'),
        "target"@ != "heartbeat_interval_secs"@,
        "card_id"@ != "station"@,
        "card_id"@ != "time_s"@,
        "station"@ != "time_s"@,
{
    reveal_strlit("dest=");
    reveal_strlit("dest");
    reveal_strlit("target=");
    reveal_strlit("target");
    reveal_strlit("&heartbeat_interval_secs=");
    reveal_strlit("heartbeat_interval_secs");
    reveal_strlit("card_id=");
    reveal_strlit("card_id");
    reveal_strlit("&station=");
    reveal_strlit("station");
    reveal_strlit("&time_s=");
    reveal_strlit("time_s");
    reveal_strlit("id=");
    reveal_strlit("id");
    reveal_strlit("&");
    assert("dest="@ =~= "dest"@.push('='));
    assert("target="@ =~= "target"@.push('='));
    assert("&heartbeat_interval_secs="@ =~= "&"@ + "heartbeat_interval_secs"@.push('='));
    assert("card_id="@ =~= "card_id"@.push('='));
    assert("&station="@ =~= "&"@ + "station"@.push('='));
    assert("&time_s="@ =~= "&"@ + "time_s"@.push('='));
    assert("id="@ =~= "id"@.push('='));
    assert("&"@ =~= seq!['&']);
    assert("target"@.len() != "heartbeat_interval_secs"@.len());
    assert("card_id"@[0] != "station"@[0]);
    assert("card_id"@[0] != "time_s"@[0]);
    assert("station"@[0] != "time_s"@[0]);
}

/// A form of one field.
proof fn lemma_form1(k: Seq<char>, v: Seq<char>)
    requires
        !k.contains('=') && !k.contains('&') && !v.contains('&'),
    ensures
        form_value(k.push('=') + v, k) == Some(v),
{
    assert(!seq!['='].contains('&'));
    lemma_without(k, seq!['='], '&');
    assert(k + seq!['='] =~= k.push('='));
    lemma_without(k.push('='), v, '&');
    text::lemma_split_cons(k.push('=') + v, '&', Seq::empty());
    lemma_field(seq![k.push('=') + v], k, v, 0);
}

/// A form of two fields.
proof fn lemma_form2(k: Seq<char>, v: Seq<char>, l: Seq<char>, w: Seq<char>)
    requires
        !k.contains('=') && !k.contains('&') && !v.contains('&'),
        !l.contains('=') && !l.contains('&') && !w.contains('&'),
        k != l,
    ensures
        form_value(k.push('=') + v + (seq!['&'] + l.push('=')) + w, k) == Some(v),
        form_value(k.push('=') + v + (seq!['&'] + l.push('=')) + w, l) == Some(w),
{
    let a = k.push('=') + v;
    let b = l.push('=') + w;
    assert(!seq!['='].contains('&'));
    lemma_without(k, seq!['='], '&');
    lemma_without(l, seq!['='], '&');
    assert(k + seq!['='] =~= k.push('='));
    assert(l + seq!['='] =~= l.push('='));
    lemma_without(k.push('='), v, '&');
    lemma_without(l.push('='), w, '&');
    let s = k.push('=') + v + (seq!['&'] + l.push('=')) + w;
    assert(s =~= a.push('&') + b);
    text::lemma_split_cons(a, '&', b);
    text::lemma_split_cons(b, '&', Seq::empty());
    let f = text::split(s, '&');
    assert(f =~= seq![a, b]);
    text::lemma_head_tail(l, '=', w);
    lemma_field(f, k, v, 0);
    lemma_field(f, l, w, 1);
}

/// A form of three fields.
proof fn lemma_form3(
    k: Seq<char>,
    v: Seq<char>,
    l: Seq<char>,
    w: Seq<char>,
    m: Seq<char>,
    x: Seq<char>,
)
    requires
        !k.contains('=') && !k.contains('&') && !v.contains('&'),
        !l.contains('=') && !l.contains('&') && !w.contains('&'),
        !m.contains('=') && !m.contains('&') && !x.contains('&'),
        k != l && k != m && l != m,
    ensures
        ({
            let s = k.push('=') + v + (seq!['&'] + l.push('=')) + w + (seq!['&'] + m.push('=')) + x;
            &&& form_value(s, k) == Some(v)
            &&& form_value(s, l) == Some(w)
            &&& form_value(s, m) == Some(x)
        }),
{
    let a = k.push('=') + v;
    let b = l.push('=') + w;
    let c = m.push('=') + x;
    assert(!seq!['='].contains('&'));
    lemma_without(k, seq!['='], '&');
    lemma_without(l, seq!['='], '&');
    lemma_without(m, seq!['='], '&');
    assert(k + seq!['='] =~= k.push('='));
    assert(l + seq!['='] =~= l.push('='));
    assert(m + seq!['='] =~= m.push('='));
    lemma_without(k.push('='), v, '&');
    lemma_without(l.push('='), w, '&');
    lemma_without(m.push('='), x, '&');
    let s = k.push('=') + v + (seq!['&'] + l.push('=')) + w + (seq!['&'] + m.push('=')) + x;
    assert(s =~= a.push('&') + (b.push('&') + c));
    text::lemma_split_cons(a, '&', b.push('&') + c);
    text::lemma_split_cons(b, '&', c);
    text::lemma_split_cons(c, '&', Seq::empty());
    let f = text::split(s, '&');
    assert(f =~= seq![a, b, c]);
    text::lemma_head_tail(l, '=', w);
    text::lemma_head_tail(m, '=', x);
    lemma_field(f, k, v, 0);
    lemma_field(f, l, w, 1);
    lemma_field(f, m, x, 2);
}

/// The command line that a client's call comes to.
pub open spec fn call_line(c: backend::ClientCall) -> Seq<char> {
    match c {
        backend::ClientCall::Send(b) => "SENDBIN "@ + backend::hex(b@),
        backend::ClientCall::SetDest(d) => "SET_DEST "@ + decimal::dec(d as nat),
        backend::ClientCall::Command { target, heartbeat_interval_secs } => "CMD "@ + decimal::dec(
            target as nat,
        ) + " "@ + decimal::dec(heartbeat_interval_secs as nat),
        backend::ClientCall::TestPunch { card_id, station, time_s } => "TESTPUNCH "@ + decimal::dec(
            card_id as nat,
        ) + " "@ + decimal::dec(station as nat) + " "@ + decimal::dec(time_s as nat),
        backend::ClientCall::ClearPunch(id) => "CLEARPUNCH "@ + decimal::dec_signed(id as int),
        backend::ClientCall::ClearPunches => "CLEARPUNCHES"@,
    }
}

/// A number with its sign holds no `&`.
proof fn lemma_signed(n: int)
    ensures
        !decimal::dec_signed(n).contains('&'),
{
    if n < 0 {
        decimal::lemma_dec_without((-n) as nat, '&');
        let s = decimal::dec_signed(n);
        if s.contains('&') {
            let i = choose|i: int| 0 <= i < s.len() && s[i] == '&';
            assert(decimal::dec((-n) as nat)[i - 1] == '&');
        }
    } else {
        decimal::lemma_dec_without(n as nat, '&');
    }
}

/// Hexadecimal digits are no white space.
proof fn lemma_hex_trimmed(b: Seq<u8>)
    requires
        b.len() > 0,
    ensures
        text::trimmed(backend::hex(b)) == backend::hex(b),
        forall|i: int| 0 <= i < backend::hex(b).len() ==> !text::is_space(
            #[trigger] backend::hex(b)[i],
        ),
    decreases b.len(),
{
    let s = backend::hex(b);
    let f = backend::hex(b.drop_last());
    if b.len() > 1 {
        lemma_hex_trimmed(b.drop_last());
    }
    assert forall|i: int| 0 <= i < s.len() implies !text::is_space(#[trigger] s[i]) by {
        if i < f.len() {
            assert(s[i] == f[i]);
        }
    }
    assert(s.len() > 0);
    assert(!text::is_space(s[0]));
    assert(!text::is_space(s[s.len() - 1]));
    text::lemma_trimmed_same(s);
}

/// The paths that a client posts to.
proof fn lemma_paths()
    ensures
        !"/sendbin"@.contains('?') && !"/setdest"@.contains('?') && !"/cmd"@.contains('?'),
        !"/testpunch"@.contains('?') && !"/clearpunch"@.contains('?'),
        !"/clearpunches"@.contains('?'),
        "/sendbin"@.len() == 8 && "/sendbin"@[1] == 's' && "/sendbin"@[3] == 'n',
        "/setdest"@.len() == 8 && "/setdest"@[1] == 's' && "/setdest"@[3] == 't',
        "/cmd"@.len() == 4,
        "/testpunch"@.len() == 10,
        "/clearpunch"@.len() == 11,
        "/clearpunches"@.len() == 13,
        "/setcompetitionid"@.len() == 17,
        "/send"@.len() == 5,
        "/setcfg"@.len() == 7,
        "/queryversion"@.len() == 13 && "/queryversion"@[1] == 'q',
        "/clearpunches"@[1] == 'c',
{
    reveal_strlit("/sendbin");
    reveal_strlit("/setdest");
    reveal_strlit("/cmd");
    reveal_strlit("/testpunch");
    reveal_strlit("/clearpunch");
    reveal_strlit("/clearpunches");
    reveal_strlit("/setcompetitionid");
    reveal_strlit("/send");
    reveal_strlit("/setcfg");
    reveal_strlit("/queryversion");
}

/// What a client asks of a running daemon reaches the daemon's loop as a command
/// line; an empty payload is refused instead.
pub proof fn law_client_call_reaches_daemon(c: backend::ClientCall)
    requires
        c matches backend::ClientCall::Send(b) ==> b@.len() > 0,
    ensures
        routed(Method::Post, c.path_text(), c.body_text()) matches RouteView::Command { line, .. }
            && line == call_line(c),
{
    lemma_paths();
    text::lemma_head_tail(c.path_text(), '?', Seq::empty());
    lemma_field_names();
    let body = c.body_text();
    match c {
        backend::ClientCall::Send(b) => {
            lemma_hex_trimmed(b@);
            backend::law_hex_round_trip(b@);
        },
        backend::ClientCall::SetDest(d) => {
            lemma_number(d as nat);
            lemma_form1("dest"@, decimal::dec(d as nat));
            decimal::lemma_parse_dec(d as nat, u16::MAX as nat);
        },
        backend::ClientCall::Command { target, heartbeat_interval_secs } => {
            lemma_number(target as nat);
            lemma_number(heartbeat_interval_secs as nat);
            lemma_form2(
                "target"@,
                decimal::dec(target as nat),
                "heartbeat_interval_secs"@,
                decimal::dec(heartbeat_interval_secs as nat),
            );
            decimal::lemma_parse_dec(target as nat, u16::MAX as nat);
            decimal::lemma_parse_dec(heartbeat_interval_secs as nat, u32::MAX as nat);
        },
        backend::ClientCall::TestPunch { card_id, station, time_s } => {
            lemma_number(card_id as nat);
            lemma_number(station as nat);
            lemma_number(time_s as nat);
            lemma_form3(
                "card_id"@,
                decimal::dec(card_id as nat),
                "station"@,
                decimal::dec(station as nat),
                "time_s"@,
                decimal::dec(time_s as nat),
            );
        },
        backend::ClientCall::ClearPunch(id) => {
            lemma_signed(id as int);
            lemma_form1("id"@, decimal::dec_signed(id as int));
            decimal::lemma_parse_dec_signed(id as int, i64::MIN as int, i64::MAX as int);
        },
        backend::ClientCall::ClearPunches => {},
    }
}

/// The first characters of the command lines.
proof fn lemma_lines()
    ensures
        "SET_DEST "@.len() == 9 && "SET_DEST "@[0] == 'S' && "SET_DEST "@[2] == 'T',
        "SEND "@.len() == 5 && "SEND "@[0] == 'S' && "SEND "@[2] == 'N' && "SEND "@[4] == ' ',
        "SENDBIN "@.len() == 8 && "SENDBIN "@[0] == 'S' && "SENDBIN "@[2] == 'N' && "SENDBIN "@[4]
            == 'B',
        "CMD "@.len() == 4 && "CMD "@[0] == 'C' && "CMD "@[1] == 'M',
        "SETCFG "@.len() == 7 && "SETCFG "@[0] == 'S',
        "QUERYVERSION "@.len() == 13 && "QUERYVERSION "@[0] == 'Q',
        "TESTPUNCH "@.len() == 10 && "TESTPUNCH "@[0] == 'T',
        "CLEARPUNCH "@.len() == 11 && "CLEARPUNCH "@[0] == 'C' && "CLEARPUNCH "@[1] == 'L'
            && "CLEARPUNCH "@[10] == ' ',
        "CLEARPUNCHES"@.len() == 12 && "CLEARPUNCHES"@[0] == 'C' && "CLEARPUNCHES"@[1] == 'L'
            && "CLEARPUNCHES"@[10] == 'E' && "CLEARPUNCHES"@[11] == 'S',
        " "@ == seq![' '],
{
    reveal_strlit("SET_DEST ");
    reveal_strlit("SEND ");
    reveal_strlit("SENDBIN ");
    reveal_strlit("CMD ");
    reveal_strlit("SETCFG ");
    reveal_strlit("QUERYVERSION ");
    reveal_strlit("TESTPUNCH ");
    reveal_strlit("CLEARPUNCH ");
    reveal_strlit("CLEARPUNCHES");
    reveal_strlit(" ");
    assert(" "@ =~= seq![' ']);
}

/// What the daemon is to do about a client's call.
pub open spec fn intended(d: daemon::DaemonView, c: backend::ClientCall, now: u64) -> (
    daemon::DaemonView,
    daemon::CommandStepView,
) {
    match c {
        backend::ClientCall::Send(b) => (
            d,
            daemon::only(
                daemon::EffectView::Send {
                    dest: d.dest,
                    bytes: b@,
                    shown: text::shown(b@),
                    purpose: daemon::Purpose::Payload,
                },
            ),
        ),
        backend::ClientCall::SetDest(dest) => (
            daemon::DaemonView { dest, ..d },
            daemon::nothing(),
        ),
        backend::ClientCall::Command { target, heartbeat_interval_secs } => daemon::commanded(
            d,
            now,
            Some((target, Setting::HeartbeatIntervalSecs(heartbeat_interval_secs))),
        ),
        backend::ClientCall::TestPunch { card_id, station, time_s } => (
            d,
            daemon::CommandStepView::RecordTest { card_id, station, time_s },
        ),
        backend::ClientCall::ClearPunch(id) => (d, daemon::CommandStepView::Clear(id)),
        backend::ClientCall::ClearPunches => (d, daemon::CommandStepView::ClearAll),
    }
}

/// The daemon does what a client asked of it.
pub proof fn law_client_call_is_obeyed(d: daemon::DaemonView, c: backend::ClientCall, now: u64)
    ensures
        daemon::obeyed(d, call_line(c), now) == intended(d, c, now),
{
    lemma_lines();
    let w = call_line(c);
    match c {
        backend::ClientCall::Send(b) => {
            text::lemma_strip_none(w, "SET_DEST "@, 2);
            text::lemma_strip_none(w, "SEND "@, 4);
            text::lemma_strip("SENDBIN "@, backend::hex(b@));
            backend::law_hex_round_trip(b@);
        },
        backend::ClientCall::SetDest(n) => {
            text::lemma_strip("SET_DEST "@, decimal::dec(n as nat));
            decimal::lemma_dec_trimmed(n as nat);
            decimal::lemma_parse_dec(n as nat, u16::MAX as nat);
        },
        backend::ClientCall::Command { target, heartbeat_interval_secs } => {
            text::lemma_strip_none(w, "SET_DEST "@, 0);
            text::lemma_strip_none(w, "SEND "@, 0);
            text::lemma_strip_none(w, "SENDBIN "@, 0);
            let a = decimal::dec(target as nat);
            let b = decimal::dec(heartbeat_interval_secs as nat);
            assert(w =~= "CMD "@ + (a.push(' ') + b));
            text::lemma_strip("CMD "@, a.push(' ') + b);
            decimal::lemma_dec_without(target as nat, ' ');
            text::lemma_head_tail(a, ' ', b);
            decimal::lemma_parse_dec(target as nat, u16::MAX as nat);
            decimal::lemma_parse_dec(heartbeat_interval_secs as nat, u32::MAX as nat);
        },
        backend::ClientCall::TestPunch { card_id, station, time_s } => {
            text::lemma_strip_none(w, "SET_DEST "@, 0);
            text::lemma_strip_none(w, "SEND "@, 0);
            text::lemma_strip_none(w, "SENDBIN "@, 0);
            text::lemma_strip_none(w, "CMD "@, 0);
            text::lemma_strip_none(w, "SETCFG "@, 0);
            text::lemma_strip_none(w, "QUERYVERSION "@, 0);
            let a = decimal::dec(card_id as nat);
            let b = decimal::dec(station as nat);
            let t = decimal::dec(time_s as nat);
            assert(w =~= "TESTPUNCH "@ + (a.push(' ') + (b.push(' ') + t)));
            text::lemma_strip("TESTPUNCH "@, a.push(' ') + (b.push(' ') + t));
            decimal::lemma_dec_without(card_id as nat, ' ');
            decimal::lemma_dec_without(station as nat, ' ');
            text::lemma_head_tail(a, ' ', b.push(' ') + t);
            text::lemma_head_tail(b, ' ', t);
            decimal::lemma_parse_dec(card_id as nat, u32::MAX as nat);
            decimal::lemma_parse_dec(station as nat, u8::MAX as nat);
            decimal::lemma_parse_dec(time_s as nat, u32::MAX as nat);
        },
        backend::ClientCall::ClearPunch(id) => {
            text::lemma_strip_none(w, "SET_DEST "@, 0);
            text::lemma_strip_none(w, "SEND "@, 0);
            text::lemma_strip_none(w, "SENDBIN "@, 0);
            text::lemma_strip_none(w, "CMD "@, 1);
            text::lemma_strip_none(w, "SETCFG "@, 0);
            text::lemma_strip_none(w, "QUERYVERSION "@, 0);
            text::lemma_strip_none(w, "TESTPUNCH "@, 0);
            text::lemma_strip("CLEARPUNCH "@, decimal::dec_signed(id as int));
            decimal::lemma_dec_signed_trimmed(id as int);
            decimal::lemma_parse_dec_signed(id as int, i64::MIN as int, i64::MAX as int);
        },
        backend::ClientCall::ClearPunches => {
            text::lemma_strip_none(w, "SET_DEST "@, 0);
            text::lemma_strip_none(w, "SEND "@, 0);
            text::lemma_strip_none(w, "SENDBIN "@, 0);
            text::lemma_strip_none(w, "CMD "@, 1);
            text::lemma_strip_none(w, "SETCFG "@, 0);
            text::lemma_strip_none(w, "QUERYVERSION "@, 0);
            text::lemma_strip_none(w, "TESTPUNCH "@, 0);
            text::lemma_strip_none(w, "CLEARPUNCH "@, 10);
            text::lemma_trimmed_same(w);
        },
    }
}

/// A row of the dashboard tells of a node what is known of it: its battery, its
/// reader, its strength, its punches and its version as they are, and its last
/// signs of life as full seconds ago.
pub proof fn law_row_tells_what_is_known(row: NodeRow, s: NodeStatus, now: u64, t: u64)
    requires
        shows(row, s, now),
        t <= now,
    ensures
        row.battery_pct == s.battery_pct,
        row.battery_mv == s.battery_mv,
        row.si_present == s.si_present,
        row.last_rssi == s.last_rssi,
        row.punch_count == s.punch_count,
        opt_text(row.version) == opt_text(s.version),
        s.last_heartbeat is None <==> row.last_heartbeat_secs_ago is None,
        s.last_punch is None <==> row.last_punch_secs_ago is None,
        s.last_heartbeat == Some(t) ==> (row.last_heartbeat_secs_ago matches Some(a) && a
            * 1_000_000_000 <= now - t < (a + 1) * 1_000_000_000),
        s.last_punch == Some(t) ==> (row.last_punch_secs_ago matches Some(a) && a * 1_000_000_000
            <= now - t < (a + 1) * 1_000_000_000),
{
}

/// A setting that is posted for a node reaches the daemon as the command line for
/// that node and that setting, and a question for its version as that question.
pub proof fn law_posted_setting_reaches_daemon(target: u16, setting: Setting)
    ensures
        routed(
            Method::Post,
            "/setcfg"@,
            "target"@.push('=') + decimal::dec(target as nat) + (seq!['&'] + "setting"@.push('='))
                + setting.wire(),
        ) == order("SETCFG "@ + decimal::dec(target as nat) + " "@ + setting.wire()),
        routed(
            Method::Post,
            "/queryversion"@,
            "target"@.push('=') + decimal::dec(target as nat),
        ) matches RouteView::Command { line, .. } && line == "QUERYVERSION "@ + decimal::dec(
            target as nat,
        ),
{
    lemma_paths();
    reveal_strlit("/setcfg");
    reveal_strlit("/queryversion");
    reveal_strlit("target");
    reveal_strlit("setting");
    text::lemma_head_tail("/setcfg"@, '?', Seq::empty());
    text::lemma_head_tail("/queryversion"@, '?', Seq::empty());
    lemma_number(target as nat);
    lemma_wire(setting);
    assert("target"@.len() != "setting"@.len());
    lemma_form2("target"@, decimal::dec(target as nat), "setting"@, setting.wire());
    lemma_form1("target"@, decimal::dec(target as nat));
    decimal::lemma_parse_dec(target as nat, u16::MAX as nat);
    protocol::law_setting_round_trip(setting);
}

/// The text of a setting holds no `&`.
proof fn lemma_wire(s: Setting)
    ensures
        !s.wire().contains('&'),
{
    reveal_strlit("hb_interval");
    reveal_strlit("tx_power_dbm");
    reveal_strlit("settings_mode");
    reveal_strlit("addr");
    reveal_strlit("dest");
    reveal_strlit("freq_hz");
    reveal_strlit("sync_word");
    reveal_strlit("sf");
    reveal_strlit("bw_hz");
    reveal_strlit("cr");
    reveal_strlit("1");
    reveal_strlit("0");
    match s {
        Setting::HeartbeatIntervalSecs(v) => lemma_number(v as nat),
        Setting::TxPowerDbm(v) => lemma_signed(v as int),
        Setting::SettingsMode(_) => {},
        Setting::Addr(v) => lemma_number(v as nat),
        Setting::Dest(v) => lemma_number(v as nat),
        Setting::FreqHz(v) => lemma_number(v as nat),
        Setting::SyncWord(v) => lemma_number(v as nat),
        Setting::Sf(v) => lemma_number(v as nat),
        Setting::BwHz(v) => lemma_number(v as nat),
        Setting::Cr(v) => lemma_number(v as nat),
    }
    assert(!s.value_text().contains('&'));
    assert(!s.key().push('=').contains('&'));
    lemma_without(s.key().push('='), s.value_text(), '&');
}

} // verus!
