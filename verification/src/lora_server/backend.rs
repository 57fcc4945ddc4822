//! What the daemon and its clients compute around the radio: heartbeats, the
//! radio's configuration, the next punches to send, and the exchange with a
//! running daemon over HTTP.

use vstd::prelude::*;
use crate::esp32_node::node::TAG_HB;
use crate::sportident;
use crate::sportident::{CardReadout, ControlPunch};
use crate::sx127x::{Bandwidth, CodingRate, Config, ReceivedPacket};
use crate::{decimal, text};
use super::args::Args;
use super::punch_buffer;
use super::punch_buffer::BufferedPunch;
use super::{radio, status};

pub use super::radio::{parse_rx_line, NetworkFilteredRadio, Radio};
pub use super::status::{parse_status_line, StatusEvent};

verus! {

/// A heartbeat of another node.
#[derive(Debug, Clone, Copy, PartialEq, Eq)]
pub struct Heartbeat {
    /// Per cent and millivolts, where the node reported them.
    pub battery: Option<(u8, u16)>,
    /// Whether a reader is connected to the node, where it reported that.
    pub si_present: Option<bool>,
}

/// A heartbeat in one of its three forms: `HB`, `HB <per cent> <millivolts>`,
/// or with a third field for the reader, where dashes stand for no battery.
pub open spec fn parsed_heartbeat(s: Seq<char>) -> Option<Heartbeat> {
    if s == "HB"@ {
        Some(Heartbeat { battery: None, si_present: None })
    } else {
        match text::strip(s, "HB "@) {
            Some(rest) => match text::tail(rest, ' ') {
                Some(t) => {
                    let pct = text::head(rest, ' ');
                    let mv = text::head(t, ' ');
                    let battery = status::parsed_battery(pct, mv);
                    match text::tail(t, ' ') {
                        None => match battery {
                            Some(b) => Some(Heartbeat { battery: Some(b), si_present: None }),
                            None => None,
                        },
                        Some(si) => if si != "1"@ && si != "0"@ {
                            None
                        } else if pct == "-"@ && mv == "-"@ {
                            Some(Heartbeat { battery: None, si_present: Some(si == "1"@) })
                        } else {
                            match battery {
                                Some(b) => Some(
                                    Heartbeat { battery: Some(b), si_present: Some(si == "1"@) },
                                ),
                                None => None,
                            }
                        },
                    }
                },
                None => None,
            },
            None => None,
        }
    }
}

/// Reads a heartbeat; `None` for any other payload.
pub fn parse_heartbeat(payload: &str) -> (r: Option<Heartbeat>)
    ensures
        r == parsed_heartbeat(payload@),
{
    let all = text::chars(payload);
    let s = all.as_slice();
    if text::same(s, "HB") {
        return Some(Heartbeat { battery: None, si_present: None });
    }
    let rest = match text::strip_prefix(s, "HB ") {
        Some(t) => t,
        None => return None,
    };
    let (pct, more) = text::split_head(rest, ' ');
    let more = match more {
        Some(t) => t,
        None => return None,
    };
    let (mv, si) = text::split_head(more, ' ');
    let battery = status::parse_battery(pct, mv);
    match si {
        None => match battery {
            Some(b) => Some(Heartbeat { battery: Some(b), si_present: None }),
            None => None,
        },
        Some(f) => {
            let present: bool = if text::same(f, "1") {
                true
            } else if text::same(f, "0") {
                false
            } else {
                return None;
            };
            proof {
                reveal_strlit("1");
                reveal_strlit("0");
                assert("0"@[0] != "1"@[0]);
            }
            if text::same(pct, "-") && text::same(mv, "-") {
                return Some(Heartbeat { battery: None, si_present: Some(present) });
            }
            match battery {
                Some(b) => Some(Heartbeat { battery: Some(b), si_present: Some(present) }),
                None => None,
            }
        },
    }
}

/// Bytes of a packed heartbeat.
pub const HB_LEN: usize = 5;

/// A heartbeat as a node packs it: `[tag][flags][per cent][millivolts: 2 bytes]`,
/// big-endian. The flags tell whether the battery was measured, whether it is
/// known that a reader is connected, and whether one is.
pub open spec fn parsed_packed_heartbeat(b: Seq<u8>) -> Option<Heartbeat> {
    if b.len() == HB_LEN && b[0] == TAG_HB {
        Some(
            Heartbeat {
                battery: if b[1] % 2 == 1 {
                    Some((b[2], (b[3] * 256 + b[4]) as u16))
                } else {
                    None
                },
                si_present: if b[1] / 2 % 2 == 1 {
                    Some(b[1] / 4 % 2 == 1)
                } else {
                    None
                },
            },
        )
    } else {
        None
    }
}

/// Reads a packed heartbeat.
pub fn parse_packed_heartbeat(bytes: &[u8]) -> (r: Option<Heartbeat>)
    ensures
        r == parsed_packed_heartbeat(bytes@),
{
    if bytes.len() != HB_LEN || bytes[0] != TAG_HB {
        return None;
    }
    let flags: u8 = bytes[1];
    Some(
        Heartbeat {
            battery: if flags % 2 == 1 {
                Some((bytes[2], bytes[3] as u16 * 256 + bytes[4] as u16))
            } else {
                None
            },
            si_present: if flags / 2 % 2 == 1 {
                Some(flags / 4 % 2 == 1)
            } else {
                None
            },
        },
    )
}

/// Why a configuration of the radio was refused.
#[derive(Debug, Clone, Copy, PartialEq, Eq, Structural)]
pub enum ConfigError {
    Bandwidth(u32),
    CodingRate(u8),
    SpreadingFactor(u8),
}

impl ConfigError {
    /// The error in words.
    pub open spec fn words(self) -> Seq<char> {
        match self {
            ConfigError::Bandwidth(b) => "unsupported bandwidth "@ + decimal::dec(b as nat)
                + "Hz"@,
            ConfigError::CodingRate(c) => "unsupported coding rate 4/"@ + decimal::dec(c as nat)
                + " — use 5, 6, 7, or 8"@,
            ConfigError::SpreadingFactor(f) => "unsupported spreading factor "@ + decimal::dec(
                f as nat,
            ) + " — use 7-12"@,
        }
    }

    /// The error in words.
    pub fn message(&self) -> (r: String)
        ensures
            r@ == self.words(),
    {
        let mut out: String = String::new();
        match self {
            ConfigError::Bandwidth(b) => {
                out.push_str("unsupported bandwidth ");
                decimal::push_dec(&mut out, *b as u64);
                out.push_str("Hz");
            },
            ConfigError::CodingRate(c) => {
                out.push_str("unsupported coding rate 4/");
                decimal::push_dec(&mut out, *c as u64);
                out.push_str(" — use 5, 6, 7, or 8");
            },
            ConfigError::SpreadingFactor(f) => {
                out.push_str("unsupported spreading factor ");
                decimal::push_dec(&mut out, *f as u64);
                out.push_str(" — use 7-12");
            },
        }
        assert(out@ =~= self.words());
        out
    }
}

/// Whether some bandwidth has this many hertz.
pub open spec fn bandwidth_known(hz: u32) -> bool {
    exists|b: Bandwidth| b.in_hz() == hz
}

/// Whether some coding rate has this denominator.
pub open spec fn coding_rate_known(d: u8) -> bool {
    exists|c: CodingRate| c.den() == d
}

/// A byte read as a signed number.
pub open spec fn signed(b: u8) -> int {
    if b < 128 {
        b as int
    } else {
        b - 256
    }
}

/// The configuration of the radio. The bandwidth is looked at first, then the
/// coding rate, then the spreading factor.
pub fn build_sx127x_config(args: &Args) -> (r: Result<Config, ConfigError>)
    requires
        args.freq * 1_000_000 <= u32::MAX,
    ensures
        !bandwidth_known(args.bw_hz) ==> r == Err::<Config, ConfigError>(
            ConfigError::Bandwidth(args.bw_hz),
        ),
        bandwidth_known(args.bw_hz) && !coding_rate_known(args.cr) ==> r == Err::<
            Config,
            ConfigError,
        >(ConfigError::CodingRate(args.cr)),
        bandwidth_known(args.bw_hz) && coding_rate_known(args.cr) && !(7 <= args.sf <= 12) ==> r
            == Err::<Config, ConfigError>(ConfigError::SpreadingFactor(args.sf)),
        bandwidth_known(args.bw_hz) && coding_rate_known(args.cr) && 7 <= args.sf <= 12 ==> r is Ok,
        r matches Ok(c) ==> {
            &&& c.freq_hz == args.freq * 1_000_000
            &&& c.addr == args.addr
            &&& c.spreading_factor == args.sf
            &&& c.bandwidth.in_hz() == args.bw_hz
            &&& c.coding_rate.den() == args.cr
            &&& c.sync_word == args.sync_word
            &&& c.preamble_len == 8
            &&& c.tx_power_dbm == signed(args.power)
            &&& c.crc_on
        },
{
    let bandwidth = match Bandwidth::from_hz(args.bw_hz) {
        Some(b) => b,
        None => return Err(ConfigError::Bandwidth(args.bw_hz)),
    };
    assert(bandwidth.in_hz() == args.bw_hz);
    let coding_rate = match CodingRate::from_denominator(args.cr) {
        Some(c) => c,
        None => return Err(ConfigError::CodingRate(args.cr)),
    };
    assert(coding_rate.den() == args.cr);
    if args.sf < 7 || args.sf > 12 {
        return Err(ConfigError::SpreadingFactor(args.sf));
    }
    let tx_power_dbm: i8 = if args.power < 128 {
        args.power as i8
    } else {
        (args.power as i16 - 256) as i8
    };
    Ok(
        Config {
            freq_hz: args.freq * 1_000_000,
            addr: args.addr,
            spreading_factor: args.sf,
            bandwidth,
            coding_rate,
            sync_word: args.sync_word,
            preamble_len: 8,
            tx_power_dbm,
            crc_on: true,
        },
    )
}

/// How many rows at the front are punches of one card.
pub open spec fn run_length(rows: Seq<punch_buffer::BufferedView>, card_id: u32) -> int
    decreases rows.len(),
{
    if rows.len() > 0 && rows[0].card_id == card_id {
        1 + run_length(rows.skip(1), card_id)
    } else {
        0
    }
}

/// The front of `rows` that is of one card is bounded, uniform and cannot be
/// longer.
pub proof fn lemma_run_length(rows: Seq<punch_buffer::BufferedView>, card_id: u32)
    ensures
        0 <= run_length(rows, card_id) <= rows.len(),
        forall|i: int| 0 <= i < run_length(rows, card_id) ==> #[trigger] rows[i].card_id == card_id,
        run_length(rows, card_id) < rows.len() ==> rows[run_length(rows, card_id)].card_id
            != card_id,
    decreases rows.len(),
{
    if rows.len() > 0 && rows[0].card_id == card_id {
        let t = rows.skip(1);
        lemma_run_length(t, card_id);
        let n = run_length(t, card_id);
        assert forall|i: int| 0 <= i < 1 + n implies #[trigger] rows[i].card_id == card_id by {
            if i > 0 {
                assert(t[i - 1] == rows[i]);
            }
        }
        if 1 + n < rows.len() {
            assert(t[n] == rows[1 + n]);
        }
    }
}

/// The rows that go out together: the oldest and those right behind it of the
/// same card.
pub open spec fn first_card(rows: Seq<punch_buffer::BufferedView>) -> Seq<
    punch_buffer::BufferedView,
> {
    rows.take(run_length(rows, rows[0].card_id))
}

/// The punches of rows.
pub open spec fn punches_of(rows: Seq<punch_buffer::BufferedView>) -> Seq<ControlPunch> {
    Seq::new(
        rows.len(),
        |i: int| ControlPunch { station: rows[i].station, time_s: rows[i].time_s },
    )
}

/// What goes out together is the oldest row and those right behind it of the same
/// card, all of them, each as it was recorded.
pub proof fn law_batch_is_the_oldest_card(rows: Seq<punch_buffer::BufferedView>, i: int)
    requires
        rows.len() > 0,
    ensures
        ({
            let n = first_card(rows).len();
            &&& 1 <= n <= rows.len()
            &&& punches_of(first_card(rows)).len() == n
            &&& n < rows.len() ==> rows[n as int].card_id != rows[0].card_id
            &&& 0 <= i < n ==> {
                &&& first_card(rows)[i] == rows[i]
                &&& rows[i].card_id == rows[0].card_id
                &&& punches_of(first_card(rows))[i].station == rows[i].station
                &&& punches_of(first_card(rows))[i].time_s == rows[i].time_s
            }
        }),
{
    lemma_run_length(rows, rows[0].card_id);
}

/// Punches of one card that go out in one payload.
#[derive(Debug)]
pub struct Batch {
    pub card_id: u32,
    /// The rows to note as sent once it is acknowledged.
    pub row_ids: Vec<i64>,
    pub payload: String,
}

/// The batch of unsent local rows, oldest first: the punches of the first card,
/// addressed from this node to `dest`. `None` where no row is left.
pub fn next_local_batch(unsent: &Vec<BufferedPunch>, own_addr: u16, dest: u16) -> (r: Option<Batch>)
    ensures
        r is None <==> unsent@.len() == 0,
        r matches Some(b) ==> {
            let rows = first_card(punch_buffer::views(unsent@));
            &&& rows.len() >= 1
            &&& b.card_id == unsent@[0].card_id
            &&& b.row_ids@ == Seq::new(rows.len(), |i: int| rows[i].id)
            &&& b.payload@ == sportident::addressed_payload(
                own_addr,
                dest,
                sportident::ReadoutView { card_id: b.card_id, punches: punches_of(rows) },
            )
        },
{
    if unsent.len() == 0 {
        return None;
    }
    let ghost all = punch_buffer::views(unsent@);
    let card_id: u32 = unsent[0].card_id;
    let ghost n = run_length(all, card_id);
    proof {
        lemma_run_length(all, card_id);
    }
    let mut row_ids: Vec<i64> = Vec::new();
    let mut punches: Vec<ControlPunch> = Vec::new();
    let mut i: usize = 0;
    while i < unsent.len() && unsent[i].card_id == card_id
        invariant
            all == punch_buffer::views(unsent@),
            n == run_length(all, card_id),
            0 <= n <= all.len(),
            forall|j: int| 0 <= j < n ==> #[trigger] all[j].card_id == card_id,
            n < all.len() ==> all[n].card_id != card_id,
            i <= n,
            row_ids@ == Seq::new(i as nat, |j: int| all[j].id),
            punches@ == punches_of(all.take(i as int)),
        decreases unsent@.len() - i,
    {
        assert(all[i as int].card_id == card_id);
        row_ids.push(unsent[i].id);
        punches.push(ControlPunch { station: unsent[i].station, time_s: unsent[i].time_s });
        i += 1;
        assert(row_ids@ =~= Seq::new(i as nat, |j: int| all[j].id));
        assert(punches@ =~= punches_of(all.take(i as int)));
    }
    assert(i == n) by {
        if i < n {
            assert(all[i as int].card_id == card_id);
        }
    }
    let ghost rows = first_card(all);
    assert(rows =~= all.take(n));
    assert(row_ids@ =~= Seq::new(rows.len(), |j: int| rows[j].id));
    let readout = CardReadout { card_id, punches };
    let payload = readout.to_addressed_payload(own_addr, dest);
    Some(Batch { card_id, row_ids, payload })
}

/// The digit of a value below 16.
pub open spec fn hex_digit(v: u8) -> char {
    if v < 10 {
        (48 + v) as char
    } else {
        (87 + v) as char
    }
}

/// The value of a hexadecimal digit, small or large.
pub open spec fn hex_value(c: char) -> Option<u8> {
    if '0' <= c <= '9' {
        Some((c as int - 48) as u8)
    } else if 'a' <= c <= 'f' {
        Some((c as int - 87) as u8)
    } else if 'A' <= c <= 'F' {
        Some((c as int - 55) as u8)
    } else {
        None
    }
}

/// Bytes in hexadecimal, two digits each.
pub open spec fn hex(b: Seq<u8>) -> Seq<char>
    decreases b.len(),
{
    if b.len() == 0 {
        Seq::empty()
    } else {
        hex(b.drop_last()).push(hex_digit(b.last() / 16)).push(hex_digit(b.last() % 16))
    }
}

/// The bytes that pairs of hexadecimal digits stand for.
pub open spec fn unhex(s: Seq<char>) -> Option<Seq<u8>>
    decreases s.len(),
{
    if s.len() == 0 {
        Some(Seq::empty())
    } else if s.len() == 1 {
        None
    } else {
        match (unhex(s.take(s.len() - 2)), hex_value(s[s.len() - 2]), hex_value(s[s.len() - 1])) {
            (Some(front), Some(h), Some(l)) => Some(front.push((h * 16 + l) as u8)),
            _ => None,
        }
    }
}

/// The digit of a value below 16.
fn digit(v: u8) -> (c: char)
    requires
        v < 16,
    ensures
        c == hex_digit(v),
{
    if v < 10 {
        (48 + v) as char
    } else {
        (87 + v) as char
    }
}

/// The value of a hexadecimal digit.
fn digit_value(c: char) -> (r: Option<u8>)
    ensures
        r == hex_value(c),
{
    if '0' <= c && c <= '9' {
        Some((c as u32 - '0' as u32) as u8)
    } else if 'a' <= c && c <= 'f' {
        Some((c as u32 - 'a' as u32 + 10) as u8)
    } else if 'A' <= c && c <= 'F' {
        Some((c as u32 - 'A' as u32 + 10) as u8)
    } else {
        None
    }
}

/// Writes bytes in hexadecimal.
pub fn to_hex(bytes: &[u8]) -> (r: String)
    ensures
        r@ == hex(bytes@),
{
    let mut out: String = String::new();
    assert(out@ =~= Seq::empty());
    let mut i: usize = 0;
    while i < bytes.len()
        invariant
            i <= bytes@.len(),
            out@ == hex(bytes@.take(i as int)),
        decreases bytes@.len() - i,
    {
        assert(bytes@.take(i + 1).drop_last() =~= bytes@.take(i as int));
        out.push(digit(bytes[i] / 16));
        out.push(digit(bytes[i] % 16));
        i += 1;
    }
    assert(bytes@.take(bytes@.len() as int) =~= bytes@);
    out
}

/// Reads bytes in hexadecimal; `None` for anything but pairs of digits.
pub fn from_hex(s: &str) -> (r: Option<Vec<u8>>)
    ensures
        r matches Some(v) ==> unhex(s@) == Some(v@),
        r is None ==> unhex(s@) is None,
{
    let all = text::chars(s);
    let mut out: Vec<u8> = Vec::new();
    let mut i: usize = 0;
    assert(out@ =~= Seq::empty());
    while i < all.len()
        invariant
            all@ == s@,
            i <= all@.len(),
            i % 2 == 0,
            unhex(all@.take(i as int)) == Some(out@),
        decreases all@.len() - i,
    {
        if i + 1 == all.len() {
            proof {
                lemma_unhex_odd(all@);
            }
            return None;
        }
        let ghost more = all@.take(i + 2);
        assert(more.take(i as int) =~= all@.take(i as int));
        match (digit_value(all[i]), digit_value(all[i + 1])) {
            (Some(h), Some(l)) => {
                let ghost before = out@;
                assert(h < 16 && l < 16);
                out.push(h * 16 + l);
                assert(out@ == before.push((h * 16 + l) as u8));
            },
            _ => {
                proof {
                    lemma_unhex_front(all@, i + 2);
                }
                return None;
            },
        }
        i += 2;
    }
    assert(all@.take(i as int) =~= all@);
    Some(out)
}

/// An odd number of digits stands for no bytes.
proof fn lemma_unhex_odd(s: Seq<char>)
    requires
        s.len() % 2 == 1,
    ensures
        unhex(s) is None,
    decreases s.len(),
{
    if s.len() > 1 {
        lemma_unhex_odd(s.take(s.len() - 2));
    }
}

/// Where the front is no bytes, the whole is none either.
proof fn lemma_unhex_front(s: Seq<char>, n: int)
    requires
        0 <= n <= s.len(),
        n % 2 == 0,
        unhex(s.take(n)) is None,
    ensures
        unhex(s) is None,
    decreases s.len(),
{
    if n == s.len() {
        assert(s.take(n) =~= s);
    } else if s.len() % 2 == 1 {
        lemma_unhex_odd(s);
    } else {
        let t = s.take(s.len() - 2);
        assert(t.take(n) =~= s.take(n));
        lemma_unhex_front(t, n);
    }
}

/// Bytes come back from their hexadecimal form.
pub proof fn law_hex_round_trip(b: Seq<u8>)
    ensures
        unhex(hex(b)) == Some(b),
        hex(b).len() == 2 * b.len(),
    decreases b.len(),
{
    if b.len() > 0 {
        law_hex_round_trip(b.drop_last());
        let s = hex(b);
        assert(s.take(s.len() - 2) =~= hex(b.drop_last()));
        let v = b.last();
        assert(hex_value(hex_digit(v / 16)) == Some(v / 16));
        assert(hex_value(hex_digit(v % 16)) == Some(v % 16));
        assert(b =~= b.drop_last().push(v));
    }
}

/// A line of a running daemon's log as a client sees it.
#[derive(Debug)]
pub struct HttpLogLine {
    pub seq: u64,
    pub line: String,
}

/// A log line as a value.
pub struct LineView {
    pub seq: u64,
    pub line: Seq<char>,
}

impl View for HttpLogLine {
    type V = LineView;

    open spec fn view(&self) -> LineView {
        LineView { seq: self.seq, line: self.line@ }
    }
}

/// A list of log lines as values.
pub open spec fn line_views(v: Seq<HttpLogLine>) -> Seq<LineView> {
    Seq::new(v.len(), |i: int| v[i]@)
}

/// The line put behind all that are not younger, in lines sorted by age.
pub open spec fn put(sorted: Seq<LineView>, e: LineView) -> Seq<LineView>
    decreases sorted.len(),
{
    if sorted.len() == 0 || sorted.last().seq <= e.seq {
        sorted.push(e)
    } else {
        put(sorted.drop_last(), e).push(sorted.last())
    }
}

/// The lines that are younger than `last_seq`, oldest first; lines of one age
/// stay in the order of the log.
pub open spec fn fresh(log: Seq<LineView>, last_seq: u64) -> Seq<LineView>
    decreases log.len(),
{
    if log.len() == 0 {
        Seq::empty()
    } else if log.last().seq > last_seq {
        put(fresh(log.drop_last(), last_seq), log.last())
    } else {
        fresh(log.drop_last(), last_seq)
    }
}

/// Whether lines are sorted by age.
pub open spec fn in_order(s: Seq<LineView>) -> bool {
    forall|i: int, j: int| 0 <= i <= j < s.len() ==> s[i].seq <= s[j].seq
}

/// Putting a line keeps the order and adds that line.
proof fn lemma_put(s: Seq<LineView>, e: LineView)
    requires
        in_order(s),
    ensures
        in_order(put(s, e)),
        put(s, e).len() == s.len() + 1,
        put(s, e).to_multiset() == s.to_multiset().insert(e),
    decreases s.len(),
{
    broadcast use vstd::seq_lib::group_to_multiset_ensures;

    if s.len() == 0 || s.last().seq <= e.seq {
        let t = s.push(e);
        assert forall|i: int, j: int| 0 <= i <= j < t.len() implies t[i].seq <= t[j].seq by {
            if j == s.len() && i < s.len() {
                assert(s[i].seq <= s[s.len() - 1].seq);
            }
        }
    } else {
        let front = s.drop_last();
        lemma_put(front, e);
        let t = put(front, e);
        let m = s.last().seq;
        assert(forall|i: int| 0 <= i < front.len() ==> #[trigger] front[i].seq <= m);
        lemma_put_upper(front, e, m);
        assert(s =~= front.push(s.last()));
        assert(put(s, e).to_multiset() =~= s.to_multiset().insert(e));
    }
}

/// Putting a line among lines that are not younger than a bound.
proof fn lemma_put_upper(s: Seq<LineView>, e: LineView, bound: u64)
    requires
        e.seq <= bound,
        forall|i: int| 0 <= i < s.len() ==> #[trigger] s[i].seq <= bound,
    ensures
        forall|i: int| 0 <= i < put(s, e).len() ==> #[trigger] put(s, e)[i].seq <= bound,
    decreases s.len(),
{
    if s.len() > 0 && s.last().seq > e.seq {
        let front = s.drop_last();
        assert forall|i: int| 0 <= i < front.len() implies #[trigger] front[i].seq <= bound by {
            assert(s[i].seq <= bound);
        }
        lemma_put_upper(front, e, bound);
        let t = put(front, e);
        assert forall|i: int| 0 <= i < put(s, e).len() implies #[trigger] put(s, e)[i].seq
            <= bound by {
            if i < t.len() {
                assert(t[i].seq <= bound);
            } else {
                assert(s[s.len() - 1].seq <= bound);
            }
        }
    }
}

/// What a client takes from a poll: exactly the lines that it has not seen,
/// oldest first.
pub proof fn law_poll_takes_each_new_line_once(log: Seq<LineView>, last_seq: u64)
    ensures
        in_order(fresh(log, last_seq)),
        fresh(log, last_seq).to_multiset() == log.filter(
            |e: LineView| e.seq > last_seq,
        ).to_multiset(),
        forall|i: int| 0 <= i < fresh(log, last_seq).len() ==> #[trigger] fresh(
            log,
            last_seq,
        )[i].seq > last_seq,
    decreases log.len(),
{
    broadcast use vstd::seq_lib::group_to_multiset_ensures;

    reveal(Seq::filter);
    let new = |e: LineView| e.seq > last_seq;
    if log.len() > 0 {
        law_poll_takes_each_new_line_once(log.drop_last(), last_seq);
        let f = fresh(log.drop_last(), last_seq);
        if log.last().seq > last_seq {
            lemma_put(f, log.last());
            lemma_put_bound(f, log.last(), last_seq);
            assert(log.filter(new) =~= log.drop_last().filter(new).push(log.last()));
        } else {
            assert(log.filter(new) =~= log.drop_last().filter(new));
        }
    }
}

/// Putting a young line among young lines leaves young lines.
proof fn lemma_put_bound(s: Seq<LineView>, e: LineView, bound: u64)
    requires
        e.seq > bound,
        forall|i: int| 0 <= i < s.len() ==> #[trigger] s[i].seq > bound,
    ensures
        put(s, e).len() == s.len() + 1,
        forall|i: int| 0 <= i < put(s, e).len() ==> #[trigger] put(s, e)[i].seq > bound,
    decreases s.len(),
{
    if s.len() > 0 && s.last().seq > e.seq {
        let front = s.drop_last();
        assert forall|i: int| 0 <= i < front.len() implies #[trigger] front[i].seq > bound by {
            assert(s[i].seq > bound);
        }
        lemma_put_bound(front, e, bound);
        let t = put(front, e);
        assert forall|i: int| 0 <= i < put(s, e).len() implies #[trigger] put(s, e)[i].seq
            > bound by {
            if i < t.len() {
                assert(t[i].seq > bound);
            } else {
                assert(s[s.len() - 1].seq > bound);
            }
        }
    }
}

/// Puts a line in its place.
fn put_line(sorted: &mut Vec<HttpLogLine>, e: HttpLogLine)
    ensures
        line_views(final(sorted)@) == put(line_views(old(sorted)@), e@),
    decreases old(sorted)@.len(),
{
    let n: usize = sorted.len();
    if n == 0 || sorted[n - 1].seq <= e.seq {
        sorted.push(e);
        assert(line_views(sorted@) =~= line_views(old(sorted)@).push(e@));
    } else {
        let last = sorted.pop();
        assert(line_views(sorted@) =~= line_views(old(sorted)@).drop_last());
        put_line(sorted, e);
        if let Some(l) = last {
            let ghost before = sorted@;
            sorted.push(l);
            assert(line_views(sorted@) =~= line_views(before).push(l@));
        }
    }
}

/// The log lines that a client has not seen, oldest first, and the number of
/// the youngest line that it has seen then.
pub fn poll_batch(log: Vec<HttpLogLine>, last_seq: u64) -> (r: (Vec<HttpLogLine>, u64))
    ensures
        line_views(r.0@) == fresh(line_views(log@), last_seq),
        r.1 == if r.0@.len() > 0 {
            r.0@[r.0@.len() - 1].seq
        } else {
            last_seq
        },
{
    let mut out: Vec<HttpLogLine> = Vec::new();
    let mut i: usize = 0;
    let ghost whole = line_views(log@);
    assert(line_views(out@) =~= Seq::empty());
    while i < log.len()
        invariant
            whole == line_views(log@),
            i <= log@.len(),
            line_views(out@) == fresh(whole.take(i as int), last_seq),
        decreases log@.len() - i,
    {
        assert(whole.take(i + 1).drop_last() =~= whole.take(i as int));
        assert(whole.take(i + 1).last() == log@[i as int]@);
        if log[i].seq > last_seq {
            let e = HttpLogLine { seq: log[i].seq, line: log[i].line.clone() };
            put_line(&mut out, e);
        }
        i += 1;
    }
    assert(whole.take(log@.len() as int) =~= whole);
    let n: usize = out.len();
    let last: u64 = if n > 0 {
        out[n - 1].seq
    } else {
        last_seq
    };
    (out, last)
}

/// The number of the youngest line in a log that has the youngest first; a
/// client that attaches starts behind it.
pub fn attach_seq(log: &Vec<HttpLogLine>) -> (r: u64)
    ensures
        r == if log@.len() > 0 {
            log@[0].seq
        } else {
            0
        },
{
    if log.len() > 0 {
        log[0].seq
    } else {
        0
    }
}

/// What a log line tells a client.
#[derive(Debug)]
pub enum Polled {
    Packet(ReceivedPacket),
    Event(StatusEvent),
}

/// Reads a log line as a received packet or else as an event; `None` for a line
/// that is neither.
pub fn read_log_line(line: &str) -> (r: Option<Polled>)
    ensures
        r matches Some(Polled::Packet(p)) ==> radio::parsed_rx_line(line@) == Some(p@),
        r matches Some(Polled::Event(e)) ==> radio::parsed_rx_line(line@) is None
            && status::parsed_status(line@) == Some(e@),
        r is None ==> radio::parsed_rx_line(line@) is None && status::parsed_status(line@) is None,
{
    match parse_rx_line(line) {
        Some(p) => Some(Polled::Packet(p)),
        None => match parse_status_line(line) {
            Some(e) => Some(Polled::Event(e)),
            None => None,
        },
    }
}

/// The base of a daemon's address, without slashes at its end.
pub fn base_url(server_url: &str) -> (r: String)
    ensures
        r@ == text::trim_end_of(server_url@, "/"@),
{
    let all = text::chars(server_url);
    text::string_of(text::trim_end_chars(all.as_slice(), "/"))
}

/// Something that a client wants of the daemon.
#[derive(Debug)]
pub enum ClientCall {
    Send(Vec<u8>),
    SetDest(u16),
    Command { target: u16, heartbeat_interval_secs: u32 },
    TestPunch { card_id: u32, station: u8, time_s: u32 },
    ClearPunch(i64),
    ClearPunches,
}

impl ClientCall {
    /// The path to post to.
    pub open spec fn path_text(self) -> Seq<char> {
        match self {
            ClientCall::Send(_) => "/sendbin"@,
            ClientCall::SetDest(_) => "/setdest"@,
            ClientCall::Command { .. } => "/cmd"@,
            ClientCall::TestPunch { .. } => "/testpunch"@,
            ClientCall::ClearPunch(_) => "/clearpunch"@,
            ClientCall::ClearPunches => "/clearpunches"@,
        }
    }

    /// The body to post.
    pub open spec fn body_text(self) -> Seq<char> {
        match self {
            ClientCall::Send(b) => hex(b@),
            ClientCall::SetDest(d) => "dest="@ + decimal::dec(d as nat),
            ClientCall::Command { target, heartbeat_interval_secs } => "target="@ + decimal::dec(
                target as nat,
            ) + "&heartbeat_interval_secs="@ + decimal::dec(heartbeat_interval_secs as nat),
            ClientCall::TestPunch { card_id, station, time_s } => "card_id="@ + decimal::dec(
                card_id as nat,
            ) + "&station="@ + decimal::dec(station as nat) + "&time_s="@ + decimal::dec(
                time_s as nat,
            ),
            ClientCall::ClearPunch(id) => "id="@ + decimal::dec_signed(id as int),
            ClientCall::ClearPunches => Seq::empty(),
        }
    }

    /// The path to post to.
    pub fn path(&self) -> (r: &'static str)
        ensures
            r@ == self.path_text(),
    {
        match self {
            ClientCall::Send(_) => "/sendbin",
            ClientCall::SetDest(_) => "/setdest",
            ClientCall::Command { .. } => "/cmd",
            ClientCall::TestPunch { .. } => "/testpunch",
            ClientCall::ClearPunch(_) => "/clearpunch",
            ClientCall::ClearPunches => "/clearpunches",
        }
    }

    /// The body to post.
    pub fn body(&self) -> (r: String)
        ensures
            r@ == self.body_text(),
    {
        let mut out: String = String::new();
        match self {
            ClientCall::Send(b) => return to_hex(b.as_slice()),
            ClientCall::SetDest(d) => {
                out.push_str("dest=");
                decimal::push_dec(&mut out, *d as u64);
            },
            ClientCall::Command { target, heartbeat_interval_secs } => {
                out.push_str("target=");
                decimal::push_dec(&mut out, *target as u64);
                out.push_str("&heartbeat_interval_secs=");
                decimal::push_dec(&mut out, *heartbeat_interval_secs as u64);
            },
            ClientCall::TestPunch { card_id, station, time_s } => {
                out.push_str("card_id=");
                decimal::push_dec(&mut out, *card_id as u64);
                out.push_str("&station=");
                decimal::push_dec(&mut out, *station as u64);
                out.push_str("&time_s=");
                decimal::push_dec(&mut out, *time_s as u64);
            },
            ClientCall::ClearPunch(id) => {
                out.push_str("id=");
                decimal::push_dec_signed(&mut out, *id);
            },
            ClientCall::ClearPunches => {},
        }
        assert(out@ =~= self.body_text());
        out
    }
}

/// A packed heartbeat is five bytes behind the tag 3: the lowest bit of the flags
/// tells whether the battery follows, its per cent and two bytes of millivolts
/// with the high one first; the second tells whether it is known that a reader is
/// connected, and the third whether one is.
pub proof fn law_packed_heartbeat_is_read(b: Seq<u8>)
    ensures
        parsed_packed_heartbeat(b) is Some <==> b.len() == 5 && b[0] == 3,
        parsed_packed_heartbeat(b) matches Some(h) ==> {
            &&& b[1] & 1 == 0 ==> h.battery is None
            &&& b[1] & 1 != 0 ==> (h.battery matches Some((pct, mv)) && pct == b[2] && mv == b[3]
                * 256 + b[4])
            &&& b[1] & 2 == 0 ==> h.si_present is None
            &&& b[1] & 2 != 0 ==> h.si_present == Some(b[1] & 4 != 0)
        },
{
    if b.len() == 5 {
        let f = b[1];
        assert(f & 1 == f % 2) by (bit_vector);
        assert((f & 2 != 0) == (f / 2 % 2 == 1)) by (bit_vector);
        assert((f & 4 != 0) == (f / 4 % 2 == 1)) by (bit_vector);
    }
}

/// Bytes in hexadecimal are two digits each, the high one first, with small
/// letters.
pub proof fn law_hex_digits(b: Seq<u8>, i: int)
    requires
        0 <= i < b.len(),
    ensures
        hex(b).len() == 2 * b.len(),
        hex_value(hex(b)[2 * i]) matches Some(h) && hex_value(hex(b)[2 * i + 1]) matches Some(l)
            && b[i] == 16 * h + l,
        !('A' <= hex(b)[2 * i] <= 'F') && !('A' <= hex(b)[2 * i + 1] <= 'F'),
    decreases b.len(),
{
    let front = b.drop_last();
    let last = b.last();
    lemma_hex_len(b);
    lemma_hex_len(front);
    if i < front.len() {
        law_hex_digits(front, i);
        assert(hex(b)[2 * i] == hex(front)[2 * i]);
        assert(hex(b)[2 * i + 1] == hex(front)[2 * i + 1]);
    } else {
        assert(hex(b)[2 * i] == hex_digit(last / 16));
        assert(hex(b)[2 * i + 1] == hex_digit(last % 16));
    }
}

/// The length of bytes in hexadecimal.
proof fn lemma_hex_len(b: Seq<u8>)
    ensures
        hex(b).len() == 2 * b.len(),
    decreases b.len(),
{
    if b.len() > 0 {
        lemma_hex_len(b.drop_last());
    }
}

/// A byte read as a signed number is the one of eight bits that it stands for: it
/// differs from the byte by 256 or not at all.
pub proof fn law_signed_byte(b: u8)
    ensures
        -128 <= signed(b) <= 127,
        signed(b) == b || signed(b) == b - 256,
{
}

/// A heartbeat as a text tells the battery's per cent and then its millivolts, or
/// two dashes, and then whether a reader is connected.
pub proof fn law_text_heartbeat_is_read(pct: u8, mv: u16, present: bool)
    ensures
        ({
            let a = decimal::dec(pct as nat);
            let b = decimal::dec(mv as nat);
            let c = if present {
                "1"@
            } else {
                "0"@
            };
            &&& parsed_heartbeat("HB"@) == Some(Heartbeat { battery: None, si_present: None })
            &&& parsed_heartbeat("HB "@ + (a.push(' ') + b)) == Some(
                Heartbeat { battery: Some((pct, mv)), si_present: None },
            )
            &&& parsed_heartbeat("HB "@ + (a.push(' ') + (b.push(' ') + c))) == Some(
                Heartbeat { battery: Some((pct, mv)), si_present: Some(present) },
            )
            &&& parsed_heartbeat("HB "@ + ("-"@.push(' ') + ("-"@.push(' ') + c))) == Some(
                Heartbeat { battery: None, si_present: Some(present) },
            )
        }),
{
    reveal_strlit("HB");
    reveal_strlit("HB ");
    reveal_strlit("-");
    reveal_strlit("1");
    reveal_strlit("0");
    assert("1"@[0] != "0"@[0]);
    let a = decimal::dec(pct as nat);
    let b = decimal::dec(mv as nat);
    let c = if present {
        "1"@
    } else {
        "0"@
    };
    decimal::lemma_dec(pct as nat);
    decimal::lemma_dec(mv as nat);
    assert(decimal::is_digit(a[0]));
    assert(a != "-"@);
    decimal::lemma_dec_without(pct as nat, ' ');
    decimal::lemma_dec_without(mv as nat, ' ');
    decimal::lemma_parse_dec(pct as nat, u8::MAX as nat);
    decimal::lemma_parse_dec(mv as nat, u16::MAX as nat);
    text::lemma_strip("HB "@, a.push(' ') + b);
    text::lemma_strip("HB "@, a.push(' ') + (b.push(' ') + c));
    text::lemma_strip("HB "@, "-"@.push(' ') + ("-"@.push(' ') + c));
    text::lemma_head_tail(a, ' ', b);
    text::lemma_head_tail(b, ' ', c);
    text::lemma_head_tail(a, ' ', b.push(' ') + c);
    assert(!"-"@.contains(' '));
    text::lemma_head_tail("-"@, ' ', "-"@.push(' ') + c);
    text::lemma_head_tail("-"@, ' ', c);
}

} // verus!
