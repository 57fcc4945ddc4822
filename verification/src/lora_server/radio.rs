//! What the daemon and the terminal client need of a radio, and the filter that
//! keeps deployments apart.

use vstd::prelude::*;
use crate::sx127x::packet;
use crate::sx127x::packet::{payload_bytes, payload_from};
use crate::sx127x::ReceivedPacket;
use crate::{decimal, text};
use super::protocol;
use super::protocol::{Frame, Setting};
use super::status::StatusEvent;

verus! {

/// The text of a command that sets a node's heartbeat interval.
pub fn heartbeat_command(commander: u16, target: u16, heartbeat_interval_secs: u32) -> (r: String)
    ensures
        r@ == (protocol::FrameView::Command {
            target,
            commander,
            setting: Setting::HeartbeatIntervalSecs(heartbeat_interval_secs),
        }).wire(),
{
    let frame = Frame::Command {
        target,
        commander,
        setting: Setting::HeartbeatIntervalSecs(heartbeat_interval_secs),
    };
    frame.encode()
}

/// A radio, or something that stands for one. An error is told in words.
pub trait Radio: Send {
    /// Sends a payload.
    fn send(&mut self, dest: u16, payload: &[u8]) -> Result<(), String>;

    /// A packet that was received, if there is one.
    fn receive(&mut self) -> Result<Option<ReceivedPacket>, String>;

    /// Sends a made-up punch through the daemon. Only a radio that stands for a
    /// running daemon can.
    fn send_test_punch(&mut self, card_id: u32, station: u8, time_s: u32) -> (r: Result<(), String>)
        default_ensures
            r matches Err(m) && m@
                == "test punch requires attaching to a running daemon (see lora-tui) — not available in direct hardware mode"@,
    {
        Err(
            "test punch requires attaching to a running daemon (see lora-tui) — not available in direct hardware mode".to_owned(),
        )
    }

    /// Gives up one unsent local punch of the daemon.
    fn clear_punch(&mut self, id: i64) -> (r: Result<(), String>)
        default_ensures
            r matches Err(m) && m@
                == "clear punch requires attaching to a running daemon (see lora-tui) — not available in direct hardware mode"@,
    {
        Err(
            "clear punch requires attaching to a running daemon (see lora-tui) — not available in direct hardware mode".to_owned(),
        )
    }

    /// Gives up all unsent local punches of the daemon.
    fn clear_all_punches(&mut self) -> (r: Result<(), String>)
        default_ensures
            r matches Err(m) && m@
                == "clear punches requires attaching to a running daemon (see lora-tui) — not available in direct hardware mode"@,
    {
        Err(
            "clear punches requires attaching to a running daemon (see lora-tui) — not available in direct hardware mode".to_owned(),
        )
    }

    /// Changes where the daemon sends to.
    fn set_dest(&mut self, dest: u16) -> (r: Result<(), String>)
        default_ensures
            r is Ok,
    {
        Ok(())
    }

    /// What the daemon did since the last call.
    fn poll_status(&mut self) -> (r: Vec<StatusEvent>)
        default_ensures
            r@.len() == 0,
    {
        Vec::new()
    }

    /// Asks the node `target` to change its heartbeat interval. The command is
    /// sent to that node, and the answer is that of the sending.
    fn send_command(&mut self, commander: u16, target: u16, heartbeat_interval_secs: u32) -> (r:
        Result<(), String>)
        default_ensures
            exists|radio: &mut Self, bytes: &[u8]| #[trigger]
                call_ensures(Self::send, (radio, target, bytes), r) && &*radio == &*old(self)
                    && &*final(radio) == &*final(self) && bytes@ == vstd::utf8::encode_utf8(
                    (protocol::FrameView::Command {
                        target,
                        commander,
                        setting: Setting::HeartbeatIntervalSecs(heartbeat_interval_secs),
                    }).wire(),
                ),
    {
        let text = heartbeat_command(commander, target, heartbeat_interval_secs);
        self.send(target, text.as_str().as_bytes())
    }
}

/// A payload with the deployment's name and a blank in front.
pub open spec fn framed(network_id: Seq<char>, payload: Seq<u8>) -> Seq<u8> {
    vstd::utf8::encode_utf8(network_id) + seq![32u8] + payload
}

/// What is left of a received payload without the deployment's name; `None` for
/// one that is no text or does not begin with that name and a blank.
pub open spec fn unframed(network_id: Seq<char>, bytes: Seq<u8>) -> Option<Seq<u8>> {
    if vstd::utf8::valid_utf8(bytes) {
        match text::strip(vstd::utf8::decode_utf8(bytes), network_id) {
            Some(s) => match text::strip(s, " "@) {
                Some(rest) => Some(vstd::utf8::encode_utf8(rest)),
                None => None,
            },
            None => None,
        }
    } else {
        None
    }
}

/// A radio that puts the deployment's name in front of everything it sends and
/// passes on only what came with that name.
pub struct NetworkFilteredRadio<R: Radio> {
    pub inner: R,
    pub network_id: String,
}

impl<R: Radio> NetworkFilteredRadio<R> {
    /// A filter around a radio.
    pub fn new(inner: R, network_id: String) -> (r: Self)
        ensures
            r.inner == inner,
            r.network_id == network_id,
    {
        NetworkFilteredRadio { inner, network_id }
    }

    /// The bytes that go out for a payload.
    pub fn frame(&self, payload: &[u8]) -> (r: Vec<u8>)
        ensures
            r@ == framed(self.network_id@, payload@),
    {
        let mut out: Vec<u8> = Vec::new();
        out.extend_from_slice(self.network_id.as_str().as_bytes());
        out.push(32u8);
        out.extend_from_slice(payload);
        assert(out@ =~= framed(self.network_id@, payload@));
        out
    }

    /// The packet that is passed on for a received one.
    pub fn unframe(&self, pkt: ReceivedPacket) -> (r: Option<ReceivedPacket>)
        ensures
            r is Some <==> unframed(self.network_id@, pkt@.payload) is Some,
            r matches Some(p) ==> p@.src_addr == pkt@.src_addr && p@.rssi == pkt@.rssi && Some(
                p@.payload,
            ) == unframed(self.network_id@, pkt@.payload),
    {
        let bytes = payload_bytes(&pkt.payload);
        let all = match text::from_utf8(bytes) {
            Some(s) => text::chars(s),
            None => return None,
        };
        let rest = match text::strip_prefix(all.as_slice(), self.network_id.as_str()) {
            Some(s) => match text::strip_prefix(s, " ") {
                Some(rest) => rest,
                None => return None,
            },
            None => return None,
        };
        let rest_text = text::string_of(rest);
        proof {
            lemma_unframed_fits(self.network_id@, pkt@.payload);
        }
        Some(
            ReceivedPacket {
                src_addr: pkt.src_addr,
                payload: payload_from(rest_text.as_str().as_bytes()),
                rssi: pkt.rssi,
            },
        )
    }
}

/// What is left of a payload is not longer than the payload.
proof fn lemma_unframed_fits(id: Seq<char>, bytes: Seq<u8>)
    ensures
        unframed(id, bytes) matches Some(r) ==> r.len() <= bytes.len() && bytes == framed(id, r),
{
    if unframed(id, bytes) is Some {
        reveal_strlit(" ");
        let s = vstd::utf8::decode_utf8(bytes);
        let t = s.skip(id.len() as int);
        let rest = t.skip(1);
        assert(s =~= id + t);
        assert(" "@ =~= seq![' ']);
        assert(t =~= seq![' '] + rest);
        text::lemma_encode_concat(id, t);
        text::lemma_encode_concat(seq![' '], rest);
        text::lemma_encode_blank();
        vstd::utf8::decode_utf8_encode_utf8(bytes);
        assert(bytes =~= framed(id, vstd::utf8::encode_utf8(rest)));
    }
}

/// What the filter makes of what its radio gave: a packet without the
/// deployment's name counts as none, and an error stays.
pub open spec fn passed_on(
    network_id: Seq<char>,
    heard: Result<Option<ReceivedPacket>, String>,
    r: Result<Option<ReceivedPacket>, String>,
) -> bool {
    match heard {
        Ok(Some(pkt)) => match unframed(network_id, pkt@.payload) {
            Some(rest) => r matches Ok(Some(p)) && p@ == (packet::PacketView {
                payload: rest,
                ..pkt@
            }),
            None => r matches Ok(None),
        },
        Ok(None) => r matches Ok(None),
        Err(e) => r == Err::<Option<ReceivedPacket>, String>(e),
    }
}

impl<R: Radio> Radio for NetworkFilteredRadio<R> {
    /// Sends the payload with the deployment's name in front; the answer is that
    /// of the radio inside.
    fn send(&mut self, dest: u16, payload: &[u8]) -> (r: Result<(), String>)
        ensures
            final(self).network_id == old(self).network_id,
            exists|radio: &mut R, bytes: &[u8]| #[trigger]
                call_ensures(R::send, (radio, dest, bytes), r) && *radio == old(self).inner
                    && *final(radio) == final(self).inner && bytes@ == framed(
                    old(self).network_id@,
                    payload@,
                ),
    {
        let bytes = self.frame(payload);
        self.inner.send(dest, bytes.as_slice())
    }

    /// Gives what the radio inside received, as `passed_on` says.
    fn receive(&mut self) -> (r: Result<Option<ReceivedPacket>, String>)
        ensures
            final(self).network_id == old(self).network_id,
            exists|radio: &mut R, heard: Result<Option<ReceivedPacket>, String>| #[trigger]
                call_ensures(R::receive, (radio,), heard) && *radio == old(self).inner
                    && *final(radio) == final(self).inner && passed_on(
                    old(self).network_id@,
                    heard,
                    r,
                ),
    {
        match self.inner.receive() {
            Ok(Some(pkt)) => Ok(self.unframe(pkt)),
            Ok(None) => Ok(None),
            Err(e) => Err(e),
        }
    }

    /// Asks the radio inside.
    fn set_dest(&mut self, dest: u16) -> (r: Result<(), String>)
        ensures
            final(self).network_id == old(self).network_id,
            exists|radio: &mut R| #[trigger]
                call_ensures(R::set_dest, (radio, dest), r) && *radio == old(self).inner
                    && *final(radio) == final(self).inner,
    {
        self.inner.set_dest(dest)
    }

    /// Asks the radio inside.
    fn poll_status(&mut self) -> (r: Vec<StatusEvent>)
        ensures
            final(self).network_id == old(self).network_id,
            exists|radio: &mut R| #[trigger]
                call_ensures(R::poll_status, (radio,), r) && *radio == old(self).inner
                    && *final(radio) == final(self).inner,
    {
        self.inner.poll_status()
    }
}

/// Between filters of one deployment a text payload arrives as it was sent.
pub proof fn law_same_network_is_transparent(id: Seq<char>, payload: Seq<u8>)
    requires
        vstd::utf8::valid_utf8(payload),
    ensures
        unframed(id, framed(id, payload)) == Some(payload),
{
    reveal_strlit(" ");
    let t = vstd::utf8::decode_utf8(payload);
    vstd::utf8::decode_utf8_encode_utf8(payload);
    text::lemma_encode_concat(id, seq![' '] + t);
    text::lemma_encode_concat(seq![' '], t);
    text::lemma_encode_blank();
    let whole = id + (seq![' '] + t);
    assert(framed(id, payload) =~= vstd::utf8::encode_utf8(whole));
    vstd::utf8::encode_utf8_decode_utf8(whole);
    vstd::utf8::encode_utf8_valid_utf8(whole);
    text::lemma_strip(id, seq![' '] + t);
    assert(" "@ =~= seq![' ']);
    text::lemma_strip(" "@, t);
}

/// Nothing passes a filter but what begins with its deployment's name and a
/// blank.
pub proof fn law_other_networks_are_dropped(id: Seq<char>, bytes: Seq<u8>)
    ensures
        unframed(id, bytes) matches Some(r) ==> bytes == framed(id, r),
{
    lemma_unframed_fits(id, bytes);
}

/// A received packet as the daemon's log has it:
/// `RX <sender> <signal strength or dash> <payload>`.
pub open spec fn rx_line(src_addr: u16, rssi: Option<i16>, payload: Seq<char>) -> Seq<char> {
    "RX "@ + (decimal::dec(src_addr as nat).push(' ') + (rssi_text(rssi).push(' ') + payload))
}

/// A signal strength as text.
pub open spec fn rssi_text(rssi: Option<i16>) -> Seq<char> {
    match rssi {
        Some(r) => decimal::dec_signed(r as int),
        None => "-"@,
    }
}

/// Reads a received packet from the daemon's log.
pub open spec fn parsed_rx_line(s: Seq<char>) -> Option<packet::PacketView> {
    match text::strip(s, "RX "@) {
        Some(rest) => match (decimal::as_u16(text::head(rest, ' ')), text::tail(rest, ' ')) {
            (Some(src_addr), Some(t)) => Some(
                packet::PacketView {
                    src_addr,
                    rssi: if text::head(t, ' ') == "-"@ {
                        None
                    } else {
                        decimal::as_i16(text::head(t, ' '))
                    },
                    payload: packet::accepted(
                        vstd::utf8::encode_utf8(
                            match text::tail(t, ' ') {
                                Some(p) => p,
                                None => Seq::empty(),
                            },
                        ),
                    ),
                },
            ),
            _ => None,
        },
        None => None,
    }
}

/// Writes a received packet for the log.
pub fn encode_rx_line(src_addr: u16, rssi: Option<i16>, payload: &str) -> (r: String)
    ensures
        r@ == rx_line(src_addr, rssi, payload@),
{
    let mut out: String = String::new();
    out.push_str("RX ");
    decimal::push_dec(&mut out, src_addr as u64);
    out.push(' ');
    match rssi {
        Some(v) => decimal::push_dec_signed(&mut out, v as i64),
        None => out.push_str("-"),
    }
    out.push(' ');
    out.push_str(payload);
    assert(out@ =~= rx_line(src_addr, rssi, payload@));
    out
}

/// Reads a received packet from the daemon's log; `None` for any other line.
pub fn parse_rx_line(line: &str) -> (r: Option<ReceivedPacket>)
    ensures
        packet::opt_packet(r) == parsed_rx_line(line@),
{
    let all = text::chars(line);
    let rest = match text::strip_prefix(all.as_slice(), "RX ") {
        Some(t) => t,
        None => return None,
    };
    let (first, rest) = text::split_head(rest, ' ');
    let src_addr = match decimal::parse_u16(first) {
        Some(v) => v,
        None => return None,
    };
    let rest = match rest {
        Some(t) => t,
        None => return None,
    };
    let (second, rest) = text::split_head(rest, ' ');
    let rssi: Option<i16> = if text::same(second, "-") {
        None
    } else {
        decimal::parse_i16(second)
    };
    let payload_text = match rest {
        Some(p) => text::string_of(p),
        None => {
            let empty = String::new();
            assert(empty@ =~= Seq::empty());
            empty
        },
    };
    Some(
        ReceivedPacket { src_addr, payload: payload_from(payload_text.as_str().as_bytes()), rssi },
    )
}

/// A packet is read back from the line that was written for it, with as much of
/// its payload as fits in a packet: all or nothing.
pub proof fn law_rx_line_round_trip(src_addr: u16, rssi: Option<i16>, payload: Seq<char>)
    ensures
        parsed_rx_line(rx_line(src_addr, rssi, payload)) == Some(
            (packet::PacketView {
                src_addr,
                rssi,
                payload: packet::accepted(vstd::utf8::encode_utf8(payload)),
            }),
        ),
{
    let b = rssi_text(rssi);
    let rest = b.push(' ') + payload;
    let a = decimal::dec(src_addr as nat);
    reveal_strlit("-");
    text::lemma_strip("RX "@, a.push(' ') + rest);
    decimal::lemma_dec_without(src_addr as nat, ' ');
    text::lemma_head_tail(a, ' ', rest);
    decimal::lemma_parse_dec(src_addr as nat, u16::MAX as nat);
    assert(!b.contains(' ')) by {
        match rssi {
            Some(r) => {
                decimal::lemma_dec_without(if r < 0 { (-r) as nat } else { r as nat }, ' ');
                if b.contains(' ') {
                    let i = choose|i: int| 0 <= i < b.len() && b[i] == ' ';
                    if r < 0 {
                        assert(i > 0);
                        assert(decimal::dec((-r) as nat)[i - 1] == ' ');
                    }
                }
            },
            None => {},
        }
    }
    text::lemma_head_tail(b, ' ', payload);
    match rssi {
        Some(r) => {
            decimal::lemma_parse_dec_signed(r as int, i16::MIN as int, i16::MAX as int);
            if r < 0 {
                decimal::lemma_dec((-r) as nat);
            } else {
                decimal::lemma_dec(r as nat);
                assert(decimal::is_digit(b[0]));
            }
            assert(b != "-"@);
        },
        None => {},
    }
}

/// What goes out under a name is the name, a blank and the payload, and nothing
/// else.
pub proof fn law_name_leads_the_payload(id: Seq<char>, payload: Seq<u8>)
    ensures
        ({
            let n = vstd::utf8::encode_utf8(id).len() as int;
            let b = framed(id, payload);
            &&& b.len() == n + 1 + payload.len()
            &&& b.take(n) == vstd::utf8::encode_utf8(id)
            &&& b[n] == 0x20
            &&& b.skip(n + 1) == payload
        }),
{
    let n = vstd::utf8::encode_utf8(id).len() as int;
    assert(framed(id, payload).take(n) =~= vstd::utf8::encode_utf8(id));
    assert(framed(id, payload).skip(n + 1) =~= payload);
}

/// A received packet is logged as `RX`, its sender, its strength or a dash, and
/// its payload as it is, with blanks between.
pub proof fn law_rx_line_fields(src_addr: u16, rssi: Option<i16>, payload: Seq<char>)
    ensures
        ({
            let l = rx_line(src_addr, rssi, payload);
            &&& text::head(l, ' ') == "RX"@
            &&& text::tail(l, ' ') matches Some(a)
            &&& decimal::as_u16(text::head(a, ' ')) == Some(src_addr)
            &&& text::tail(a, ' ') matches Some(b)
            &&& (rssi is None ==> text::head(b, ' ') == "-"@)
            &&& (rssi matches Some(r) ==> decimal::as_i16(text::head(b, ' ')) == Some(r))
            &&& text::tail(b, ' ') == Some(payload)
        }),
{
    reveal_strlit("RX ");
    reveal_strlit("RX");
    reveal_strlit("-");
    let s = rssi_text(rssi);
    let rest = s.push(' ') + payload;
    let a = decimal::dec(src_addr as nat);
    assert("RX "@ =~= "RX"@.push(' '));
    assert(!"RX"@.contains(' '));
    text::lemma_head_tail("RX"@, ' ', a.push(' ') + rest);
    decimal::lemma_dec_without(src_addr as nat, ' ');
    text::lemma_head_tail(a, ' ', rest);
    decimal::lemma_parse_dec(src_addr as nat, u16::MAX as nat);
    assert(!s.contains(' ')) by {
        if let Some(r) = rssi {
            let n = if r < 0 {
                (-r) as nat
            } else {
                r as nat
            };
            decimal::lemma_dec_without(n, ' ');
            if s.contains(' ') {
                let i = choose|i: int| 0 <= i < s.len() && s[i] == ' ';
                if r < 0 {
                    assert(i > 0);
                    assert(decimal::dec(n)[i - 1] == ' ');
                }
            }
        }
    }
    text::lemma_head_tail(s, ' ', payload);
    if let Some(r) = rssi {
        decimal::lemma_parse_dec_signed(r as int, i16::MIN as int, i16::MAX as int);
    }
}

} // verus!
