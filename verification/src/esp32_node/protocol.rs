//! The frames that a node understands and sends.

use vstd::prelude::*;
use crate::lora_server::protocol;
use crate::sx127x::packet::payload_bytes;
use crate::sx127x::{packet, LoraRadio, ReceivedPacket};
use crate::{decimal, text};

verus! {

/// The acknowledgement to `node` of its punch of `card_id`.
pub open spec fn punch_ack_text(node: u16, card_id: u32) -> Seq<char> {
    "PACK "@ + (decimal::dec(node as nat).push(' ') + decimal::dec(card_id as nat))
}

/// Reads a punch acknowledgement.
pub open spec fn parsed_punch_ack_text(s: Seq<char>) -> Option<(u16, u32)> {
    match text::strip(s, "PACK "@) {
        Some(rest) => match (decimal::as_u16(text::head(rest, ' ')), text::tail(rest, ' ')) {
            (Some(node), Some(t)) => match decimal::as_u32(t) {
                Some(card_id) => Some((node, card_id)),
                None => None,
            },
            _ => None,
        },
        None => None,
    }
}

/// Writes a punch acknowledgement.
pub fn encode_punch_ack(node: u16, card_id: u32) -> (r: String)
    ensures
        r@ == punch_ack_text(node, card_id),
{
    let mut out: String = String::new();
    out.push_str("PACK ");
    decimal::push_dec(&mut out, node as u64);
    out.push(' ');
    decimal::push_dec(&mut out, card_id as u64);
    assert(out@ =~= punch_ack_text(node, card_id));
    out
}

/// Reads a punch acknowledgement: the node and its card.
pub fn parse_punch_ack(s: &str) -> (r: Option<(u16, u32)>)
    ensures
        r == parsed_punch_ack_text(s@),
{
    let all = text::chars(s);
    let rest = match text::strip_prefix(all.as_slice(), "PACK ") {
        Some(t) => t,
        None => return None,
    };
    let (first, second) = text::split_head(rest, ' ');
    match (decimal::parse_u16(first), second) {
        (Some(node), Some(t)) => match decimal::parse_u32(t) {
            Some(card_id) => Some((node, card_id)),
            None => None,
        },
        _ => None,
    }
}

/// Reads a version query.
pub open spec fn parsed_version_query(s: Seq<char>) -> Option<u16> {
    match text::strip(s, "VQUERY "@) {
        Some(rest) => protocol::parsed_addr(rest),
        None => None,
    }
}

/// Reads a version query: the node that is asked.
pub fn parse_version_query(s: &str) -> (r: Option<u16>)
    ensures
        r == parsed_version_query(s@),
{
    let all = text::chars(s);
    match text::strip_prefix(all.as_slice(), "VQUERY ") {
        Some(rest) => protocol::parse_addr(rest),
        None => None,
    }
}

/// Writes a version report.
pub fn encode_version_report(origin: u16, version: &str) -> (r: String)
    ensures
        r@ == (protocol::FrameView::VersionReport { origin, version: version@ }).wire(),
{
    let mut out: String = String::new();
    out.push_str("VERSION ");
    decimal::push_dec(&mut out, origin as u64);
    out.push(' ');
    out.push_str(version);
    assert(out@ =~= (protocol::FrameView::VersionReport { origin, version: version@ }).wire());
    out
}

/// Reads the confirmation that a node was heard.
pub open spec fn parsed_config_ack(s: Seq<char>) -> Option<u16> {
    match text::strip(s, "CACK "@) {
        Some(rest) => protocol::parsed_addr(rest),
        None => None,
    }
}

/// Reads the confirmation that a node was heard: the node.
pub fn parse_config_ack(s: &str) -> (r: Option<u16>)
    ensures
        r == parsed_config_ack(s@),
{
    let all = text::chars(s);
    match text::strip_prefix(all.as_slice(), "CACK ") {
        Some(rest) => protocol::parse_addr(rest),
        None => None,
    }
}

/// The text of a packet, with its sender and signal strength; `None` where the
/// payload is no text.
pub fn packet_text(pkt: &ReceivedPacket) -> (r: Option<(u16, Option<i16>, String)>)
    ensures
        r is Some <==> vstd::utf8::valid_utf8(pkt@.payload),
        r matches Some((src, rssi, s)) ==> src == pkt@.src_addr && rssi == pkt@.rssi && s@
            == vstd::utf8::decode_utf8(pkt@.payload),
{
    match text::from_utf8(payload_bytes(&pkt.payload)) {
        Some(s) => Some((pkt.src_addr, pkt.rssi, s.to_owned())),
        None => None,
    }
}

/// What is made of what a radio gave: the text of a packet with its sender and
/// signal strength, nothing of a packet that is no text, and an error as it is.
pub open spec fn heard_text<E>(
    heard: Result<Option<ReceivedPacket>, E>,
    r: Result<Option<(u16, Option<i16>, String)>, E>,
) -> bool {
    match heard {
        Ok(Some(pkt)) => if vstd::utf8::valid_utf8(pkt@.payload) {
            r matches Ok(Some((src, rssi, s))) && src == pkt@.src_addr && rssi == pkt@.rssi && s@
                == vstd::utf8::decode_utf8(pkt@.payload)
        } else {
            r matches Ok(None)
        },
        Ok(None) => r matches Ok(None),
        Err(e) => r == Err::<Option<(u16, Option<i16>, String)>, E>(e),
    }
}

/// Looks for a packet, and gives it as `packet_text` does. A packet that is no
/// text counts as none.
pub fn receive_text<R: LoraRadio>(radio: &mut R) -> (r: Result<
    Option<(u16, Option<i16>, String)>,
    R::Error,
>)
    ensures
        r matches Ok(Some((src, rssi, s))) ==> vstd::utf8::encode_utf8(s@).len()
            <= packet::PAYLOAD_MAX,
        exists|m: &mut R, heard: Result<Option<ReceivedPacket>, R::Error>| #[trigger]
            call_ensures(R::receive, (m,), heard) && *m == *old(radio) && *final(m) == *final(radio)
                && heard_text(heard, r),
{
    match radio.receive() {
        Ok(Some(pkt)) => {
            let bytes = payload_bytes(&pkt.payload);
            proof {
                if vstd::utf8::valid_utf8(bytes@) {
                    vstd::utf8::decode_utf8_encode_utf8(bytes@);
                }
            }
            Ok(packet_text(&pkt))
        },
        Ok(None) => Ok(None),
        Err(e) => Err(e),
    }
}

/// A node reads the acknowledgement that was written for it.
pub proof fn law_punch_ack_text_round_trip(node: u16, card_id: u32)
    ensures
        parsed_punch_ack_text(punch_ack_text(node, card_id)) == Some((node, card_id)),
{
    let a = decimal::dec(node as nat);
    let b = decimal::dec(card_id as nat);
    text::lemma_strip("PACK "@, a.push(' ') + b);
    decimal::lemma_dec_without(node as nat, ' ');
    text::lemma_head_tail(a, ' ', b);
    decimal::lemma_parse_dec(node as nat, u16::MAX as nat);
    decimal::lemma_parse_dec(card_id as nat, u32::MAX as nat);
}

/// A node reads the base station's version query and confirmation.
pub proof fn law_node_reads_base_station(target: u16)
    ensures
        parsed_version_query((protocol::FrameView::VersionQuery { target }).wire()) == Some(target),
        parsed_config_ack((protocol::FrameView::ConfigAck { target }).wire()) == Some(target),
{
    text::lemma_strip("VQUERY "@, decimal::dec(target as nat));
    text::lemma_strip("CACK "@, decimal::dec(target as nat));
    decimal::lemma_dec_trimmed(target as nat);
    decimal::lemma_parse_dec(target as nat, u16::MAX as nat);
}

/// An acknowledgement goes out as `PACK`, the node that read the card and the
/// card, with blanks between.
pub proof fn law_punch_ack_text_fields(node: u16, card_id: u32)
    ensures
        ({
            let f = text::split(punch_ack_text(node, card_id), ' ');
            &&& f.len() == 3
            &&& f[0] == "PACK"@
            &&& decimal::says(f[1], node as int)
            &&& decimal::says(f[2], card_id as int)
        }),
{
    reveal_strlit("PACK ");
    reveal_strlit("PACK");
    let a = decimal::dec(node as nat);
    let b = decimal::dec(card_id as nat);
    decimal::lemma_dec(node as nat);
    decimal::lemma_dec(card_id as nat);
    decimal::lemma_dec_without(node as nat, ' ');
    decimal::lemma_dec_without(card_id as nat, ' ');
    assert("PACK "@ =~= "PACK"@.push(' '));
    assert(!"PACK"@.contains(' '));
    text::lemma_split_cons("PACK"@, ' ', a.push(' ') + b);
    text::lemma_split_cons(a, ' ', b);
    text::lemma_split_cons(b, ' ', Seq::empty());
    assert(text::split(punch_ack_text(node, card_id), ' ') =~= seq!["PACK"@, a, b]);
}

} // verus!
