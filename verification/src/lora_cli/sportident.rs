//! The terminal's own reading of SportIdent cards: an older packet checksum,
//! SI-Card 9 images only, and a payload without an origin.

use vstd::prelude::*;
use crate::sportident;
use crate::sportident::card::{parse_punch, MARGIN};
use crate::sportident::crc::{ETX, STX, WAKEUP};
use crate::sportident::reader::{
    ParsedPacket, SiAction, SiEvent, C_GET_SI5, C_GET_SI6, C_GET_SI9,
};
use crate::sportident::{card, crc, reader};
use crate::{decimal, text};

pub use crate::sportident::card::CardType;
pub use crate::sportident::{CardReadout, ControlPunch};

verus! {

/// Offset of the number of punches in an SI-Card 9 image.
pub const SI9_PUNCH_COUNT_OFFSET: usize = 0x16;

/// Offset of the first punch in an SI-Card 9 image.
pub const SI9_PUNCH_START_OFFSET: usize = 0x38;

/// One bit of the checksum.
pub open spec fn shifted(crc: u16) -> u16 {
    if crc & 0x8000 != 0 {
        (crc << 1) ^ 0x8005
    } else {
        crc << 1
    }
}

/// Some bits of the checksum.
pub open spec fn shifted_by(crc: u16, n: nat) -> u16
    decreases n,
{
    if n == 0 {
        crc
    } else {
        shifted(shifted_by(crc, (n - 1) as nat))
    }
}

/// The checksum of bytes: a CRC of 16 bits with the polynomial 0x8005.
pub open spec fn checksum(data: Seq<u8>) -> u16
    decreases data.len(),
{
    if data.len() == 0 {
        0
    } else {
        shifted_by(checksum(data.drop_last()) ^ ((data.last() as u16) << 8), 8)
    }
}

/// Computes the checksum of bytes.
pub fn crc16(data: &[u8]) -> (r: u16)
    ensures
        r == checksum(data@),
{
    let mut crc: u16 = 0;
    let mut i: usize = 0;
    while i < data.len()
        invariant
            i <= data@.len(),
            crc == checksum(data@.take(i as int)),
        decreases data@.len() - i,
    {
        assert(data@.take(i + 1).drop_last() =~= data@.take(i as int));
        crc = crc ^ ((data[i] as u16) << 8);
        let ghost start = crc;
        let mut k: u8 = 0;
        while k < 8
            invariant
                k <= 8,
                crc == shifted_by(start, k as nat),
            decreases 8 - k,
        {
            crc = if crc & 0x8000 != 0 {
                (crc << 1) ^ 0x8005
            } else {
                crc << 1
            };
            k += 1;
        }
        i += 1;
    }
    assert(data@.take(data@.len() as int) =~= data@);
    crc
}

/// A bit of this checksum is a zero bit shifted in.
proof fn lemma_shifted_by(p: crc::Polynomial, c: u16, n: nat)
    requires
        crc::remains(p, c),
    ensures
        crc::remains(
            |k: int| if k < n {
                false
            } else {
                p(k - n)
            },
            shifted_by(c, n),
        ),
    decreases n,
{
    let o = |k: int| if k < n {
        false
    } else {
        p(k - n)
    };
    if n == 0 {
        crc::lemma_same_polynomial(p, o, c);
    } else {
        let m = (n - 1) as nat;
        let before = |k: int| if k < m {
            false
        } else {
            p(k - m)
        };
        lemma_shifted_by(p, c, m);
        let r = shifted_by(c, m);
        crc::lemma_shifted(before, r, 0);
        assert(shifted(r) == crc::shifted(r, 0)) by (bit_vector);
        let one = crc::times_x(before, false);
        assert forall|k: int| k >= 0 implies #[trigger] o(k) == one(k) by {}
        crc::lemma_same_polynomial(one, o, shifted(r));
    }
}

/// A byte that is added at the top of the register is added to the polynomial.
proof fn lemma_byte_added(p: crc::Polynomial, c: u16, b: u8)
    requires
        crc::remains(p, c),
    ensures
        crc::remains(
            |k: int| p(k) != (8 <= k < 16 && (b >> ((k - 8) as u8)) & 1 == 1),
            c ^ ((b as u16) << 8),
        ),
{
    let q = choose|q: Seq<bool>| crc::divides(p, q, c);
    let o = |k: int| p(k) != (8 <= k < 16 && (b >> ((k - 8) as u8)) & 1 == 1);
    let e = c ^ ((b as u16) << 8);
    assert forall|k: int| k >= 0 implies #[trigger] o(k) == (crc::multiple(q, k) != crc::bit(
        e,
        k,
    )) by {
        assert(p(k) == (crc::multiple(q, k) != crc::bit(c, k)));
        if k < 16 {
            let i = k as u16;
            let j = if k >= 8 {
                (k - 8) as u8
            } else {
                0u8
            };
            assert(((e >> i) & 1 == 1) == (((c >> i) & 1 == 1) != (i >= 8 && (b >> j) & 1 == 1)))
                by (bit_vector)
                requires
                    e == c ^ ((b as u16) << 8),
                    i < 16,
                    i < 8 || i == j + 8,
            ;
        }
    }
    assert(crc::divides(o, q, e));
}

/// This checksum is the remainder of the message with two zero bytes behind it
/// by `x^16 + x^15 + x^2 + 1`, and nothing else is.
pub proof fn law_checksum_is_the_remainder(data: Seq<u8>, r: u16)
    ensures
        crc::remains(crc::polynomial(data + seq![0u8, 0u8]), checksum(data)),
        crc::remains(crc::polynomial(data + seq![0u8, 0u8]), r) ==> r == checksum(data),
    decreases data.len(),
{
    let whole = data + seq![0u8, 0u8];
    let o = crc::polynomial(whole);
    if data.len() == 0 {
        let none = Seq::<bool>::empty();
        assert forall|k: int| k >= 0 implies #[trigger] o(k) == (crc::multiple(none, k)
            != crc::bit(0, k)) by {
            if k < 16 {
                let i = k as u16;
                let j = (k % 8) as u8;
                assert((0u16 >> i) & 1 == 0) by (bit_vector);
                assert((0u8 >> j) & 1 == 0) by (bit_vector);
                assert(whole[whole.len() - 1 - k / 8] == 0);
            }
        }
        assert(crc::divides(o, none, 0));
    } else {
        let front = data.drop_last();
        let b = data.last();
        let p = crc::polynomial(front + seq![0u8, 0u8]);
        let c = checksum(front);
        law_checksum_is_the_remainder(front, 0);
        lemma_byte_added(p, c, b);
        let added = |k: int| p(k) != (8 <= k < 16 && (b >> ((k - 8) as u8)) & 1 == 1);
        lemma_shifted_by(added, c ^ ((b as u16) << 8), 8);
        let moved = |k: int| if k < 8 {
            false
        } else {
            added(k - 8)
        };
        assert forall|k: int| k >= 0 implies #[trigger] o(k) == moved(k) by {
            let j = (k % 8) as u8;
            assert((0u8 >> j) & 1 == 0) by (bit_vector);
            if k < 16 {
                assert(whole[whole.len() - 1 - k / 8] == 0);
                if k >= 8 {
                    let f = front + seq![0u8, 0u8];
                    assert(f[f.len() - 1 - (k - 8) / 8] == 0);
                    assert((k - 8) % 8 == k % 8);
                }
            } else if k < 8 * whole.len() {
                let f = front + seq![0u8, 0u8];
                assert((k - 8) % 8 == k % 8 && (k - 8) / 8 == k / 8 - 1);
                if k < 24 {
                    assert(whole[whole.len() - 1 - k / 8] == b);
                    assert(f[f.len() - 1 - (k - 8) / 8] == 0);
                    assert((k - 8 - 8) == k % 8);
                } else {
                    assert(whole[whole.len() - 1 - k / 8] == f[f.len() - 1 - (k - 8) / 8]);
                }
            }
        }
        crc::lemma_same_polynomial(moved, o, checksum(data));
    }
    if crc::remains(o, r) {
        crc::lemma_remainder_is_unique(o, r, checksum(data));
    }
}

/// A command to the station: wake-up, start, command, length (its lowest byte),
/// data, checksum, end.
pub open spec fn command(cmd: u8, data: Seq<u8>) -> Seq<u8> {
    let body = seq![cmd, (data.len() % 256) as u8] + data;
    let sum = checksum(body);
    seq![WAKEUP, STX] + body + seq![(sum / 256) as u8, (sum % 256) as u8, ETX]
}

/// Builds a command to the station.
pub fn build_command(cmd: u8, data: &[u8]) -> (r: Vec<u8>)
    ensures
        r@ == command(cmd, data@),
{
    let mut body: Vec<u8> = vec![cmd, (data.len() % 256) as u8];
    body.extend_from_slice(data);
    assert(body@ =~= seq![cmd, (data@.len() % 256) as u8] + data@);
    let sum: u16 = crc16(body.as_slice());
    let mut out: Vec<u8> = vec![WAKEUP, STX];
    out.extend_from_slice(body.as_slice());
    out.push((sum / 256) as u8);
    out.push((sum % 256) as u8);
    out.push(ETX);
    assert(out@ =~= command(cmd, data@));
    out
}

/// A command is framed as a station expects it: woken up, begun, the command, the
/// number of data bytes, the data as they are, the checksum of command, number
/// and data with its high byte first, and ended.
pub proof fn law_command_is_framed(cmd: u8, data: Seq<u8>)
    ensures
        ({
            let p = command(cmd, data);
            let body = p.subrange(2, p.len() - 3);
            &&& p.len() == data.len() + 7
            &&& p[0] == 0xFF
            &&& p[1] == 0x02
            &&& p[2] == cmd
            &&& p[3] == data.len() % 256
            &&& p.subrange(4, p.len() - 3) == data
            &&& crc::remains(
                crc::polynomial(body + seq![0u8, 0u8]),
                (p[p.len() - 3] * 256 + p[p.len() - 2]) as u16,
            )
            &&& p[p.len() - 1] == 0x03
        }),
{
    let p = command(cmd, data);
    let body = seq![cmd, (data.len() % 256) as u8] + data;
    assert(p.subrange(2, p.len() - 3) =~= body);
    assert(p.subrange(4, p.len() - 3) =~= data);
    law_checksum_is_the_remainder(body, 0);
}

/// A readout as this terminal sends it: `PUNCH <card> <punches>`.
pub open spec fn payload(r: sportident::ReadoutView) -> Seq<char> {
    "PUNCH "@ + sportident::card_text(r)
}

/// Writes a readout as this terminal sends it.
pub fn to_payload(readout: &CardReadout) -> (r: String)
    ensures
        r@ == payload(readout@),
{
    let mut out: String = String::new();
    out.push_str("PUNCH ");
    readout.push_card_text(&mut out);
    assert(out@ =~= payload(readout@));
    out
}

/// The record of a punch: station, half of the day, seconds in it.
pub open spec fn record(data: Seq<u8>, i: int) -> ControlPunch {
    let off = SI9_PUNCH_START_OFFSET + 4 * i;
    ControlPunch {
        station: data[off],
        time_s: (data[off + 2] * 256 + data[off + 3] + if data[off + 1] % 2 == 1 {
            43200int
        } else {
            0
        }) as u32,
    }
}

/// The punches of `n` records, up to the first without a station.
pub open spec fn records(data: Seq<u8>, i: int, n: int) -> Seq<ControlPunch>
    decreases n - i,
{
    if i >= n || data[SI9_PUNCH_START_OFFSET + 4 * i] == 0 {
        Seq::empty()
    } else {
        seq![record(data, i)] + records(data, i + 1, n)
    }
}

/// How many records an image holds: as many as it says, but no more than fit.
pub open spec fn record_count(data: Seq<u8>) -> int {
    card::least(
        data[SI9_PUNCH_COUNT_OFFSET as int] as int,
        (data.len() - SI9_PUNCH_START_OFFSET) / 4,
    )
}

/// The readout of an SI-Card 9 image; `None` where it is too short.
pub open spec fn image9(card_id: u32, data: Seq<u8>) -> Option<sportident::ReadoutView> {
    if data.len() <= SI9_PUNCH_START_OFFSET {
        None
    } else {
        Some(
            sportident::ReadoutView { card_id, punches: records(data, 0, record_count(data)) },
        )
    }
}

/// Reads an SI-Card 9 image.
pub fn parse_si9(card_id: u32, data: &[u8]) -> (r: Option<CardReadout>)
    ensures
        sportident::opt_readout(r) == image9(card_id, data@),
{
    if data.len() <= SI9_PUNCH_START_OFFSET {
        return None;
    }
    let said: usize = data[SI9_PUNCH_COUNT_OFFSET] as usize;
    let most: usize = (data.len() - SI9_PUNCH_START_OFFSET) / 4;
    let count: usize = if said < most {
        said
    } else {
        most
    };
    let ghost all = records(data@, 0, count as int);
    let mut punches: Vec<ControlPunch> = Vec::new();
    let mut i: usize = 0;
    assert(punches@ + records(data@, 0, count as int) =~= all);
    while i < count
        invariant
            i <= count <= 255,
            SI9_PUNCH_START_OFFSET + 4 * count <= data@.len(),
            data@.len() == data.len(),
            count as int == record_count(data@),
            data@.len() > SI9_PUNCH_START_OFFSET,
            all == records(data@, 0, count as int),
            punches@ + records(data@, i as int, count as int) == all,
        decreases count - i,
    {
        let off: usize = SI9_PUNCH_START_OFFSET + 4 * i;
        let station: u8 = data[off];
        if station == 0 {
            assert(punches@ =~= all);
            return Some(CardReadout { card_id, punches });
        }
        let half: u32 = if data[off + 1] % 2 == 1 {
            43200
        } else {
            0
        };
        let time_s: u32 = data[off + 2] as u32 * 256 + data[off + 3] as u32 + half;
        let ghost before = punches@;
        punches.push(ControlPunch { station, time_s });
        assert(punches@ + records(data@, i + 1, count as int) =~= before + records(
            data@,
            i as int,
            count as int,
        ));
        i += 1;
    }
    assert(punches@ =~= all);
    Some(CardReadout { card_id, punches })
}

/// Records are read one after the other up to the first without a station.
proof fn lemma_records(data: Seq<u8>, j: int, n: int)
    ensures
        records(data, j, n).len() <= if n > j {
            n - j
        } else {
            0
        },
        forall|i: int|
            0 <= i < records(data, j, n).len() ==> #[trigger] records(data, j, n)[i] == record(
                data,
                j + i,
            ) && data[0x38 + 4 * (j + i)] != 0,
        records(data, j, n).len() < n - j ==> data[0x38 + 4 * (j + records(data, j, n).len())] == 0,
    decreases n - j,
{
    if j < n && data[0x38 + 4 * j] != 0 {
        let rest = records(data, j + 1, n);
        let all = records(data, j, n);
        lemma_records(data, j + 1, n);
        assert(all.len() == rest.len() + 1);
        assert forall|i: int| 0 <= i < all.len() implies #[trigger] all[i] == record(data, j + i)
            && data[0x38 + 4 * (j + i)] != 0 by {
            if i > 0 {
                assert(all[i] == rest[i - 1]);
                assert(j + 1 + (i - 1) == j + i);
            }
        }
        assert(j + 1 + rest.len() == j + all.len());
    }
}

/// A card image is read as it stands: from byte 56 on, record `i` is the control,
/// a day byte, and two bytes of seconds, the high one first; half a day is added
/// where the lowest bit of the day byte is set, whatever its other bits. As many
/// records are read as byte 22 counts, but no more than arrived, and none from
/// the first without a control on.
pub proof fn law_card_is_read(card_id: u32, data: Seq<u8>, i: int)
    ensures
        image(CardType::Si9, card_id, data) is Some <==> data.len() > 56,
        image(CardType::Si9, card_id, data) matches Some(r) ==> {
            let n = r.punches.len() as int;
            &&& r.card_id == card_id
            &&& n <= data[22]
            &&& 56 + 4 * n <= data.len()
            &&& n < data[22] && 56 + 4 * n + 4 <= data.len() ==> data[56 + 4 * n] == 0
            &&& 0 <= i < n ==> {
                let at = 56 + 4 * i;
                &&& r.punches[i].station == data[at]
                &&& r.punches[i].station != 0
                &&& data[at + 1] & 1 == 0 ==> r.punches[i].time_s == data[at + 2] * 256 + data[at
                    + 3]
                &&& data[at + 1] & 1 == 1 ==> r.punches[i].time_s == data[at + 2] * 256 + data[at
                    + 3] + 43_200
            }
        },
{
    if let Some(r) = image(CardType::Si9, card_id, data) {
        lemma_records(data, 0, record_count(data));
        let n = r.punches.len();
        assert(0 + n == n);
        if 0 <= i < n {
            let day = data[56 + 4 * i + 1];
            assert(day & 1 == day % 2) by (bit_vector);
            assert(r.punches[i] == record(data, 0 + i));
        }
    }
}

/// The readout of a card image; of other cards than an SI-Card 9 only the number
/// is known.
pub open spec fn image(t: CardType, card_id: u32, data: Seq<u8>) -> Option<
    sportident::ReadoutView,
> {
    match t {
        CardType::Si9 => image9(card_id, data),
        _ => Some(sportident::ReadoutView { card_id, punches: Seq::empty() }),
    }
}

/// Reads a card image.
pub fn parse_card_data(t: CardType, card_id: u32, data: &[u8]) -> (r: Option<CardReadout>)
    ensures
        sportident::opt_readout(r) == image(t, card_id, data@),
{
    match t {
        CardType::Si9 => parse_si9(card_id, data),
        _ => {
            let punches: Vec<ControlPunch> = Vec::new();
            assert(punches@ =~= Seq::empty());
            Some(CardReadout { card_id, punches })
        },
    }
}

/// The state of the reader.
pub struct CliReaderView {
    /// Bytes received and not used yet.
    pub buf: Seq<u8>,
    /// The inserted card whose image was asked for.
    pub pending: Option<(CardType, u32)>,
}

/// What one packet does: the state after it and the action it asks for. Records
/// of backup memory and system values are not asked for and mean nothing.
pub open spec fn handled(v: CliReaderView, p: reader::PacketView, now_s: u32) -> (
    CliReaderView,
    Option<reader::ActionView>,
) {
    match p {
        reader::PacketView::CardInserted { card_type, card_id, .. } => (
            CliReaderView { pending: Some((card_type, card_id)), ..v },
            Some(
                reader::ActionView::Send(command(reader::readout_command(card_type), Seq::empty())),
            ),
        ),
        reader::PacketView::CardData { data } => match v.pending {
            Some((card_type, card_id)) => (
                CliReaderView { pending: None, ..v },
                reader::deliver(reader::readout_event(image(card_type, card_id, data))),
            ),
            None => (v, None),
        },
        reader::PacketView::CardRemoved => (
            CliReaderView { pending: None, ..v },
            Some(reader::ActionView::Event(reader::EventView::CardRemoved)),
        ),
        reader::PacketView::Punch { control, data } => (
            v,
            reader::deliver(reader::readout_event(card::live_punch(control, data, now_s))),
        ),
        _ => (v, None),
    }
}

/// The reader taken as far as the received bytes reach.
pub open spec fn advanced(v: CliReaderView, now_s: u32) -> (CliReaderView, reader::ActionView)
    decreases v.buf.len(),
{
    proof {
        reader::lemma_next_packet(v.buf);
    }
    let (packet, rest) = reader::next_packet(v.buf);
    let w = CliReaderView { buf: rest, ..v };
    match packet {
        None => (w, reader::ActionView::Idle),
        Some(p) => {
            let (x, action) = handled(w, p, now_s);
            match action {
                Some(a) => (x, a),
                None => advanced(x, now_s),
            }
        },
    }
}

/// The reader of one master station.
pub struct SiReader {
    pub packets: reader::SiReader,
    pub pending: Option<(CardType, u32)>,
}

impl View for SiReader {
    type V = CliReaderView;

    open spec fn view(&self) -> CliReaderView {
        CliReaderView { buf: self.packets@.buf, pending: self.pending }
    }
}

impl SiReader {
    /// A reader that has received nothing.
    pub fn new() -> (r: SiReader)
        ensures
            r@ == (CliReaderView { buf: Seq::empty(), pending: None }),
    {
        SiReader { packets: reader::SiReader::new(), pending: None }
    }

    /// Takes in bytes read from the port.
    pub fn feed(&mut self, bytes: &[u8])
        ensures
            final(self)@ == (CliReaderView { buf: old(self)@.buf + bytes@, ..old(self)@ }),
    {
        self.packets.feed(bytes);
    }

    /// Does what one packet asks for.
    fn handle(&mut self, pkt: ParsedPacket, now_s: u32) -> (r: Option<SiAction>)
        requires
            now_s + MARGIN <= u32::MAX,
        ensures
            final(self)@ == handled(old(self)@, pkt@, now_s).0,
            reader::opt_action(r) == handled(old(self)@, pkt@, now_s).1,
    {
        match pkt {
            ParsedPacket::CardInserted { card_type, card_id, .. } => {
                self.pending = Some((card_type, card_id));
                let get_cmd: u8 = match card_type {
                    CardType::Si5 => C_GET_SI5,
                    CardType::Si6 => C_GET_SI6,
                    CardType::Si9 => C_GET_SI9,
                };
                let empty: Vec<u8> = Vec::new();
                assert(empty@ =~= Seq::<u8>::empty());
                Some(SiAction::Send(build_command(get_cmd, empty.as_slice())))
            },
            ParsedPacket::CardData { data } => match self.pending {
                Some((card_type, card_id)) => {
                    self.pending = None;
                    match parse_card_data(card_type, card_id, data.as_slice()) {
                        Some(readout) => Some(SiAction::Event(SiEvent::CardReadout(readout))),
                        None => None,
                    }
                },
                None => None,
            },
            ParsedPacket::CardRemoved => {
                self.pending = None;
                Some(SiAction::Event(SiEvent::CardRemoved))
            },
            ParsedPacket::Punch { control, data } => match parse_punch(
                control,
                data.as_slice(),
                now_s,
            ) {
                Some(readout) => Some(SiAction::Event(SiEvent::CardReadout(readout))),
                None => None,
            },
            _ => None,
        }
    }

    /// Works through the received bytes up to the next action. `now_s` is the
    /// clock in seconds since local midnight.
    pub fn read_event(&mut self, now_s: u32) -> (r: SiAction)
        requires
            now_s + MARGIN <= u32::MAX,
        ensures
            final(self)@ == advanced(old(self)@, now_s).0,
            r@ == advanced(old(self)@, now_s).1,
    {
        loop
            invariant
                now_s + MARGIN <= u32::MAX,
                advanced(self@, now_s) == advanced(old(self)@, now_s),
            decreases self@.buf.len(),
        {
            proof {
                reader::lemma_next_packet(self@.buf);
            }
            let packet = self.packets.try_parse_packet();
            // This terminal gives no warnings.
            let _ = self.packets.take_faults();
            match packet {
                None => return SiAction::Idle,
                Some(pkt) => {
                    if let Some(action) = self.handle(pkt, now_s) {
                        return action;
                    }
                },
            }
        }
    }
}

/// An inserted card is asked for its image, and the image that comes next is
/// reported under the number of that card; after that, or once the card is taken
/// out, no image is.
pub proof fn law_inserted_card_is_read_out(
    v: CliReaderView,
    card_type: CardType,
    series: u8,
    card_id: u32,
    data: Seq<u8>,
    now_s: u32,
)
    ensures
        ({
            let (w, action) = handled(
                v,
                reader::PacketView::CardInserted { card_type, series, card_id },
                now_s,
            );
            let (x, report) = handled(w, reader::PacketView::CardData { data }, now_s);
            let (y, gone) = handled(w, reader::PacketView::CardRemoved, now_s);
            &&& action matches Some(reader::ActionView::Send(c))
            &&& c.len() == 7
            &&& c[2] == (match card_type {
                CardType::Si5 => 0xB1u8,
                CardType::Si6 => 0xE1u8,
                CardType::Si9 => 0xEFu8,
            })
            &&& (report matches Some(a) ==> (a matches reader::ActionView::Event(
                reader::EventView::CardReadout(r),
            ) && r.card_id == card_id && image(card_type, card_id, data) == Some(r)))
            &&& report is None <==> image(card_type, card_id, data) is None
            &&& handled(x, reader::PacketView::CardData { data }, now_s).1 is None
            &&& gone == Some(reader::ActionView::Event(reader::EventView::CardRemoved))
            &&& handled(y, reader::PacketView::CardData { data }, now_s).1 is None
        }),
{
    law_command_is_framed(reader::readout_command(card_type), Seq::empty());
}

/// This terminal sends a card as `PUNCH`, the card and its punches, with blanks
/// between.
pub proof fn law_payload_begins_with_the_card(r: sportident::ReadoutView)
    ensures
        ({
            let s = payload(r);
            &&& text::head(s, ' ') == "PUNCH"@
            &&& text::tail(s, ' ') matches Some(t)
            &&& decimal::says(text::head(t, ' '), r.card_id as int)
            &&& text::tail(t, ' ') == Some(sportident::punch_list(r.punches))
        }),
{
    reveal_strlit("PUNCH ");
    reveal_strlit("PUNCH");
    let c = decimal::dec(r.card_id as nat);
    let list = sportident::punch_list(r.punches);
    decimal::lemma_dec(r.card_id as nat);
    decimal::lemma_dec_without(r.card_id as nat, ' ');
    assert("PUNCH "@ =~= "PUNCH"@.push(' '));
    assert(!"PUNCH"@.contains(' '));
    text::lemma_head_tail("PUNCH"@, ' ', c.push(' ') + list);
    text::lemma_head_tail(c, ' ', list);
}

} // verus!
