//! The reader of a master station: packets out of a byte stream, and what to
//! do about each.

use vstd::prelude::*;
use super::card::{
    parse_backup_record, parse_card_data, parse_punch, read_be24, CardType, MARGIN,
    PUNCH_BACKUP_OFFSET_OFFSET,
};
use super::crc::{build_command, crc16, ETX, STX};
use super::{card, crc, CardReadout, ReadoutView};

verus! {

/// A card of the oldest generation was inserted.
pub const C_SI5_DET: u8 = 0xE5;

/// An SI-Card 6 was inserted.
pub const C_SI6_DET: u8 = 0xE6;

/// An SI-Card 8, 9, 10 or 11 was inserted.
pub const C_SI9_DET: u8 = 0xE8;

/// The card was taken out.
pub const C_SI_REM: u8 = 0xE7;

/// Reads out an SI-Card 5.
pub const C_GET_SI5: u8 = 0xB1;

/// Reads out an SI-Card 6.
pub const C_GET_SI6: u8 = 0xE1;

/// Reads out an SI-Card 8, 9, 10 or 11.
pub const C_GET_SI9: u8 = 0xEF;

/// A live punch of a station in control mode.
pub const C_TRANS_REC: u8 = 0xD3;

/// Reads a system value.
pub const C_GET_SYS_VAL: u8 = 0x83;

/// Reads a record of the backup memory.
pub const C_GET_BACKUP: u8 = 0x81;

/// System value: operating mode.
pub const O_MODE: u8 = 0x71;

/// System value: protocol configuration.
pub const O_PROTO: u8 = 0x74;

/// Operating mode of a control.
pub const M_CONTROL: u8 = 0x02;

/// Length of a record of the backup memory.
pub const BACKUP_REC_LEN: u8 = 8;

/// What the reader reports.
#[derive(Debug)]
pub enum SiEvent {
    CardReadout(CardReadout),
    CardRemoved,
}

/// A reported event as a value.
pub enum EventView {
    CardReadout(ReadoutView),
    CardRemoved,
}

impl View for SiEvent {
    type V = EventView;

    open spec fn view(&self) -> EventView {
        match *self {
            SiEvent::CardReadout(r) => EventView::CardReadout(r@),
            SiEvent::CardRemoved => EventView::CardRemoved,
        }
    }
}

/// A packet of a station, by what it announces.
#[derive(Debug)]
pub enum ParsedPacket {
    CardInserted { card_type: CardType, series: u8, card_id: u32 },
    CardRemoved,
    CardData { data: Vec<u8> },
    Punch { control: u16, data: Vec<u8> },
    BackupRecord { control: u16, data: Vec<u8> },
    SysVal { data: Vec<u8> },
}

/// A packet as a value.
pub enum PacketView {
    CardInserted { card_type: CardType, series: u8, card_id: u32 },
    CardRemoved,
    CardData { data: Seq<u8> },
    Punch { control: u16, data: Seq<u8> },
    BackupRecord { control: u16, data: Seq<u8> },
    SysVal { data: Seq<u8> },
}

impl View for ParsedPacket {
    type V = PacketView;

    open spec fn view(&self) -> PacketView {
        match *self {
            ParsedPacket::CardInserted { card_type, series, card_id } => PacketView::CardInserted {
                card_type,
                series,
                card_id,
            },
            ParsedPacket::CardRemoved => PacketView::CardRemoved,
            ParsedPacket::CardData { data } => PacketView::CardData { data: data@ },
            ParsedPacket::Punch { control, data } => PacketView::Punch { control, data: data@ },
            ParsedPacket::BackupRecord { control, data } => PacketView::BackupRecord {
                control,
                data: data@,
            },
            ParsedPacket::SysVal { data } => PacketView::SysVal { data: data@ },
        }
    }
}

/// An optional packet as a value.
pub open spec fn opt_packet(o: Option<ParsedPacket>) -> Option<PacketView> {
    match o {
        Some(p) => Some(p@),
        None => None,
    }
}

/// Position of the first `b` in `s`, or the length of `s`.
pub open spec fn position(s: Seq<u8>, b: u8) -> int
    decreases s.len(),
{
    if s.len() == 0 || s[0] == b {
        0
    } else {
        1 + position(s.skip(1), b)
    }
}

/// `position` lies within the sequence or at its end.
proof fn lemma_position(s: Seq<u8>, b: u8)
    ensures
        0 <= position(s, b) <= s.len(),
        position(s, b) < s.len() ==> s[position(s, b)] == b,
    decreases s.len(),
{
    if s.len() > 0 && s[0] != b {
        lemma_position(s.skip(1), b);
    }
}

/// Position of the first `b`.
fn find_byte(s: &Vec<u8>, b: u8) -> (k: usize)
    ensures
        k == position(s@, b),
{
    let mut i: usize = 0;
    assert(s@.skip(0) =~= s@);
    while i < s.len()
        invariant
            i <= s@.len(),
            position(s@, b) == i + position(s@.skip(i as int), b),
        decreases s@.len() - i,
    {
        if s[i] == b {
            return i;
        }
        assert(s@.skip(i as int).skip(1) =~= s@.skip(i + 1));
        i += 1;
    }
    i
}

/// What a complete packet announces; `None` for a command that means nothing
/// here.
pub open spec fn meaning(cmd: u8, station: u16, data: Seq<u8>) -> Option<PacketView> {
    if cmd == C_TRANS_REC {
        Some(PacketView::Punch { control: station, data })
    } else if cmd == C_SI5_DET && data.len() >= 3 {
        Some(
            PacketView::CardInserted {
                card_type: CardType::Si5,
                series: 0,
                card_id: card::be24(data, 0) as u32,
            },
        )
    } else if cmd == C_SI6_DET && data.len() >= 3 {
        Some(
            PacketView::CardInserted {
                card_type: CardType::Si6,
                series: data[0],
                card_id: card::be24(data, 0) as u32,
            },
        )
    } else if cmd == C_SI9_DET && data.len() >= 4 {
        Some(
            PacketView::CardInserted {
                card_type: CardType::Si9,
                series: data[0],
                card_id: card::be24(data, 1) as u32,
            },
        )
    } else if cmd == C_SI_REM {
        Some(PacketView::CardRemoved)
    } else if cmd == C_GET_SI5 || cmd == C_GET_SI6 || cmd == C_GET_SI9 {
        Some(PacketView::CardData { data })
    } else if cmd == C_GET_SYS_VAL {
        Some(PacketView::SysVal { data })
    } else if cmd == C_GET_BACKUP {
        Some(PacketView::BackupRecord { control: station, data })
    } else {
        None
    }
}

/// The first meaningful packet of a byte stream, and the bytes that remain.
///
/// A packet is `STX, command, length, station (2), data, checksum (2), ETX`,
/// where the length counts the station and the data. Bytes that cannot begin a
/// packet are skipped. The checksum does not decide.
pub open spec fn next_packet(b: Seq<u8>) -> (Option<PacketView>, Seq<u8>)
    decreases b.len(),
{
    let k = position(b, STX);
    let c = b.skip(k);
    if !(0 <= k < b.len()) {
        (None, b)
    } else if c.len() < 3 || c.len() < c[2] + 6 {
        (None, c)
    } else if c[2] < 2 || c[c[2] + 5] != ETX {
        next_packet(c.skip(1))
    } else {
        let rest = c.skip(c[2] + 6);
        match meaning(c[1], (c[3] * 256 + c[4]) as u16, c.subrange(5, 3 + c[2])) {
            Some(p) => (Some(p), rest),
            None => next_packet(rest),
        }
    }
}

/// Finding a packet uses up bytes.
pub proof fn lemma_next_packet(b: Seq<u8>)
    ensures
        next_packet(b).1.len() <= b.len(),
        next_packet(b).0 is Some ==> next_packet(b).1.len() < b.len(),
    decreases b.len(),
{
    let k = position(b, STX);
    if 0 <= k < b.len() {
        let c = b.skip(k);
        if c.len() >= 3 && c.len() >= c[2] + 6 {
            if c[2] < 2 || c[c[2] + 5] != ETX {
                lemma_next_packet(c.skip(1));
            } else {
                lemma_next_packet(c.skip(c[2] + 6));
            }
        }
    }
}

/// A packet whose checksum is not that of its contents. It is used all the same:
/// the fault is only worth a warning.
#[derive(Debug, Clone, Copy, PartialEq, Eq, Structural)]
pub struct Fault {
    /// The packet's command.
    pub cmd: u8,
    /// The checksum that came.
    pub got: u16,
    /// The checksum of the command, the length, the station and the data.
    pub expected: u16,
}

/// Whether bytes have the length of the packet that they begin.
pub open spec fn framed(p: Seq<u8>) -> bool {
    p.len() >= 3 && p.len() == p[2] + 6
}

/// What is wrong with the checksum of a packet.
pub open spec fn fault(p: Seq<u8>) -> Option<Fault> {
    let n = p[2] as int;
    let got = (p[n + 3] * 256 + p[n + 4]) as u16;
    let expected = crc::checksum(p.subrange(1, n + 3));
    if got == expected {
        None
    } else {
        Some(Fault { cmd: p[1], got, expected })
    }
}

/// Compares the checksum of a packet with its contents; `None` where they
/// agree.
pub fn crc_fault(packet: &[u8]) -> (r: Option<Fault>)
    requires
        framed(packet@),
    ensures
        r == fault(packet@),
{
    let n: usize = packet[2] as usize;
    let got: u16 = packet[n + 3] as u16 * 256 + packet[n + 4] as u16;
    let expected: u16 = crc16(vstd::slice::slice_subrange(packet, 1, n + 3));
    if got == expected {
        None
    } else {
        Some(Fault { cmd: packet[1], got, expected })
    }
}

/// An optional fault as a list.
pub open spec fn listed(o: Option<Fault>) -> Seq<Fault> {
    match o {
        Some(f) => seq![f],
        None => Seq::empty(),
    }
}

/// The faults of the packets that are taken out of a byte stream up to the first
/// meaningful one, in order.
pub open spec fn faults(b: Seq<u8>) -> Seq<Fault>
    decreases b.len(),
{
    let k = position(b, STX);
    let c = b.skip(k);
    if !(0 <= k < b.len()) {
        Seq::empty()
    } else if c.len() < 3 || c.len() < c[2] + 6 {
        Seq::empty()
    } else if c[2] < 2 || c[c[2] + 5] != ETX {
        faults(c.skip(1))
    } else {
        let here = listed(fault(c.take(c[2] + 6)));
        match meaning(c[1], (c[3] * 256 + c[4]) as u16, c.subrange(5, 3 + c[2])) {
            Some(p) => here,
            None => here + faults(c.skip(c[2] + 6)),
        }
    }
}

/// What the owner of the port has to do next.
#[derive(Debug)]
pub enum SiAction {
    /// Wait for more bytes.
    Idle,
    /// Write these bytes, then ask again.
    Send(Vec<u8>),
    /// Write these bytes to ask for a missed record; say so with
    /// `recovery_requested` where that worked. Then deliver the event, if
    /// there is one.
    Recover(Vec<u8>, Option<SiEvent>),
    /// Deliver the event.
    Event(SiEvent),
}

/// An action as a value.
pub enum ActionView {
    Idle,
    Send(Seq<u8>),
    Recover(Seq<u8>, Option<EventView>),
    Event(EventView),
}

/// An optional event as a value.
pub open spec fn opt_event(o: Option<SiEvent>) -> Option<EventView> {
    match o {
        Some(e) => Some(e@),
        None => None,
    }
}

impl View for SiAction {
    type V = ActionView;

    open spec fn view(&self) -> ActionView {
        match *self {
            SiAction::Idle => ActionView::Idle,
            SiAction::Send(b) => ActionView::Send(b@),
            SiAction::Recover(b, e) => ActionView::Recover(b@, opt_event(e)),
            SiAction::Event(e) => ActionView::Event(e@),
        }
    }
}

/// An optional action as a value.
pub open spec fn opt_action(o: Option<SiAction>) -> Option<ActionView> {
    match o {
        Some(a) => Some(a@),
        None => None,
    }
}

/// The state of a reader.
pub struct ReaderView {
    /// Bytes received and not used yet.
    pub buf: Seq<u8>,
    /// The inserted card whose image was asked for.
    pub pending: Option<(CardType, u8, u32)>,
    /// Where in backup memory the next live punch is expected.
    pub next_backup_offset: Option<u32>,
    /// Whether a missed record was asked for and has not come yet.
    pub recovery_pending: bool,
    /// Faults of packets that nobody asked for yet, in order.
    pub faults: Seq<Fault>,
}

/// The command that reads out a card.
pub open spec fn readout_command(t: CardType) -> u8 {
    match t {
        CardType::Si5 => C_GET_SI5,
        CardType::Si6 => C_GET_SI6,
        CardType::Si9 => C_GET_SI9,
    }
}

/// The request for the record of backup memory at `offset`.
pub open spec fn backup_request(offset: u32) -> Seq<u8> {
    crc::command(
        C_GET_BACKUP,
        seq![
            (offset / 0x1_0000 % 256) as u8,
            (offset / 256 % 256) as u8,
            (offset % 256) as u8,
            BACKUP_REC_LEN,
        ],
    )
}

/// What follows from the memory position in a live punch: a punch further on
/// than expected means that records were missed, and the first of them is asked
/// for unless a request is out already.
pub open spec fn followed(v: ReaderView, data: Seq<u8>) -> (ReaderView, Option<Seq<u8>>) {
    if data.len() < PUNCH_BACKUP_OFFSET_OFFSET + 3 {
        (v, None)
    } else {
        let cur = card::be24(data, PUNCH_BACKUP_OFFSET_OFFSET as int);
        match v.next_backup_offset {
            Some(expected) if cur > expected => if v.recovery_pending {
                (v, None)
            } else {
                (v, Some(backup_request(expected)))
            },
            _ => (
                ReaderView { next_backup_offset: Some((cur + BACKUP_REC_LEN) as u32), ..v },
                None,
            ),
        }
    }
}

/// A readout as the event that reports it.
pub open spec fn readout_event(o: Option<ReadoutView>) -> Option<EventView> {
    match o {
        Some(r) => Some(EventView::CardReadout(r)),
        None => None,
    }
}

/// An event as the action that delivers it.
pub open spec fn deliver(o: Option<EventView>) -> Option<ActionView> {
    match o {
        Some(e) => Some(ActionView::Event(e)),
        None => None,
    }
}

/// What one packet does: the state after it and the action it asks for.
pub open spec fn handled(v: ReaderView, p: PacketView, now_s: u32) -> (
    ReaderView,
    Option<ActionView>,
) {
    match p {
        PacketView::CardInserted { card_type, series, card_id } => (
            ReaderView { pending: Some((card_type, series, card_id)), ..v },
            Some(ActionView::Send(crc::command(readout_command(card_type), Seq::empty()))),
        ),
        PacketView::CardData { data } => match v.pending {
            Some((card_type, series, card_id)) => (
                ReaderView { pending: None, ..v },
                deliver(readout_event(card::image(card_type, series, card_id, data))),
            ),
            None => (v, None),
        },
        PacketView::CardRemoved => (
            ReaderView { pending: None, ..v },
            Some(ActionView::Event(EventView::CardRemoved)),
        ),
        PacketView::Punch { control, data } => {
            let (w, request) = followed(v, data);
            let event = readout_event(card::live_punch(control, data, now_s));
            match request {
                Some(bytes) => (w, Some(ActionView::Recover(bytes, event))),
                None => (w, deliver(event)),
            }
        },
        PacketView::BackupRecord { control, data } => (
            ReaderView {
                recovery_pending: false,
                next_backup_offset: match v.next_backup_offset {
                    Some(off) => Some(((off + BACKUP_REC_LEN) % 0x1_0000_0000) as u32),
                    None => None,
                },
                ..v
            },
            deliver(readout_event(card::backup_punch(control, data, now_s))),
        ),
        PacketView::SysVal { data } => (v, None),
    }
}

/// The reader taken as far as the received bytes reach: the state in which it
/// stops and the action at which it does.
pub open spec fn advanced(v: ReaderView, now_s: u32) -> (ReaderView, ActionView)
    decreases v.buf.len(),
{
    proof {
        lemma_next_packet(v.buf);
    }
    let (packet, rest) = next_packet(v.buf);
    let w = ReaderView { buf: rest, faults: v.faults + faults(v.buf), ..v };
    match packet {
        None => (w, ActionView::Idle),
        Some(p) => {
            let (x, action) = handled(w, p, now_s);
            match action {
                Some(a) => (x, a),
                None => advanced(x, now_s),
            }
        },
    }
}

/// The reader of one master station.
pub struct SiReader {
    buf: Vec<u8>,
    pending: Option<(CardType, u8, u32)>,
    next_backup_offset: Option<u32>,
    recovery_pending: bool,
    faults: Vec<Fault>,
}

impl View for SiReader {
    type V = ReaderView;

    closed spec fn view(&self) -> ReaderView {
        ReaderView {
            buf: self.buf@,
            pending: self.pending,
            next_backup_offset: self.next_backup_offset,
            recovery_pending: self.recovery_pending,
            faults: self.faults@,
        }
    }
}

impl SiReader {
    /// A reader that has received nothing.
    pub fn new() -> (r: SiReader)
        ensures
            r@ == (ReaderView {
                buf: Seq::empty(),
                pending: None,
                next_backup_offset: None,
                recovery_pending: false,
                faults: Seq::empty(),
            }),
    {
        SiReader {
            buf: Vec::new(),
            pending: None,
            next_backup_offset: None,
            recovery_pending: false,
            faults: Vec::new(),
        }
    }

    /// Takes in bytes read from the port.
    pub fn feed(&mut self, bytes: &[u8])
        ensures
            final(self)@ == (ReaderView { buf: old(self)@.buf + bytes@, ..old(self)@ }),
    {
        self.buf.extend_from_slice(bytes);
        assert(self.buf@ =~= old(self)@.buf + bytes@);
    }

    /// Hands over the faults that were noted since the last time.
    pub fn take_faults(&mut self) -> (r: Vec<Fault>)
        ensures
            r@ == old(self)@.faults,
            final(self)@ == (ReaderView { faults: Seq::empty(), ..old(self)@ }),
    {
        let r = self.faults.split_off(0);
        assert(r@ =~= old(self)@.faults);
        assert(self.faults@ =~= Seq::empty());
        r
    }

    /// Takes the first meaningful packet out of the received bytes, and notes
    /// the faults of the packets that it takes out.
    pub fn try_parse_packet(&mut self) -> (r: Option<ParsedPacket>)
        ensures
            opt_packet(r) == next_packet(old(self)@.buf).0,
            final(self)@ == (ReaderView {
                buf: next_packet(old(self)@.buf).1,
                faults: old(self)@.faults + faults(old(self)@.buf),
                ..old(self)@
            }),
    {
        assert(self.faults@ + faults(self.buf@) =~= old(self)@.faults + faults(old(self)@.buf));
        loop
            invariant
                next_packet(self.buf@) == next_packet(old(self)@.buf),
                self.faults@ + faults(self.buf@) == old(self)@.faults + faults(old(self)@.buf),
                self@ == (ReaderView { buf: self.buf@, faults: self.faults@, ..old(self)@ }),
            decreases self.buf@.len(),
        {
            proof {
                lemma_position(self.buf@, STX);
            }
            let k: usize = find_byte(&self.buf, STX);
            if k == self.buf.len() {
                assert(self.faults@ + faults(self.buf@) =~= self.faults@);
                return None;
            }
            let ghost whole = self.buf@;
            self.buf = self.buf.split_off(k);
            let ghost c = whole.skip(k as int);
            assert(self.buf@ =~= c);
            if self.buf.len() < 3 {
                assert(self.faults@ + faults(whole) =~= self.faults@);
                return None;
            }
            let cmd: u8 = self.buf[1];
            let len: usize = self.buf[2] as usize;
            if self.buf.len() < len + 6 {
                assert(self.faults@ + faults(whole) =~= self.faults@);
                return None;
            }
            if len < 2 || self.buf[len + 5] != ETX {
                self.buf = self.buf.split_off(1);
                assert(self.buf@ =~= c.skip(1));
                continue ;
            }
            let packet = vstd::slice::slice_subrange(self.buf.as_slice(), 0, len + 6);
            assert(packet@ =~= c.take(len + 6));
            let ghost noted = self.faults@;
            if let Some(f) = crc_fault(packet) {
                self.faults.push(f);
            }
            assert(self.faults@ =~= noted + listed(fault(c.take(len + 6))));
            let station: u16 = self.buf[3] as u16 * 256 + self.buf[4] as u16;
            let mut data: Vec<u8> = self.buf.split_off(5);
            let rest: Vec<u8> = data.split_off(len + 1);
            self.buf = rest;
            data.truncate(len - 2);
            assert(self.buf@ =~= c.skip(len + 6));
            assert(data@ =~= c.subrange(5, 3 + len));
            assert(self.faults@ + faults(self.buf@) =~= noted + (listed(
                fault(c.take(len + 6)),
            ) + faults(self.buf@)));
            match cmd {
                C_TRANS_REC => return Some(ParsedPacket::Punch { control: station, data }),
                C_SI5_DET if data.len() >= 3 => {
                    return Some(
                        ParsedPacket::CardInserted {
                            card_type: CardType::Si5,
                            series: 0,
                            card_id: read_be24(data.as_slice(), 0),
                        },
                    );
                },
                C_SI6_DET if data.len() >= 3 => {
                    return Some(
                        ParsedPacket::CardInserted {
                            card_type: CardType::Si6,
                            series: data[0],
                            card_id: read_be24(data.as_slice(), 0),
                        },
                    );
                },
                C_SI9_DET if data.len() >= 4 => {
                    return Some(
                        ParsedPacket::CardInserted {
                            card_type: CardType::Si9,
                            series: data[0],
                            card_id: read_be24(data.as_slice(), 1),
                        },
                    );
                },
                C_SI_REM => return Some(ParsedPacket::CardRemoved),
                C_GET_SI5 | C_GET_SI6 | C_GET_SI9 => return Some(ParsedPacket::CardData { data }),
                C_GET_SYS_VAL => return Some(ParsedPacket::SysVal { data }),
                C_GET_BACKUP => {
                    return Some(ParsedPacket::BackupRecord { control: station, data });
                },
                _ => continue ,
            }
        }
    }

    /// Notes the memory position of a live punch; returns the request for a
    /// missed record, where there is one to make.
    fn track_backup_offset(&mut self, data: &[u8]) -> (r: Option<Vec<u8>>)
        ensures
            final(self)@ == followed(old(self)@, data@).0,
            r matches Some(b) ==> followed(old(self)@, data@).1 == Some(b@),
            r is None ==> followed(old(self)@, data@).1 is None,
    {
        if data.len() < PUNCH_BACKUP_OFFSET_OFFSET + 3 {
            return None;
        }
        let cur: u32 = read_be24(data, PUNCH_BACKUP_OFFSET_OFFSET);
        if let Some(expected) = self.next_backup_offset {
            if cur > expected {
                if self.recovery_pending {
                    return None;
                }
                let mut body: Vec<u8> = Vec::new();
                body.push((expected / 0x1_0000 % 256) as u8);
                body.push((expected / 256 % 256) as u8);
                body.push((expected % 256) as u8);
                body.push(BACKUP_REC_LEN);
                assert(body@ =~= seq![
                    (expected / 0x1_0000 % 256) as u8,
                    (expected / 256 % 256) as u8,
                    (expected % 256) as u8,
                    BACKUP_REC_LEN,
                ]);
                return Some(build_command(C_GET_BACKUP, body.as_slice()));
            }
        }
        self.next_backup_offset = Some(cur + BACKUP_REC_LEN as u32);
        None
    }

    /// Notes that the request for a missed record was written.
    pub fn recovery_requested(&mut self)
        ensures
            final(self)@ == (ReaderView { recovery_pending: true, ..old(self)@ }),
    {
        self.recovery_pending = true;
    }

    /// Does what one packet asks for.
    fn handle(&mut self, pkt: ParsedPacket, now_s: u32) -> (r: Option<SiAction>)
        requires
            now_s + MARGIN <= u32::MAX,
        ensures
            final(self)@ == handled(old(self)@, pkt@, now_s).0,
            opt_action(r) == handled(old(self)@, pkt@, now_s).1,
    {
        match pkt {
            ParsedPacket::CardInserted { card_type, series, card_id } => {
                self.pending = Some((card_type, series, card_id));
                let get_cmd: u8 = match card_type {
                    CardType::Si5 => C_GET_SI5,
                    CardType::Si6 => C_GET_SI6,
                    CardType::Si9 => C_GET_SI9,
                };
                let empty: Vec<u8> = Vec::new();
                assert(empty@ =~= Seq::<u8>::empty());
                Some(SiAction::Send(build_command(get_cmd, empty.as_slice())))
            },
            ParsedPacket::CardData { data } => match self.pending {
                Some((card_type, series, card_id)) => {
                    self.pending = None;
                    match parse_card_data(card_type, series, card_id, data.as_slice()) {
                        Some(readout) => Some(SiAction::Event(SiEvent::CardReadout(readout))),
                        None => None,
                    }
                },
                None => None,
            },
            ParsedPacket::CardRemoved => {
                self.pending = None;
                Some(SiAction::Event(SiEvent::CardRemoved))
            },
            ParsedPacket::Punch { control, data } => {
                let request = self.track_backup_offset(data.as_slice());
                let event = match parse_punch(control, data.as_slice(), now_s) {
                    Some(readout) => Some(SiEvent::CardReadout(readout)),
                    None => None,
                };
                match request {
                    Some(bytes) => Some(SiAction::Recover(bytes, event)),
                    None => match event {
                        Some(e) => Some(SiAction::Event(e)),
                        None => None,
                    },
                }
            },
            ParsedPacket::BackupRecord { control, data } => {
                self.recovery_pending = false;
                if let Some(off) = self.next_backup_offset {
                    self.next_backup_offset = Some(off.wrapping_add(BACKUP_REC_LEN as u32));
                }
                match parse_backup_record(control, data.as_slice(), now_s) {
                    Some(readout) => Some(SiAction::Event(SiEvent::CardReadout(readout))),
                    None => None,
                }
            },
            ParsedPacket::SysVal { .. } => None,
        }
    }

    /// Works through the received bytes up to the next action. `now_s` is the
    /// clock in seconds since local midnight.
    pub fn read_event(&mut self, now_s: u32) -> (r: SiAction)
        requires
            now_s + MARGIN <= u32::MAX,
        ensures
            final(self)@ == advanced(old(self)@, now_s).0,
            r@ == advanced(old(self)@, now_s).1,
    {
        loop
            invariant
                now_s + MARGIN <= u32::MAX,
                advanced(self@, now_s) == advanced(old(self)@, now_s),
            decreases self@.buf.len(),
        {
            proof {
                lemma_next_packet(self@.buf);
            }
            match self.try_parse_packet() {
                None => return SiAction::Idle,
                Some(pkt) => {
                    if let Some(action) = self.handle(pkt, now_s) {
                        return action;
                    }
                },
            }
        }
    }
}

/// The request for the system value at `addr`.
pub fn sys_val_request(addr: u8) -> (r: Vec<u8>)
    ensures
        r@ == crc::command(C_GET_SYS_VAL, seq![addr, 0x01u8]),
{
    let mut body: Vec<u8> = Vec::new();
    body.push(addr);
    body.push(0x01);
    assert(body@ =~= seq![addr, 0x01u8]);
    build_command(C_GET_SYS_VAL, body.as_slice())
}

/// The system value in a station's reply; `None` for any other packet.
pub fn sys_val(pkt: &ParsedPacket) -> (r: Option<u8>)
    ensures
        r == (match pkt@ {
            PacketView::SysVal { data } => if data.len() >= 2 {
                Some(data[1])
            } else {
                None
            },
            _ => None,
        }),
{
    match pkt {
        ParsedPacket::SysVal { data } => if data.len() >= 2 {
            Some(data[1])
        } else {
            None
        },
        _ => None,
    }
}

/// A station's protocol configuration.
#[derive(Debug, Clone, Copy, PartialEq, Eq, Structural)]
pub struct StationConfig {
    pub ext_proto: bool,
    pub auto_send: bool,
    /// Operating mode, where the station told it.
    pub mode: Option<u8>,
}

impl StationConfig {
    /// Takes the protocol byte apart.
    pub fn new(proto: u8, mode: Option<u8>) -> (r: StationConfig)
        ensures
            r.ext_proto == (proto % 2 == 1),
            r.auto_send == (proto / 2 % 2 == 1),
            r.mode == mode,
    {
        StationConfig { ext_proto: proto % 2 == 1, auto_send: proto / 2 % 2 == 1, mode }
    }

    /// Whether the station is a control that will not send its punches: in
    /// control mode, but without the extended protocol or without autosend.
    pub fn is_mute_control(&self) -> (r: bool)
        ensures
            r == (self.mode == Some(M_CONTROL) && !(self.ext_proto && self.auto_send)),
    {
        match self.mode {
            Some(m) => m == M_CONTROL && !(self.ext_proto && self.auto_send),
            None => false,
        }
    }
}

/// Whether a USB device is a SportIdent master station.
pub fn is_si_device(vid: Option<u16>, pid: Option<u16>) -> (r: bool)
    ensures
        r == (vid == Some(super::SI_VID) && pid == Some(super::SI_PID)),
{
    match (vid, pid) {
        (Some(v), Some(p)) => v == super::SI_VID && p == super::SI_PID,
        _ => false,
    }
}

/// `position` does not depend on what follows a hit, and moves on over what
/// holds none.
proof fn lemma_position_append(a: Seq<u8>, b: Seq<u8>, x: u8)
    ensures
        position(a, x) < a.len() ==> position(a + b, x) == position(a, x),
        position(a, x) == a.len() ==> position(a + b, x) == a.len() + position(b, x),
    decreases a.len(),
{
    if a.len() == 0 {
        assert(a + b =~= b);
    } else if a[0] != x {
        assert((a + b).skip(1) =~= a.skip(1) + b);
        lemma_position_append(a.skip(1), b, x);
    }
}

/// How a byte stream is cut into pieces does not matter: a packet found in the
/// first piece is found with the rest behind it, and where the first piece
/// holds none, the bytes it left behave like the whole piece.
pub proof fn law_packets_do_not_depend_on_chunks(a: Seq<u8>, b: Seq<u8>)
    ensures
        next_packet(a).0 is Some ==> next_packet(a + b) == (
            next_packet(a).0,
            next_packet(a).1 + b,
        ),
        next_packet(a).0 is None ==> next_packet(next_packet(a).1 + b) == next_packet(a + b),
    decreases a.len(),
{
    let k = position(a, STX);
    lemma_position(a, STX);
    lemma_position_append(a, b, STX);
    if k < a.len() {
        let c = a.skip(k);
        assert((a + b).skip(k) =~= c + b);
        if c.len() < 3 || c.len() < c[2] + 6 {
            assert(position(c, STX) == 0);
            lemma_position_append(c, b, STX);
            assert((c + b).skip(0) =~= c + b);
        } else if c[2] < 2 || c[c[2] + 5] != ETX {
            assert((c + b).skip(1) =~= c.skip(1) + b);
            law_packets_do_not_depend_on_chunks(c.skip(1), b);
        } else {
            let n = c[2] + 6;
            assert((c + b).skip(n) =~= c.skip(n) + b);
            assert((c + b).subrange(5, 3 + c[2]) =~= c.subrange(5, 3 + c[2]));
            law_packets_do_not_depend_on_chunks(c.skip(n), b);
        }
    }
}

/// A well-formed packet of a station.
pub open spec fn station_packet(cmd: u8, station: u16, data: Seq<u8>) -> Seq<u8> {
    let body = seq![
        cmd,
        (data.len() + 2) as u8,
        (station / 256) as u8,
        (station % 256) as u8,
    ] + data;
    seq![STX] + body + seq![
        (crc::checksum(body) / 256) as u8,
        (crc::checksum(body) % 256) as u8,
        ETX,
    ]
}

/// A well-formed packet is understood, behind any bytes that do not look like
/// the start of one, and whatever follows it is left alone.
pub proof fn law_packet_is_found(
    noise: Seq<u8>,
    cmd: u8,
    station: u16,
    data: Seq<u8>,
    rest: Seq<u8>,
)
    requires
        !noise.contains(STX),
        data.len() <= 253,
        meaning(cmd, station, data) is Some,
    ensures
        next_packet(noise + station_packet(cmd, station, data) + rest) == (
            meaning(cmd, station, data),
            rest,
        ),
{
    let p = station_packet(cmd, station, data);
    let b = noise + p + rest;
    lemma_position(noise, STX);
    if position(noise, STX) < noise.len() {
        assert(noise.contains(noise[position(noise, STX)]));
    }
    assert(b =~= noise + (p + rest));
    lemma_position_append(noise, p + rest, STX);
    assert(p[0] == STX);
    assert(position(p + rest, STX) == 0);
    let c = b.skip(noise.len() as int);
    assert(c =~= p + rest);
    assert(c[2] == data.len() + 2);
    assert(c[c[2] + 5] == ETX);
    assert(c.subrange(5, 3 + c[2]) =~= data);
    assert((c[3] * 256 + c[4]) as u16 == station);
    assert(c.skip(c[2] + 6) =~= rest);
}

/// A well-formed packet gives no cause for a warning.
pub proof fn law_good_packet_has_no_fault(
    noise: Seq<u8>,
    cmd: u8,
    station: u16,
    data: Seq<u8>,
    rest: Seq<u8>,
)
    requires
        !noise.contains(STX),
        data.len() <= 253,
        meaning(cmd, station, data) is Some,
    ensures
        faults(noise + station_packet(cmd, station, data) + rest) == Seq::<Fault>::empty(),
{
    let p = station_packet(cmd, station, data);
    let b = noise + p + rest;
    lemma_position(noise, STX);
    if position(noise, STX) < noise.len() {
        assert(noise.contains(noise[position(noise, STX)]));
    }
    assert(b =~= noise + (p + rest));
    lemma_position_append(noise, p + rest, STX);
    assert(p[0] == STX);
    assert(position(p + rest, STX) == 0);
    let c = b.skip(noise.len() as int);
    assert(c =~= p + rest);
    assert(c[2] == data.len() + 2);
    assert(c[c[2] + 5] == ETX);
    assert(c.subrange(5, 3 + c[2]) =~= data);
    assert((c[3] * 256 + c[4]) as u16 == station);
    assert(c.take(c[2] + 6) =~= p);
    let body = seq![
        cmd,
        (data.len() + 2) as u8,
        (station / 256) as u8,
        (station % 256) as u8,
    ] + data;
    assert(p.subrange(1, p[2] + 3) =~= body);
    let x = crc::checksum(body);
    assert(((x / 256) as u8 * 256 + (x % 256) as u8) as u16 == x);
}

/// A packet's checksum raises a warning exactly where it is not that of the
/// packet's contents; which packet is understood does not depend on it.
pub proof fn law_fault_does_not_change_the_packet(c: Seq<u8>, hi: u8, lo: u8)
    requires
        framed(c),
        c[0] == STX,
        c[2] >= 2,
        c[c.len() - 1] == ETX,
        meaning(c[1], (c[3] * 256 + c[4]) as u16, c.subrange(5, 3 + c[2])) is Some,
    ensures
        next_packet(c.update(c.len() - 3, hi).update(c.len() - 2, lo)) == next_packet(c),
        faults(c.update(c.len() - 3, hi).update(c.len() - 2, lo)).len() == 0 <==> hi * 256 + lo
            == crc::checksum(c.subrange(1, c.len() - 3)),
{
    let d = c.update(c.len() - 3, hi).update(c.len() - 2, lo);
    assert(position(c, STX) == 0 && position(d, STX) == 0);
    assert(c.skip(0) =~= c && d.skip(0) =~= d);
    assert(d.subrange(5, 3 + d[2]) =~= c.subrange(5, 3 + c[2]));
    assert(d.skip(d[2] + 6) =~= c.skip(c[2] + 6));
    assert(d.take(d[2] + 6) =~= d);
    assert(d.subrange(1, d[2] + 3) =~= c.subrange(1, c.len() - 3));
}

/// While a missed record is being waited for, live punches ask for no other,
/// and are still reported.
pub proof fn law_one_recovery_at_a_time(v: ReaderView, control: u16, data: Seq<u8>, now_s: u32)
    requires
        v.recovery_pending,
    ensures
        handled(v, PacketView::Punch { control, data }, now_s).0.recovery_pending,
        handled(v, PacketView::Punch { control, data }, now_s).1 == deliver(
            readout_event(card::live_punch(control, data, now_s)),
        ),
{
}

/// What the packets of a station mean: which command announces what, and where
/// the number of an inserted card stands, its high byte first.
pub proof fn law_packets_mean_what_stations_say(station: u16, data: Seq<u8>)
    ensures
        meaning(0xD3, station, data) == Some(PacketView::Punch { control: station, data }),
        data.len() >= 3 ==> (meaning(0xE5, station, data) matches Some(
            PacketView::CardInserted { card_type, card_id, .. },
        ) && card_type == CardType::Si5 && card_id == data[0] * 65_536 + data[1] * 256 + data[2]),
        data.len() >= 3 ==> (meaning(0xE6, station, data) matches Some(
            PacketView::CardInserted { card_type, card_id, .. },
        ) && card_type == CardType::Si6 && card_id == data[0] * 65_536 + data[1] * 256 + data[2]),
        data.len() >= 4 ==> (meaning(0xE8, station, data) matches Some(
            PacketView::CardInserted { card_type, series, card_id },
        ) && card_type == CardType::Si9 && series == data[0] && card_id == data[1] * 65_536 + data[2]
            * 256 + data[3]),
        meaning(0xE7, station, data) == Some(PacketView::CardRemoved),
        meaning(0xB1, station, data) == Some(PacketView::CardData { data }),
        meaning(0xE1, station, data) == Some(PacketView::CardData { data }),
        meaning(0xEF, station, data) == Some(PacketView::CardData { data }),
        meaning(0x83, station, data) == Some(PacketView::SysVal { data }),
        meaning(0x81, station, data) == Some(PacketView::BackupRecord { control: station, data }),
{
}

/// The packet at the start of a byte stream is `0x02`, the command, the number of
/// bytes that follow up to the checksum, the station with its high byte first,
/// the data, two bytes of checksum and `0x03`; what follows it stays.
pub proof fn law_packet_is_taken_apart(b: Seq<u8>)
    requires
        b.len() >= 6,
        b[0] == 0x02,
        b[2] >= 2,
        b.len() >= b[2] + 6,
        b[b[2] + 5] == 0x03,
        meaning(b[1], (b[3] * 256 + b[4]) as u16, b.subrange(5, b[2] + 3)) is Some,
    ensures
        next_packet(b) == (
            meaning(b[1], (b[3] * 256 + b[4]) as u16, b.subrange(5, b[2] + 3)),
            b.skip(b[2] + 6),
        ),
        faults(b).len() == 0 <==> b[b[2] + 3] * 256 + b[b[2] + 4] == crc::checksum(
            b.subrange(1, b[2] + 3),
        ),
        faults(b).len() > 0 ==> faults(b)[0].cmd == b[1] && faults(b)[0].got == b[b[2] + 3] * 256
            + b[b[2] + 4] && faults(b)[0].expected == crc::checksum(b.subrange(1, b[2] + 3)),
{
    assert(position(b, STX) == 0);
    assert(b.skip(0) =~= b);
    let t = b.take(b[2] + 6);
    assert(t.subrange(1, t[2] + 3) =~= b.subrange(1, b[2] + 3));
}

/// An inserted card is asked for its image by the command of its generation, and
/// the image that comes next is reported under the number of that card; after
/// that, or once the card is taken out, no image is.
pub proof fn law_inserted_card_is_read_out(
    v: ReaderView,
    card_type: CardType,
    series: u8,
    card_id: u32,
    data: Seq<u8>,
    now_s: u32,
)
    ensures
        ({
            let (w, action) = handled(
                v,
                PacketView::CardInserted { card_type, series, card_id },
                now_s,
            );
            let (x, report) = handled(w, PacketView::CardData { data }, now_s);
            let (y, gone) = handled(w, PacketView::CardRemoved, now_s);
            &&& action matches Some(ActionView::Send(c))
            &&& c.len() == 7
            &&& c[2] == (match card_type {
                CardType::Si5 => 0xB1u8,
                CardType::Si6 => 0xE1u8,
                CardType::Si9 => 0xEFu8,
            })
            &&& (report matches Some(a) ==> (a matches ActionView::Event(
                EventView::CardReadout(r),
            ) && r.card_id == card_id && card::image(card_type, series, card_id, data) == Some(r)))
            &&& report is None <==> card::image(card_type, series, card_id, data) is None
            &&& handled(x, PacketView::CardData { data }, now_s).1 is None
            &&& gone == Some(ActionView::Event(EventView::CardRemoved))
            &&& handled(y, PacketView::CardData { data }, now_s).1 is None
            &&& x == v || v.pending is Some
        }),
{
    let c = crc::command(readout_command(card_type), Seq::empty());
    crc::law_command_is_framed(readout_command(card_type), Seq::empty());
}

/// A live punch further on in the station's memory than expected has records
/// before it that were missed, and the first of them is asked for by its
/// position; the expectation stays. Any other punch is expected to be followed
/// by one eight bytes on.
pub proof fn law_missed_punch_is_asked_for(
    v: ReaderView,
    control: u16,
    data: Seq<u8>,
    now_s: u32,
)
    requires
        data.len() >= 11,
        !v.recovery_pending,
    ensures
        ({
            let at = data[8] * 65_536 + data[9] * 256 + data[10];
            let (w, action) = handled(v, PacketView::Punch { control, data }, now_s);
            match v.next_backup_offset {
                Some(e) => if at > e {
                    &&& w == v
                    &&& action matches Some(ActionView::Recover(c, event))
                    &&& event == readout_event(card::live_punch(control, data, now_s))
                    &&& c.len() == 11
                    &&& c[2] == 0x81
                    &&& c[4] * 65_536 + c[5] * 256 + c[6] == e
                    &&& c[7] == 8
                } else {
                    &&& w.next_backup_offset == Some((at + 8) as u32)
                    &&& !(action matches Some(ActionView::Recover(..)))
                },
                None => {
                    &&& w.next_backup_offset == Some((at + 8) as u32)
                    &&& !(action matches Some(ActionView::Recover(..)))
                },
            }
        }),
{
    if let Some(e) = v.next_backup_offset {
        let d = seq![
            (e / 0x1_0000 % 256) as u8,
            (e / 256 % 256) as u8,
            (e % 256) as u8,
            BACKUP_REC_LEN,
        ];
        crc::law_command_is_framed(C_GET_BACKUP, d);
        let c = backup_request(e);
        assert(c.subrange(4, c.len() - 3) =~= d);
        assert(c[4] == d[0] && c[5] == d[1] && c[6] == d[2] && c[7] == d[3]);
    }
}

/// The records that were missed are asked for one after the other: a record that
/// came is reported, moves the expectation on by eight bytes and lets the next
/// one be asked for, until the punch that showed the gap is the one expected.
pub proof fn law_recovery_catches_up(
    v: ReaderView,
    control: u16,
    record: Seq<u8>,
    now_s: u32,
    e: u32,
)
    requires
        v.next_backup_offset == Some(e),
        e <= u32::MAX - 8,
    ensures
        ({
            let (w, action) = handled(
                v,
                PacketView::BackupRecord { control, data: record },
                now_s,
            );
            &&& w == (ReaderView {
                next_backup_offset: Some((e + 8) as u32),
                recovery_pending: false,
                ..v
            })
            &&& action == deliver(readout_event(card::backup_punch(control, record, now_s)))
        }),
{
}

/// Punches that follow each other in the station's memory ask for nothing, and
/// one left out between two is what is asked for.
pub proof fn law_consecutive_punches_ask_for_nothing(
    v: ReaderView,
    a: Seq<u8>,
    b: Seq<u8>,
    control: u16,
    now_s: u32,
)
    requires
        a.len() >= 11,
        b.len() >= 11,
        v.next_backup_offset is None,
        !v.recovery_pending,
    ensures
        ({
            let first = a[8] * 65_536 + a[9] * 256 + a[10];
            let second = b[8] * 65_536 + b[9] * 256 + b[10];
            let w = handled(v, PacketView::Punch { control, data: a }, now_s).0;
            let action = handled(w, PacketView::Punch { control, data: b }, now_s).1;
            &&& (action matches Some(ActionView::Recover(..))) <==> second > first + 8
            &&& action matches Some(ActionView::Recover(c, _)) ==> c[4] * 65_536 + c[5] * 256 + c[6]
                == first + 8
        }),
{
    let w = handled(v, PacketView::Punch { control, data: a }, now_s).0;
    law_missed_punch_is_asked_for(v, control, a, now_s);
    law_missed_punch_is_asked_for(w, control, b, now_s);
}

} // verus!
