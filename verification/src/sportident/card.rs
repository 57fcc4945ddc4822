//! Card images and punch records as a station sends them.

use vstd::prelude::*;
use super::{CardReadout, ControlPunch, ReadoutView};

verus! {

/// Number of punches in an SI-Card 8 or 9 image.
pub const SI9_PUNCH_COUNT_OFFSET: usize = 0x16;

/// First punch record of an SI-Card 8 or 9 image.
pub const SI9_PUNCH_START_OFFSET: usize = 0x38;

/// Most punches of an SI-Card 8 or 9.
pub const SI9_PUNCH_MAX: usize = 50;

/// Number of punches in an SI-Card 10 or 11 image.
pub const SI1011_PUNCH_COUNT_OFFSET: usize = 0x16;

/// First punch record of an SI-Card 10 or 11 image.
pub const SI1011_PUNCH_START_OFFSET: usize = 128;

/// Most punches of an SI-Card 10 or 11.
pub const SI1011_PUNCH_MAX: usize = 64;

/// Number of punches in an SI-Card 6 image.
pub const SI6_PUNCH_COUNT_OFFSET: usize = 18;

/// First punch record of an SI-Card 6 image.
pub const SI6_PUNCH_START_OFFSET: usize = 128;

/// Most punches of an SI-Card 6.
pub const SI6_PUNCH_MAX: usize = 64;

/// Index of the next punch in an SI-Card 5 image, one above the number of
/// punches.
pub const SI5_PUNCH_COUNT_OFFSET: usize = 23;

/// First block of punch records of an SI-Card 5 image.
pub const SI5_PUNCH_START_OFFSET: usize = 32;

/// Most punches with a time of an SI-Card 5.
pub const SI5_PUNCH_MAX: usize = 30;

/// Length of an SI-Card 5 punch record.
pub const SI5_REC_LEN: usize = 3;

/// Card number in a live punch record.
pub const PUNCH_CARD_OFFSET: usize = 0;

/// Punch time in a live punch record.
pub const PUNCH_TIME_OFFSET: usize = 5;

/// Position in the station's backup memory in a live punch record.
pub const PUNCH_BACKUP_OFFSET_OFFSET: usize = 8;

/// Length of the echoed memory position ahead of a recovered record.
pub const BACKUP_ECHO_LEN: usize = 3;

/// Seconds in a day.
pub const DAY: u32 = 86_400;

/// Seconds in half a day, the range of a punch time without a day half.
pub const NOON: u32 = 43_200;

/// How far the clock may run ahead of a live punch.
pub const MARGIN: u32 = 7_200;

/// Card family named by the first byte of a card number.
#[derive(Debug, Clone, Copy, PartialEq, Eq, Structural)]
pub enum CardSeries {
    Si6,
    Si9,
    Si8,
    Si10Or11,
    Other(u8),
}

/// The family that a series byte names.
pub open spec fn series_of(b: u8) -> CardSeries {
    if b == 0x00 {
        CardSeries::Si6
    } else if b == 0x01 {
        CardSeries::Si9
    } else if b == 0x02 {
        CardSeries::Si8
    } else if b == 0x0F {
        CardSeries::Si10Or11
    } else {
        CardSeries::Other(b)
    }
}

impl CardSeries {
    /// The family that a series byte names.
    pub fn from_byte(b: u8) -> (r: CardSeries)
        ensures
            r == series_of(b),
    {
        match b {
            0x00 => CardSeries::Si6,
            0x01 => CardSeries::Si9,
            0x02 => CardSeries::Si8,
            0x0F => CardSeries::Si10Or11,
            other => CardSeries::Other(other),
        }
    }
}

/// Generation of an inserted card, which decides how its memory is read out.
#[derive(Debug, Clone, Copy, PartialEq, Eq, Structural)]
pub enum CardType {
    Si5,
    Si6,
    Si9,
}

/// A two-byte number at `i`, most significant byte first.
pub open spec fn be16(s: Seq<u8>, i: int) -> int {
    s[i] * 256 + s[i + 1]
}

/// A three-byte number at `i`, most significant byte first.
pub open spec fn be24(s: Seq<u8>, i: int) -> int {
    s[i] * 0x1_0000 + s[i + 1] * 256 + s[i + 2]
}

/// Reads a three-byte number.
pub fn card_id_3b(b: &[u8]) -> (r: u32)
    requires
        b@.len() >= 3,
    ensures
        r == be24(b@, 0),
{
    b[0] as u32 * 0x1_0000 + b[1] as u32 * 256 + b[2] as u32
}

/// Reads the three-byte number at `i`.
pub fn read_be24(b: &[u8], i: usize) -> (r: u32)
    requires
        i + 3 <= b@.len(),
    ensures
        r == be24(b@, i as int),
{
    b[i] as u32 * 0x1_0000 + b[i + 1] as u32 * 256 + b[i + 2] as u32
}

/// The smaller of two numbers.
pub open spec fn least(a: int, b: int) -> int {
    if a <= b {
        a
    } else {
        b
    }
}

/// The punch in the four-byte record at `off`: day byte, control number, time.
/// The lowest bit of the day byte marks the second half of the day.
pub open spec fn record4(data: Seq<u8>, off: int) -> ControlPunch {
    ControlPunch {
        station: data[off + 1],
        time_s: (be16(data, off + 2) + if data[off] % 2 == 1 {
            NOON as int
        } else {
            0
        }) as u32,
    }
}

/// The punches in `n` four-byte records from `off` on, up to the first empty
/// one.
pub open spec fn records4(data: Seq<u8>, off: int, n: int) -> Seq<ControlPunch>
    decreases n,
{
    if n <= 0 || data[off + 1] == 0 {
        Seq::empty()
    } else {
        seq![record4(data, off)] + records4(data, off + 4, n - 1)
    }
}

/// The readout of a card image with four-byte records.
pub open spec fn image4(card_id: u32, data: Seq<u8>, count: int, start: int, max: int) -> Option<
    ReadoutView,
> {
    if data.len() <= start || data.len() <= count {
        None
    } else {
        let n = least(least(data[count] as int, max), (data.len() - start) / 4);
        Some(ReadoutView { card_id, punches: records4(data, start, n) })
    }
}

/// Position of record `j` in an SI-Card 5 image: blocks of sixteen bytes, each
/// one reserved byte and five records of three bytes.
pub open spec fn si5_offset(j: int) -> int {
    SI5_PUNCH_START_OFFSET + 16 * (j / 5) + 1 + 3 * (j % 5)
}

/// The punch in the three-byte record at `off`: control number, time.
pub open spec fn record3(data: Seq<u8>, off: int) -> ControlPunch {
    ControlPunch { station: data[off], time_s: be16(data, off + 1) as u32 }
}

/// The punches in the records `j..n` of an SI-Card 5 image, as far as the
/// image reaches.
pub open spec fn records3(data: Seq<u8>, j: int, n: int) -> Seq<ControlPunch>
    decreases n - j,
{
    if j >= n || si5_offset(j) + 3 > data.len() {
        Seq::empty()
    } else {
        seq![record3(data, si5_offset(j))] + records3(data, j + 1, n)
    }
}

/// The readout of an SI-Card 5 image.
pub open spec fn image5(card_id: u32, data: Seq<u8>) -> Option<ReadoutView> {
    if data.len() <= SI5_PUNCH_START_OFFSET {
        None
    } else {
        let n = least(data[SI5_PUNCH_COUNT_OFFSET as int] - 1, SI5_PUNCH_MAX as int);
        Some(ReadoutView { card_id, punches: records3(data, 0, n) })
    }
}

/// The readout of the image of a card of the given type and series.
pub open spec fn image(card_type: CardType, series: u8, card_id: u32, data: Seq<u8>) -> Option<
    ReadoutView,
> {
    match card_type {
        CardType::Si9 => if series_of(series) == CardSeries::Si10Or11 {
            image4(
                card_id,
                data,
                SI1011_PUNCH_COUNT_OFFSET as int,
                SI1011_PUNCH_START_OFFSET as int,
                SI1011_PUNCH_MAX as int,
            )
        } else {
            image4(
                card_id,
                data,
                SI9_PUNCH_COUNT_OFFSET as int,
                SI9_PUNCH_START_OFFSET as int,
                SI9_PUNCH_MAX as int,
            )
        },
        CardType::Si6 => image4(
            card_id,
            data,
            SI6_PUNCH_COUNT_OFFSET as int,
            SI6_PUNCH_START_OFFSET as int,
            SI6_PUNCH_MAX as int,
        ),
        CardType::Si5 => image5(card_id, data),
    }
}

/// Reads a card image. SI-Cards 8 and 9 differ from 10 and 11 in layout only,
/// which the series byte tells apart; an unknown series is read like 8 and 9.
pub fn parse_card_data(card_type: CardType, series: u8, card_id: u32, data: &[u8]) -> (r: Option<
    CardReadout,
>)
    ensures
        super::opt_readout(r) == image(card_type, series, card_id, data@),
{
    match card_type {
        CardType::Si9 => match CardSeries::from_byte(series) {
            CardSeries::Si10Or11 => parse_4byte_punches(
                card_id,
                data,
                SI1011_PUNCH_COUNT_OFFSET,
                SI1011_PUNCH_START_OFFSET,
                SI1011_PUNCH_MAX,
            ),
            _ => parse_4byte_punches(
                card_id,
                data,
                SI9_PUNCH_COUNT_OFFSET,
                SI9_PUNCH_START_OFFSET,
                SI9_PUNCH_MAX,
            ),
        },
        CardType::Si6 => parse_4byte_punches(
            card_id,
            data,
            SI6_PUNCH_COUNT_OFFSET,
            SI6_PUNCH_START_OFFSET,
            SI6_PUNCH_MAX,
        ),
        CardType::Si5 => parse_si5(card_id, data),
    }
}

/// Reads a card image with four-byte punch records.
pub fn parse_4byte_punches(
    card_id: u32,
    data: &[u8],
    count_offset: usize,
    start_offset: usize,
    punch_max: usize,
) -> (r: Option<CardReadout>)
    ensures
        super::opt_readout(r) == image4(
            card_id,
            data@,
            count_offset as int,
            start_offset as int,
            punch_max as int,
        ),
{
    if data.len() <= start_offset || data.len() <= count_offset {
        return None;
    }
    let mut count: usize = data[count_offset] as usize;
    if count > punch_max {
        count = punch_max;
    }
    let room: usize = (data.len() - start_offset) / 4;
    if count > room {
        count = room;
    }
    let ghost all = records4(data@, start_offset as int, count as int);
    let mut punches: Vec<ControlPunch> = Vec::new();
    let mut i: usize = 0;
    assert(punches@ + all =~= all);
    while i < count
        invariant_except_break
            all == punches@ + records4(data@, start_offset + 4 * i, count - i),
        invariant
            i <= count,
            start_offset + 4 * count <= data@.len(),
        ensures
            punches@ == all,
        decreases count - i,
    {
        assert(start_offset + 4 * i < data.len());
        let off: usize = start_offset + 4 * i;
        let station: u8 = data[off + 1];
        if station == 0 {
            assert(all =~= punches@);
            break;
        }
        let raw: u32 = data[off + 2] as u32 * 256 + data[off + 3] as u32;
        let time_s: u32 = if data[off] % 2 == 1 {
            raw + NOON
        } else {
            raw
        };
        let ghost before = punches@;
        punches.push(ControlPunch { station, time_s });
        i += 1;
        assert(all =~= punches@ + records4(data@, start_offset + 4 * i, count - i));
        if i == count {
            assert(all =~= punches@);
        }
    }
    Some(CardReadout { card_id, punches })
}

/// Reads an SI-Card 5 image. Its records hold no half of the day, so the
/// twelve-hour time is taken as it stands.
pub fn parse_si5(card_id: u32, data: &[u8]) -> (r: Option<CardReadout>)
    ensures
        super::opt_readout(r) == image5(card_id, data@),
{
    if data.len() <= SI5_PUNCH_START_OFFSET {
        return None;
    }
    let next: usize = data[SI5_PUNCH_COUNT_OFFSET] as usize;
    let mut count: usize = if next > 0 {
        next - 1
    } else {
        0
    };
    if count > SI5_PUNCH_MAX {
        count = SI5_PUNCH_MAX;
    }
    let ghost n = least(data@[SI5_PUNCH_COUNT_OFFSET as int] - 1, SI5_PUNCH_MAX as int);
    let ghost all = records3(data@, 0, n);
    let mut punches: Vec<ControlPunch> = Vec::new();
    let mut j: usize = 0;
    assert(punches@ + all =~= all);
    while j < count
        invariant_except_break
            all == punches@ + records3(data@, j as int, n),
        invariant
            j <= count <= SI5_PUNCH_MAX,
            count == n || (count == 0 && n < 0),
        ensures
            punches@ == all,
        decreases count - j,
    {
        let i: usize = SI5_PUNCH_START_OFFSET + 16 * (j / 5) + 1 + SI5_REC_LEN * (j % 5);
        assert(i == si5_offset(j as int));
        if i + SI5_REC_LEN > data.len() {
            assert(all =~= punches@);
            break;
        }
        let station: u8 = data[i];
        let time_s: u32 = data[i + 1] as u32 * 256 + data[i + 2] as u32;
        punches.push(ControlPunch { station, time_s });
        j += 1;
        assert(all =~= punches@ + records3(data@, j as int, n));
    }
    assert(records3(data@, n, n) =~= Seq::<ControlPunch>::empty());
    Some(CardReadout { card_id, punches })
}

/// The reference for a twelve-hour time: two hours ahead of the clock.
pub open spec fn reference(now_s: int) -> int {
    (now_s + MARGIN) % (DAY as int)
}

/// The time of day of a twelve-hour time, given the clock.
pub open spec fn resolved(raw: int, now_s: int) -> int {
    let r = reference(now_s);
    if r < NOON {
        if raw < r {
            raw
        } else {
            raw + NOON
        }
    } else if raw < r - NOON {
        raw + NOON
    } else {
        raw
    }
}

/// The seconds since midnight at a time of day.
pub fn seconds_of_day(hour: u32, min: u32, sec: u32) -> (r: u32)
    requires
        hour < 24,
        min < 60,
        sec <= 60,
    ensures
        r == hour * 3600 + min * 60 + sec,
        r <= DAY,
{
    hour * 3600 + min * 60 + sec
}

/// Resolves a twelve-hour punch time against the clock. The clock may run up
/// to two hours ahead of the punch without changing the answer.
pub fn resolve_autosend_time(raw_time_s: u32, now_s: u32) -> (r: u32)
    requires
        now_s + MARGIN <= u32::MAX,
        raw_time_s + NOON <= u32::MAX,
    ensures
        r == resolved(raw_time_s as int, now_s as int),
{
    let ref_s: u32 = (now_s + MARGIN) % DAY;
    if ref_s < NOON {
        if raw_time_s < ref_s {
            raw_time_s
        } else {
            raw_time_s + NOON
        }
    } else if raw_time_s < ref_s - NOON {
        raw_time_s + NOON
    } else {
        raw_time_s
    }
}

/// Whether `t` lies before the reference `r` by at most half a day, on a clock
/// that wraps at midnight.
pub open spec fn shortly_before(t: int, r: int) -> bool {
    1 <= (r - t - 1) % (DAY as int) + 1 <= NOON
}

/// A resolved time is the one time of day that shows the raw time on a
/// twelve-hour dial and lies before the reference by at most half a day.
pub proof fn law_resolved_time(raw: int, now_s: int, t: int)
    requires
        0 <= raw < NOON,
    ensures
        0 <= resolved(raw, now_s) < DAY,
        resolved(raw, now_s) % (NOON as int) == raw,
        shortly_before(resolved(raw, now_s), reference(now_s)),
        0 <= t < DAY && t % (NOON as int) == raw && shortly_before(t, reference(now_s)) ==> t
            == resolved(raw, now_s),
{
}

/// The readout of one live punch record.
pub open spec fn live_punch(control: u16, data: Seq<u8>, now_s: u32) -> Option<ReadoutView> {
    if data.len() < PUNCH_TIME_OFFSET + 2 {
        None
    } else {
        Some(
            ReadoutView {
                card_id: be24(data, PUNCH_CARD_OFFSET + 1) as u32,
                punches: seq![
                    ControlPunch {
                        station: (control % 256) as u8,
                        time_s: resolved(
                            be16(data, PUNCH_TIME_OFFSET as int) % (NOON as int),
                            now_s as int,
                        ) as u32,
                    },
                ],
            },
        )
    }
}

/// The readout of one record recovered from backup memory.
pub open spec fn backup_punch(control: u16, data: Seq<u8>, now_s: u32) -> Option<ReadoutView> {
    if data.len() < BACKUP_ECHO_LEN + PUNCH_TIME_OFFSET + 2 {
        None
    } else {
        Some(
            ReadoutView {
                card_id: be24(data, BACKUP_ECHO_LEN as int) as u32,
                punches: seq![
                    ControlPunch {
                        station: (control % 256) as u8,
                        time_s: resolved(
                            be16(data, BACKUP_ECHO_LEN + PUNCH_TIME_OFFSET) % (NOON as int),
                            now_s as int,
                        ) as u32,
                    },
                ],
            },
        )
    }
}

/// Reads a live punch record of the control `control`; `now_s` is the clock in
/// seconds since local midnight.
pub fn parse_punch(control: u16, data: &[u8], now_s: u32) -> (r: Option<CardReadout>)
    requires
        now_s + MARGIN <= u32::MAX,
    ensures
        super::opt_readout(r) == live_punch(control, data@, now_s),
{
    if data.len() < PUNCH_TIME_OFFSET + 2 {
        return None;
    }
    let card_id: u32 = read_be24(data, PUNCH_CARD_OFFSET + 1);
    let raw: u32 = data[PUNCH_TIME_OFFSET] as u32 * 256 + data[PUNCH_TIME_OFFSET + 1] as u32;
    let time_s: u32 = resolve_autosend_time(raw % NOON, now_s);
    let station: u8 = (control % 256) as u8;
    let mut punches: Vec<ControlPunch> = Vec::new();
    punches.push(ControlPunch { station, time_s });
    assert(punches@ =~= seq![ControlPunch { station, time_s }]);
    Some(CardReadout { card_id, punches })
}

/// Reads a record recovered from backup memory: the echoed position, then a
/// record whose card number has no series byte.
pub fn parse_backup_record(control: u16, data: &[u8], now_s: u32) -> (r: Option<CardReadout>)
    requires
        now_s + MARGIN <= u32::MAX,
    ensures
        super::opt_readout(r) == backup_punch(control, data@, now_s),
{
    if data.len() < BACKUP_ECHO_LEN + PUNCH_TIME_OFFSET + 2 {
        return None;
    }
    let card_id: u32 = read_be24(data, BACKUP_ECHO_LEN);
    let at: usize = BACKUP_ECHO_LEN + PUNCH_TIME_OFFSET;
    let raw: u32 = data[at] as u32 * 256 + data[at + 1] as u32;
    let time_s: u32 = resolve_autosend_time(raw % NOON, now_s);
    let station: u8 = (control % 256) as u8;
    let mut punches: Vec<ControlPunch> = Vec::new();
    punches.push(ControlPunch { station, time_s });
    assert(punches@ =~= seq![ControlPunch { station, time_s }]);
    Some(CardReadout { card_id, punches })
}

/// Four-byte records are read one after the other up to the first empty one.
proof fn lemma_records4(data: Seq<u8>, off: int, n: int)
    ensures
        records4(data, off, n).len() <= if n > 0 {
            n
        } else {
            0
        },
        forall|i: int|
            0 <= i < records4(data, off, n).len() ==> #[trigger] records4(data, off, n)[i]
                == record4(data, off + 4 * i) && data[off + 4 * i + 1] != 0,
        records4(data, off, n).len() < n ==> data[off + 4 * records4(data, off, n).len() + 1] == 0,
    decreases n,
{
    if n > 0 && data[off + 1] != 0 {
        let rest = records4(data, off + 4, n - 1);
        let all = records4(data, off, n);
        lemma_records4(data, off + 4, n - 1);
        assert(all.len() == rest.len() + 1);
        assert forall|i: int| 0 <= i < all.len() implies #[trigger] all[i] == record4(
            data,
            off + 4 * i,
        ) && data[off + 4 * i + 1] != 0 by {
            if i > 0 {
                assert(all[i] == rest[i - 1]);
                assert(off + 4 + 4 * (i - 1) == off + 4 * i);
            }
        }
        assert(off + 4 + 4 * rest.len() + 1 == off + 4 * all.len() + 1);
    }
}

/// A card image with four-byte records is read as it stands: record `i` is a day
/// byte, the control, and two bytes of seconds, the high one first; half a day
/// is added where the lowest bit of the day byte is set. As many records are
/// read as the card counts, but no more than it can have and than arrived, and
/// none from the first without a control on.
pub proof fn law_four_byte_records(
    card_id: u32,
    data: Seq<u8>,
    count: int,
    start: int,
    max: int,
    i: int,
)
    requires
        0 <= count,
        0 <= start,
        0 <= max,
    ensures
        image4(card_id, data, count, start, max) is Some <==> data.len() > start && data.len()
            > count,
        image4(card_id, data, count, start, max) matches Some(r) ==> {
            let n = r.punches.len();
            &&& r.card_id == card_id
            &&& n <= data[count]
            &&& n <= max
            &&& start + 4 * n <= data.len()
            &&& n < data[count] && n < max && start + 4 * n + 4 <= data.len() ==> data[start + 4 * n
                + 1] == 0
            &&& 0 <= i < n ==> {
                let at = start + 4 * i;
                &&& r.punches[i].station == data[at + 1]
                &&& r.punches[i].station != 0
                &&& data[at] & 1 == 0 ==> r.punches[i].time_s == data[at + 2] * 256 + data[at + 3]
                &&& data[at] & 1 == 1 ==> r.punches[i].time_s == data[at + 2] * 256 + data[at + 3]
                    + 43_200
            }
        },
{
    if let Some(r) = image4(card_id, data, count, start, max) {
        let n = least(least(data[count] as int, max), (data.len() - start) / 4);
        lemma_records4(data, start, n);
        if 0 <= i < r.punches.len() {
            let day = data[start + 4 * i];
            assert(day & 1 == day % 2) by (bit_vector);
            assert(r.punches[i] == record4(data, start + 4 * i));
        }
    }
}

/// Only the lowest bit of a day byte counts: images that differ in the other
/// seven bits of one day byte read the same, and setting the lowest bit makes
/// that punch, and no other, half a day later.
pub proof fn law_day_byte_counts_by_its_lowest_bit(
    card_id: u32,
    data: Seq<u8>,
    count: int,
    start: int,
    max: int,
    i: int,
    day: u8,
)
    requires
        0 <= count < start < data.len(),
        0 <= max,
        image4(card_id, data, count, start, max) matches Some(r) && 0 <= i < r.punches.len(),
    ensures
        ({
            let a = image4(card_id, data, count, start, max);
            let b = image4(card_id, data.update(start + 4 * i, day), count, start, max);
            &&& data[start + 4 * i] & 1 == day & 1 ==> b == a
            &&& data[start + 4 * i] & 1 == 0 && day & 1 == 1 ==> {
                let p = a->0.punches[i];
                &&& b == Some(
                    ReadoutView {
                        card_id,
                        punches: a->0.punches.update(
                            i,
                            ControlPunch { station: p.station, time_s: (p.time_s + 43_200) as u32 },
                        ),
                    },
                )
                &&& b->0.punches[i].time_s == p.time_s + 43_200
            }
        }),
{
    let other = data.update(start + 4 * i, day);
    let n = least(least(data[count] as int, max), (data.len() - start) / 4);
    let a = records4(data, start, n);
    let b = records4(other, start, n);
    lemma_records4(data, start, n);
    lemma_records4(other, start, n);
    let was = data[start + 4 * i];
    assert(was & 1 == was % 2) by (bit_vector);
    assert(day & 1 == day % 2) by (bit_vector);
    assert(start + 4 * i < data.len());
    assert(other[count] == data[count]);
    if a.len() < b.len() {
        let k = a.len() as int;
        assert(start + 4 * k + 1 != start + 4 * i);
        assert(0 <= k < b.len());
        assert(b[k] == record4(other, start + 4 * k));
        assert(other[start + 4 * k + 1] != 0);
    }
    if b.len() < a.len() {
        let k = b.len() as int;
        assert(start + 4 * k + 1 != start + 4 * i);
        assert(0 <= k < a.len());
        assert(a[k] == record4(data, start + 4 * k));
        assert(data[start + 4 * k + 1] != 0);
    }
    assert forall|k: int| 0 <= k < a.len() && k != i implies #[trigger] b[k] == a[k] by {
        assert(a[k] == record4(data, start + 4 * k));
        assert(b[k] == record4(other, start + 4 * k));
    }
    assert(a[i] == record4(data, start + 4 * i));
    assert(b[i] == record4(other, start + 4 * i));
    if was & 1 == day & 1 {
        assert(a =~= b);
    } else if day & 1 == 1 {
        let p = a[i];
        assert(b =~= a.update(
            i,
            ControlPunch { station: p.station, time_s: (p.time_s + 43_200) as u32 },
        ));
    }
}

/// Three-byte records are read one after the other as far as the image reaches.
proof fn lemma_records3(data: Seq<u8>, j: int, n: int)
    requires
        0 <= j,
    ensures
        records3(data, j, n).len() <= if n > j {
            n - j
        } else {
            0
        },
        forall|i: int|
            0 <= i < records3(data, j, n).len() ==> #[trigger] records3(data, j, n)[i] == record3(
                data,
                si5_offset(j + i),
            ) && si5_offset(j + i) + 3 <= data.len(),
        records3(data, j, n).len() < n - j ==> si5_offset(j + records3(data, j, n).len()) + 3
            > data.len(),
    decreases n - j,
{
    if j < n && si5_offset(j) + 3 <= data.len() {
        let rest = records3(data, j + 1, n);
        let all = records3(data, j, n);
        lemma_records3(data, j + 1, n);
        assert(all.len() == rest.len() + 1);
        assert forall|i: int| 0 <= i < all.len() implies #[trigger] all[i] == record3(
            data,
            si5_offset(j + i),
        ) && si5_offset(j + i) + 3 <= data.len() by {
            if i > 0 {
                assert(all[i] == rest[i - 1]);
                assert(j + 1 + (i - 1) == j + i);
            }
        }
        assert(j + 1 + rest.len() == j + all.len());
    }
}

/// An SI-Card 5 image is read as it stands: blocks of sixteen bytes from byte 32
/// on, of which the first is skipped and the others are five records of a
/// control and two bytes of seconds, the high one first. One less is read than
/// the card's next record says, but no more than thirty and than arrived.
pub proof fn law_three_byte_records(card_id: u32, data: Seq<u8>, i: int)
    ensures
        image5(card_id, data) is Some <==> data.len() > 32,
        image5(card_id, data) matches Some(r) ==> {
            let n = r.punches.len();
            &&& r.card_id == card_id
            &&& n <= 30
            &&& n == 0 || n < data[23]
            &&& n < 30 && n + 1 < data[23] ==> 33 + 16 * (n as int / 5) + 3 * (n as int % 5) + 3
                > data.len()
            &&& 0 <= i < n ==> {
                let at = 33 + 16 * (i / 5) + 3 * (i % 5);
                &&& r.punches[i].station == data[at]
                &&& r.punches[i].time_s == data[at + 1] * 256 + data[at + 2]
            }
        },
{
    if let Some(r) = image5(card_id, data) {
        lemma_records3(data, 0, least(data[23] - 1, 30));
        let n = r.punches.len() as int;
        assert(0 + n == n);
        if 0 <= i < n {
            assert(r.punches[i] == record3(data, si5_offset(0 + i)));
        }
    }
}

/// Where each kind of card keeps its number of punches and its records: SI-Card
/// 10 and 11 from byte 128 on, at most 64; other cards of that generation from
/// byte 56 on, at most 50; both count in byte 22. SI-Card 6 from byte 128 on, at
/// most 64, and counts in byte 18.
pub proof fn law_card_layouts(series: u8, card_id: u32, data: Seq<u8>)
    ensures
        image(CardType::Si9, 0x0F, card_id, data) == image4(card_id, data, 22, 128, 64),
        series != 0x0F ==> image(CardType::Si9, series, card_id, data) == image4(
            card_id,
            data,
            22,
            56,
            50,
        ),
        image(CardType::Si6, series, card_id, data) == image4(card_id, data, 18, 128, 64),
        image(CardType::Si5, series, card_id, data) == image5(card_id, data),
{
}

/// What a live punch tells: the card in bytes 1 to 3 and the time on a
/// twelve-hour dial in bytes 5 and 6, high bytes first; the control by its low
/// byte. The time of day shows that time on the dial and is the latest such that
/// lies before two hours from now.
pub proof fn law_live_punch_is_read(control: u16, data: Seq<u8>, now_s: u32)
    ensures
        live_punch(control, data, now_s) is Some <==> data.len() >= 7,
        live_punch(control, data, now_s) matches Some(r) ==> {
            let raw = data[5] * 256 + data[6];
            &&& r.card_id == data[1] * 65_536 + data[2] * 256 + data[3]
            &&& r.punches.len() == 1
            &&& r.punches[0].station == control % 256
            &&& r.punches[0].time_s < 86_400
            &&& r.punches[0].time_s % 43_200 == raw % 43_200
            &&& (now_s + 7_200 - 1 - r.punches[0].time_s) % 86_400 < 43_200
        },
{
    if data.len() >= 7 {
        law_resolved_time((data[5] * 256 + data[6]) % 43_200, now_s as int, 0);
    }
}

/// What a record of the backup memory tells, behind the three bytes of its
/// position: the card in the first three bytes and the time as a live punch has
/// it.
pub proof fn law_backup_record_is_read(control: u16, data: Seq<u8>, now_s: u32)
    ensures
        backup_punch(control, data, now_s) is Some <==> data.len() >= 10,
        backup_punch(control, data, now_s) matches Some(r) ==> {
            let raw = data[8] * 256 + data[9];
            &&& r.card_id == data[3] * 65_536 + data[4] * 256 + data[5]
            &&& r.punches.len() == 1
            &&& r.punches[0].station == control % 256
            &&& r.punches[0].time_s < 86_400
            &&& r.punches[0].time_s % 43_200 == raw % 43_200
            &&& (now_s + 7_200 - 1 - r.punches[0].time_s) % 86_400 < 43_200
        },
{
    if data.len() >= 10 {
        law_resolved_time((data[8] * 256 + data[9]) % 43_200, now_s as int, 0);
    }
}

} // verus!
