//! SportIdent master stations: packet framing, card images, punch records and
//! the text in which a card readout travels over the radio.
//!
//! The reader is a state machine over bytes. It never touches a port itself:
//! the owner of the port feeds it what was read and carries out the actions it
//! asks for.

pub mod card;
pub mod crc;
pub mod hotplug;
pub mod reader;

use vstd::prelude::*;
use crate::{decimal, text};

verus! {

/// USB vendor of the station's serial bridge.
pub const SI_VID: u16 = 0x10C4;

/// USB product of a BSM7/BSM8 master station.
pub const SI_PID: u16 = 0x800A;

/// Line speed of a master station.
pub const SI_BAUD: u32 = 38400;

/// One control visited by a card.
#[derive(Debug, Clone, Copy, PartialEq, Eq, Structural)]
pub struct ControlPunch {
    pub station: u8,
    /// Seconds since midnight.
    pub time_s: u32,
}

/// What a station read from a card.
#[derive(Debug, Clone)]
pub struct CardReadout {
    pub card_id: u32,
    pub punches: Vec<ControlPunch>,
}

/// A card readout as a value.
pub struct ReadoutView {
    pub card_id: u32,
    pub punches: Seq<ControlPunch>,
}

impl View for CardReadout {
    type V = ReadoutView;

    open spec fn view(&self) -> ReadoutView {
        ReadoutView { card_id: self.card_id, punches: self.punches@ }
    }
}

/// `<station>:<time>`.
pub open spec fn punch_text(p: ControlPunch) -> Seq<char> {
    decimal::dec(p.station as nat).push(':') + decimal::dec(p.time_s as nat)
}

/// Punches in order, separated by commas.
pub open spec fn punch_list(ps: Seq<ControlPunch>) -> Seq<char>
    decreases ps.len(),
{
    if ps.len() == 0 {
        Seq::empty()
    } else if ps.len() == 1 {
        punch_text(ps[0])
    } else {
        punch_list(ps.drop_last()).push(',') + punch_text(ps.last())
    }
}

/// `<card> <punches>`.
pub open spec fn card_text(r: ReadoutView) -> Seq<char> {
    decimal::dec(r.card_id as nat).push(' ') + punch_list(r.punches)
}

/// The payload of a card readout of the node `origin`.
pub open spec fn payload(origin: u16, r: ReadoutView) -> Seq<char> {
    "PUNCH "@ + (decimal::dec(origin as nat).push(' ') + card_text(r))
}

/// The payload of a card readout of the node `origin` meant for the node
/// `dest`.
pub open spec fn addressed_payload(origin: u16, dest: u16, r: ReadoutView) -> Seq<char> {
    "PUNCH "@ + (decimal::dec(origin as nat).push(' ') + (decimal::dec(dest as nat).push(' ')
        + card_text(r)))
}

/// Reads `<station>:<time>`.
pub open spec fn parsed_punch(s: Seq<char>) -> Option<ControlPunch> {
    match (decimal::parsed(text::head(s, ':'), u8::MAX as nat), text::tail(s, ':')) {
        (Some(station), Some(t)) => match decimal::parsed(t, u32::MAX as nat) {
            Some(time) => Some(ControlPunch { station: station as u8, time_s: time as u32 }),
            None => None,
        },
        _ => None,
    }
}

/// Reads every field as a punch.
pub open spec fn parsed_punches(fields: Seq<Seq<char>>) -> Option<Seq<ControlPunch>>
    decreases fields.len(),
{
    if fields.len() == 0 {
        Some(Seq::empty())
    } else {
        match (parsed_punches(fields.drop_last()), parsed_punch(fields.last())) {
            (Some(ps), Some(p)) => Some(ps.push(p)),
            _ => None,
        }
    }
}

/// Reads a comma-separated list of punches, which may be empty.
pub open spec fn parsed_list(s: Seq<char>) -> Option<Seq<ControlPunch>> {
    if s.len() == 0 {
        Some(Seq::empty())
    } else {
        parsed_punches(text::split(s, ','))
    }
}

/// Reads `<card> <punches>`; the punches may be missing.
pub open spec fn parsed_card(s: Seq<char>) -> Option<ReadoutView> {
    match decimal::parsed(text::head(s, ' '), u32::MAX as nat) {
        Some(card) => {
            let list = match text::tail(s, ' ') {
                Some(t) => t,
                None => Seq::empty(),
            };
            match parsed_list(list) {
                Some(ps) => Some(ReadoutView { card_id: card as u32, punches: ps }),
                None => None,
            }
        },
        None => None,
    }
}

/// Reads the payload of a card readout: the originating node and the readout.
pub open spec fn parsed_payload(s: Seq<char>) -> Option<(u16, ReadoutView)> {
    match text::strip(s, "PUNCH "@) {
        Some(rest) => match (
            decimal::parsed(text::head(rest, ' '), u16::MAX as nat),
            text::tail(rest, ' '),
        ) {
            (Some(origin), Some(t)) => match parsed_card(t) {
                Some(r) => Some((origin as u16, r)),
                None => None,
            },
            _ => None,
        },
        None => None,
    }
}

/// Reads an addressed payload: originating node, destination and readout.
pub open spec fn parsed_addressed_payload(s: Seq<char>) -> Option<(u16, u16, ReadoutView)> {
    match text::strip(s, "PUNCH "@) {
        Some(rest) => match (
            decimal::parsed(text::head(rest, ' '), u16::MAX as nat),
            text::tail(rest, ' '),
        ) {
            (Some(origin), Some(t)) => match (
                decimal::parsed(text::head(t, ' '), u16::MAX as nat),
                text::tail(t, ' '),
            ) {
                (Some(dest), Some(u)) => match parsed_card(u) {
                    Some(r) => Some((origin as u16, dest as u16, r)),
                    None => None,
                },
                _ => None,
            },
            _ => None,
        },
        None => None,
    }
}

/// Appends the punches, separated by commas.
fn push_punch_list(out: &mut String, ps: &Vec<ControlPunch>)
    ensures
        final(out)@ == old(out)@ + punch_list(ps@),
{
    let mut i: usize = 0;
    assert(out@ =~= old(out)@ + punch_list(ps@.take(0)));
    while i < ps.len()
        invariant
            i <= ps@.len(),
            out@ == old(out)@ + punch_list(ps@.take(i as int)),
        decreases ps@.len() - i,
    {
        let ghost before = out@;
        if i > 0 {
            out.push(',');
        }
        decimal::push_dec(out, ps[i].station as u64);
        out.push(':');
        decimal::push_dec(out, ps[i].time_s as u64);
        proof {
            let done = ps@.take(i + 1);
            assert(done.drop_last() =~= ps@.take(i as int));
            assert(done.last() == ps@[i as int]);
            assert(out@ =~= old(out)@ + punch_list(done));
        }
        i += 1;
    }
    assert(ps@.take(i as int) =~= ps@);
}

/// Reads `<station>:<time>`.
fn parse_punch_text(s: &[char]) -> (r: Option<ControlPunch>)
    ensures
        r == parsed_punch(s@),
{
    let (first, rest) = text::split_head(s, ':');
    let rest = match rest {
        Some(t) => t,
        None => return None,
    };
    match (decimal::parse_u8(first), decimal::parse_u32(rest)) {
        (Some(station), Some(time_s)) => Some(ControlPunch { station, time_s }),
        _ => None,
    }
}

/// Where an earlier field is no punch, the whole list is none.
proof fn lemma_parsed_punches_none(fields: Seq<Seq<char>>, i: int)
    requires
        0 <= i < fields.len(),
        parsed_punch(fields[i]) is None,
    ensures
        parsed_punches(fields) is None,
    decreases fields.len(),
{
    if i < fields.len() - 1 {
        lemma_parsed_punches_none(fields.drop_last(), i);
    }
}

/// Reads a comma-separated list of punches.
fn parse_list(list: &[char]) -> (r: Option<Vec<ControlPunch>>)
    ensures
        r matches Some(ps) ==> parsed_list(list@) == Some(ps@),
        r is None ==> parsed_list(list@) is None,
{
    let mut punches: Vec<ControlPunch> = Vec::new();
    if list.len() == 0 {
        return Some(punches);
    }
    let fields = text::split_all(list, ',');
    let ghost all = text::split(list@, ',');
    let mut i: usize = 0;
    assert(all.take(0) =~= Seq::<Seq<char>>::empty());
    while i < fields.len()
        invariant
            i <= fields@.len(),
            list@.len() > 0,
            all == text::split(list@, ','),
            all == text::views(fields@),
            parsed_punches(all.take(i as int)) == Some(punches@),
        decreases fields@.len() - i,
    {
        assert(all[i as int] == fields@[i as int]@);
        match parse_punch_text(fields[i]) {
            Some(p) => {
                proof {
                    assert(all.take(i + 1).drop_last() =~= all.take(i as int));
                }
                punches.push(p);
            },
            None => {
                proof {
                    lemma_parsed_punches_none(all, i as int);
                }
                return None;
            },
        }
        i += 1;
    }
    assert(all.take(i as int) =~= all);
    Some(punches)
}

/// Reads `<card> <punches>`.
fn parse_card(s: &[char]) -> (r: Option<CardReadout>)
    ensures
        opt_readout(r) == parsed_card(s@),
{
    let (first, rest) = text::split_head(s, ' ');
    let card_id = match decimal::parse_u32(first) {
        Some(v) => v,
        None => return None,
    };
    match rest {
        Some(t) => match parse_list(t) {
            Some(punches) => Some(CardReadout { card_id, punches }),
            None => None,
        },
        None => Some(CardReadout { card_id, punches: Vec::new() }),
    }
}

/// An optional readout as a value.
pub open spec fn opt_readout(o: Option<CardReadout>) -> Option<ReadoutView> {
    match o {
        Some(r) => Some(r@),
        None => None,
    }
}

impl CardReadout {
    /// Appends `<card_id> <station>:<time_s>,...`.
    pub fn push_card_text(&self, out: &mut String)
        ensures
            final(out)@ == old(out)@ + card_text(self@),
    {
        decimal::push_dec(out, self.card_id as u64);
        out.push(' ');
        push_punch_list(out, &self.punches);
        assert(out@ =~= old(out)@ + card_text(self@));
    }

    /// The text sent over the radio:
    /// `PUNCH <origin> <card_id> <station>:<time_s>,...`.
    ///
    /// `origin` is the node that read the card. It travels in the payload, so
    /// that behind a relay a punch is still attributed to its control point.
    pub fn to_payload(&self, origin: u16) -> (r: String)
        ensures
            r@ == payload(origin, self@),
    {
        let mut out: String = String::new();
        out.push_str("PUNCH ");
        decimal::push_dec(&mut out, origin as u64);
        out.push(' ');
        self.push_card_text(&mut out);
        assert(out@ =~= payload(origin, self@));
        out
    }

    /// The text sent over the radio when the readout is meant for one node:
    /// `PUNCH <origin> <dest> <card_id> <station>:<time_s>,...`.
    ///
    /// Every node in range hears every packet. `dest` keeps a node that is
    /// not meant from consuming and acknowledging it.
    pub fn to_addressed_payload(&self, origin: u16, dest: u16) -> (r: String)
        ensures
            r@ == addressed_payload(origin, dest, self@),
    {
        let mut out: String = String::new();
        out.push_str("PUNCH ");
        decimal::push_dec(&mut out, origin as u64);
        out.push(' ');
        decimal::push_dec(&mut out, dest as u64);
        out.push(' ');
        self.push_card_text(&mut out);
        assert(out@ =~= addressed_payload(origin, dest, self@));
        out
    }

    /// Reads what `to_payload` wrote: the originating node and the readout.
    pub fn parse_payload(s: &str) -> (r: Option<(u16, CardReadout)>)
        ensures
            r matches Some((origin, readout)) ==> parsed_payload(s@) == Some((origin, readout@)),
            r is None ==> parsed_payload(s@) is None,
    {
        let all = text::chars(s);
        let rest = match text::strip_prefix(all.as_slice(), "PUNCH ") {
            Some(t) => t,
            None => return None,
        };
        let (first, rest) = text::split_head(rest, ' ');
        let origin = match decimal::parse_u16(first) {
            Some(v) => v,
            None => return None,
        };
        match rest {
            Some(t) => match parse_card(t) {
                Some(readout) => Some((origin, readout)),
                None => None,
            },
            None => None,
        }
    }

    /// Reads what `to_addressed_payload` wrote: the originating node, the
    /// destination and the readout.
    pub fn parse_addressed_payload(s: &str) -> (r: Option<(u16, u16, CardReadout)>)
        ensures
            r matches Some((origin, dest, readout)) ==> parsed_addressed_payload(s@) == Some(
                (origin, dest, readout@),
            ),
            r is None ==> parsed_addressed_payload(s@) is None,
    {
        let all = text::chars(s);
        let rest = match text::strip_prefix(all.as_slice(), "PUNCH ") {
            Some(t) => t,
            None => return None,
        };
        let (first, rest) = text::split_head(rest, ' ');
        let origin = match decimal::parse_u16(first) {
            Some(v) => v,
            None => return None,
        };
        let rest = match rest {
            Some(t) => t,
            None => return None,
        };
        let (second, rest) = text::split_head(rest, ' ');
        let dest = match decimal::parse_u16(second) {
            Some(v) => v,
            None => return None,
        };
        match rest {
            Some(t) => match parse_card(t) {
                Some(readout) => Some((origin, dest, readout)),
                None => None,
            },
            None => None,
        }
    }
}

/// The text of a list of punches holds digits, colons and commas only.
proof fn lemma_list_chars(ps: Seq<ControlPunch>)
    ensures
        forall|i: int|
            0 <= i < punch_list(ps).len() ==> decimal::is_digit(#[trigger] punch_list(ps)[i])
                || punch_list(ps)[i] == ':' || punch_list(ps)[i] == ',',
        ps.len() > 0 ==> punch_list(ps).contains(':'),
    decreases ps.len(),
{
    if ps.len() > 0 {
        let last = ps.last();
        decimal::lemma_dec(last.station as nat);
        decimal::lemma_dec(last.time_s as nat);
        lemma_list_chars(ps.drop_last());
        let l = punch_list(ps);
        let t = punch_text(last);
        let colon = l.len() - t.len() + decimal::dec(last.station as nat).len();
        assert(l[colon] == ':');
        assert forall|i: int| 0 <= i < l.len() implies decimal::is_digit(#[trigger] l[i]) || l[i]
            == ':' || l[i] == ',' by {
            if i >= l.len() - t.len() {
                let j = i - (l.len() - t.len());
                assert(l[i] == t[j]);
                if j < decimal::dec(last.station as nat).len() {
                    assert(decimal::is_digit(decimal::dec(last.station as nat)[j]));
                } else if j > decimal::dec(last.station as nat).len() {
                    let k = j - decimal::dec(last.station as nat).len() - 1;
                    assert(decimal::is_digit(decimal::dec(last.time_s as nat)[k]));
                }
            } else if ps.len() > 1 && i < punch_list(ps.drop_last()).len() {
                assert(l[i] == punch_list(ps.drop_last())[i]);
            }
        }
    }
}

/// The text of a punch is read back, and holds no comma.
proof fn lemma_punch_text(p: ControlPunch)
    ensures
        parsed_punch(punch_text(p)) == Some(p),
        !punch_text(p).contains(','),
        punch_text(p).len() > 0,
{
    decimal::lemma_dec_without(p.station as nat, ':');
    text::lemma_head_tail(
        decimal::dec(p.station as nat),
        ':',
        decimal::dec(p.time_s as nat),
    );
    decimal::lemma_parse_dec(p.station as nat, u8::MAX as nat);
    decimal::lemma_parse_dec(p.time_s as nat, u32::MAX as nat);
    decimal::lemma_dec_without(p.station as nat, ',');
    decimal::lemma_dec_without(p.time_s as nat, ',');
    let t = punch_text(p);
    if t.contains(',') {
        let i = choose|i: int| 0 <= i < t.len() && t[i] == ',';
        let n = decimal::dec(p.station as nat).len();
        if i < n {
            assert(decimal::dec(p.station as nat).contains(t[i]));
        } else {
            assert(decimal::dec(p.time_s as nat)[i - n - 1] == t[i]);
            assert(decimal::dec(p.time_s as nat).contains(t[i]));
        }
    }
}

/// One more field at the end of a list is one more field of its split.
proof fn lemma_split_push(a: Seq<char>, c: char, b: Seq<char>)
    requires
        !b.contains(c),
    ensures
        text::split(a.push(c) + b, c) == text::split(a, c).push(b),
    decreases a.len(),
{
    let s = a.push(c) + b;
    text::lemma_find(a, c);
    let k = text::find(a, c);
    assert forall|j: int| 0 <= j < k implies s[j] != c by {
        assert(s[j] == a[j]);
    }
    text::lemma_find_is(s, c, k);
    assert(s.take(k) =~= a.take(k));
    if k < a.len() {
        let rest = a.skip(k + 1);
        assert(s.skip(k + 1) =~= rest.push(c) + b);
        lemma_split_push(rest, c, b);
        assert(text::split(s, c) =~= text::split(a, c).push(b));
    } else {
        assert(s.skip(k + 1) =~= b);
        assert(a.take(k) =~= a);
        text::lemma_head_tail(b, c, Seq::empty());
        text::lemma_find(b, c);
        assert(text::split(b, c) =~= seq![b]);
        assert(text::split(s, c) =~= text::split(a, c).push(b));
    }
}

/// A list of punches is read back.
proof fn lemma_list_round_trip(ps: Seq<ControlPunch>)
    ensures
        parsed_list(punch_list(ps)) == Some(ps),
        ps.len() > 0 ==> punch_list(ps).len() > 0,
    decreases ps.len(),
{
    if ps.len() == 0 {
        assert(ps =~= Seq::<ControlPunch>::empty());
    } else {
        lemma_punch_text(ps.last());
        let fields = text::split(punch_list(ps), ',');
        if ps.len() == 1 {
            text::lemma_head_tail(punch_list(ps), ',', Seq::empty());
            text::lemma_find(punch_list(ps), ',');
            assert(fields =~= seq![punch_list(ps)]);
            assert(fields.drop_last() =~= Seq::<Seq<char>>::empty());
            assert(parsed_punches(fields.drop_last()) == Some(Seq::<ControlPunch>::empty()));
            assert(Seq::<ControlPunch>::empty().push(ps[0]) =~= ps);
        } else {
            let front = ps.drop_last();
            lemma_list_round_trip(front);
            lemma_split_push(punch_list(front), ',', punch_text(ps.last()));
            assert(fields.drop_last() =~= text::split(punch_list(front), ','));
            assert(parsed_punches(fields.drop_last()) == Some(front));
            assert(front.push(ps.last()) =~= ps);
        }
    }
}

/// `<card> <punches>` is read back.
proof fn lemma_card_round_trip(r: ReadoutView)
    ensures
        parsed_card(card_text(r)) == Some(r),
{
    decimal::lemma_dec_without(r.card_id as nat, ' ');
    text::lemma_head_tail(decimal::dec(r.card_id as nat), ' ', punch_list(r.punches));
    decimal::lemma_parse_dec(r.card_id as nat, u32::MAX as nat);
    lemma_list_round_trip(r.punches);
}

/// A readout sent over the radio arrives as it was: its origin, its card and
/// every punch in order.
pub proof fn law_payload_round_trip(origin: u16, r: ReadoutView)
    ensures
        parsed_payload(payload(origin, r)) == Some((origin, r)),
{
    let rest = decimal::dec(origin as nat).push(' ') + card_text(r);
    text::lemma_strip("PUNCH "@, rest);
    decimal::lemma_dec_without(origin as nat, ' ');
    text::lemma_head_tail(decimal::dec(origin as nat), ' ', card_text(r));
    decimal::lemma_parse_dec(origin as nat, u16::MAX as nat);
    lemma_card_round_trip(r);
}

/// A readout sent to one node arrives as it was, with its destination.
pub proof fn law_addressed_payload_round_trip(origin: u16, dest: u16, r: ReadoutView)
    ensures
        parsed_addressed_payload(addressed_payload(origin, dest, r)) == Some((origin, dest, r)),
{
    let tail = decimal::dec(dest as nat).push(' ') + card_text(r);
    let rest = decimal::dec(origin as nat).push(' ') + tail;
    text::lemma_strip("PUNCH "@, rest);
    decimal::lemma_dec_without(origin as nat, ' ');
    text::lemma_head_tail(decimal::dec(origin as nat), ' ', tail);
    decimal::lemma_parse_dec(origin as nat, u16::MAX as nat);
    decimal::lemma_dec_without(dest as nat, ' ');
    text::lemma_head_tail(decimal::dec(dest as nat), ' ', card_text(r));
    decimal::lemma_parse_dec(dest as nat, u16::MAX as nat);
    lemma_card_round_trip(r);
}

/// A readout without a destination is never taken for an addressed one.
pub proof fn law_plain_payload_is_not_addressed(origin: u16, r: ReadoutView)
    ensures
        parsed_addressed_payload(payload(origin, r)) is None,
{
    let rest = decimal::dec(origin as nat).push(' ') + card_text(r);
    text::lemma_strip("PUNCH "@, rest);
    decimal::lemma_dec_without(origin as nat, ' ');
    text::lemma_head_tail(decimal::dec(origin as nat), ' ', card_text(r));
    decimal::lemma_dec_without(r.card_id as nat, ' ');
    let list = punch_list(r.punches);
    text::lemma_head_tail(decimal::dec(r.card_id as nat), ' ', list);
    lemma_list_chars(r.punches);
    if list.contains(' ') {
        let i = choose|i: int| 0 <= i < list.len() && list[i] == ' ';
        assert(decimal::is_digit(list[i]) || list[i] == ':' || list[i] == ',');
    }
    text::lemma_head_tail(list, ' ', Seq::empty());
    if r.punches.len() > 0 {
        let i = choose|i: int| 0 <= i < list.len() && list[i] == ':';
        let d = decimal::unsigned_part(list);
        if list[0] == '+' {
            assert(decimal::is_digit(list[0]) || list[0] == ':' || list[0] == ',');
        }
        assert(d == list);
        assert(!decimal::is_digit(d[i]));
    }
}

/// The fields of a list of punches are the punches.
proof fn lemma_list_fields(ps: Seq<ControlPunch>)
    requires
        ps.len() > 0,
    ensures
        text::split(punch_list(ps), ',') == Seq::new(ps.len(), |i: int| punch_text(ps[i])),
    decreases ps.len(),
{
    let fields = text::split(punch_list(ps), ',');
    lemma_punch_text(ps.last());
    if ps.len() == 1 {
        text::lemma_split_cons(punch_list(ps), ',', Seq::empty());
        assert(fields =~= Seq::new(ps.len(), |i: int| punch_text(ps[i])));
    } else {
        let front = ps.drop_last();
        lemma_list_fields(front);
        lemma_split_push(punch_list(front), ',', punch_text(ps.last()));
        assert(fields =~= Seq::new(ps.len(), |i: int| punch_text(ps[i])));
    }
}

/// How a readout goes over the radio: `PUNCH`, the node that read the card, the
/// node that it is for, the card, and the punches between commas, each its
/// control and its seconds since midnight around a colon; blanks between.
pub proof fn law_payload_fields(origin: u16, dest: u16, r: ReadoutView, i: int)
    ensures
        ({
            let f = text::split(addressed_payload(origin, dest, r), ' ');
            &&& f.len() == 5
            &&& f[0] == "PUNCH"@
            &&& decimal::says(f[1], origin as int)
            &&& decimal::says(f[2], dest as int)
            &&& decimal::says(f[3], r.card_id as int)
            &&& r.punches.len() == 0 ==> f[4].len() == 0
            &&& r.punches.len() > 0 ==> text::split(f[4], ',').len() == r.punches.len()
            &&& 0 <= i < r.punches.len() ==> {
                let p = text::split(text::split(f[4], ',')[i], ':');
                &&& p.len() == 2
                &&& decimal::says(p[0], r.punches[i].station as int)
                &&& decimal::says(p[1], r.punches[i].time_s as int)
            }
        }),
{
    reveal_strlit("PUNCH ");
    reveal_strlit("PUNCH");
    let o = decimal::dec(origin as nat);
    let d = decimal::dec(dest as nat);
    let c = decimal::dec(r.card_id as nat);
    let list = punch_list(r.punches);
    decimal::lemma_dec(origin as nat);
    decimal::lemma_dec(dest as nat);
    decimal::lemma_dec(r.card_id as nat);
    decimal::lemma_dec_without(origin as nat, ' ');
    decimal::lemma_dec_without(dest as nat, ' ');
    decimal::lemma_dec_without(r.card_id as nat, ' ');
    lemma_list_chars(r.punches);
    assert(!list.contains(' ')) by {
        if list.contains(' ') {
            let k = choose|k: int| 0 <= k < list.len() && list[k] == ' ';
            assert(decimal::is_digit(list[k]) || list[k] == ':' || list[k] == ',');
        }
    }
    let t3 = c.push(' ') + list;
    let t2 = d.push(' ') + t3;
    let t1 = o.push(' ') + t2;
    assert("PUNCH "@ =~= "PUNCH"@.push(' '));
    assert(!"PUNCH"@.contains(' '));
    text::lemma_split_cons("PUNCH"@, ' ', t1);
    text::lemma_split_cons(o, ' ', t2);
    text::lemma_split_cons(d, ' ', t3);
    text::lemma_split_cons(c, ' ', list);
    text::lemma_split_cons(list, ' ', Seq::empty());
    let f = text::split(addressed_payload(origin, dest, r), ' ');
    assert(f =~= seq!["PUNCH"@, o, d, c, list]);
    if r.punches.len() > 0 {
        lemma_list_fields(r.punches);
        if 0 <= i < r.punches.len() {
            let q = r.punches[i];
            let a = decimal::dec(q.station as nat);
            let b = decimal::dec(q.time_s as nat);
            decimal::lemma_dec(q.station as nat);
            decimal::lemma_dec(q.time_s as nat);
            decimal::lemma_dec_without(q.station as nat, ':');
            decimal::lemma_dec_without(q.time_s as nat, ':');
            text::lemma_split_cons(a, ':', b);
            text::lemma_split_cons(b, ':', Seq::empty());
            assert(text::split(punch_text(q), ':') =~= seq![a, b]);
        }
    }
}

/// A readout without a destination goes out as `PUNCH`, the node that read the
/// card, the card and the punches.
pub proof fn law_plain_payload_fields(origin: u16, r: ReadoutView)
    ensures
        ({
            let f = text::split(payload(origin, r), ' ');
            &&& f.len() == 4
            &&& f[0] == "PUNCH"@
            &&& decimal::says(f[1], origin as int)
            &&& decimal::says(f[2], r.card_id as int)
            &&& f[3] == punch_list(r.punches)
        }),
{
    reveal_strlit("PUNCH ");
    reveal_strlit("PUNCH");
    let o = decimal::dec(origin as nat);
    let c = decimal::dec(r.card_id as nat);
    let list = punch_list(r.punches);
    decimal::lemma_dec(origin as nat);
    decimal::lemma_dec(r.card_id as nat);
    decimal::lemma_dec_without(origin as nat, ' ');
    decimal::lemma_dec_without(r.card_id as nat, ' ');
    lemma_list_chars(r.punches);
    assert(!list.contains(' ')) by {
        if list.contains(' ') {
            let k = choose|k: int| 0 <= k < list.len() && list[k] == ' ';
            assert(decimal::is_digit(list[k]) || list[k] == ':' || list[k] == ',');
        }
    }
    let t2 = c.push(' ') + list;
    let t1 = o.push(' ') + t2;
    assert("PUNCH "@ =~= "PUNCH"@.push(' '));
    assert(!"PUNCH"@.contains(' '));
    text::lemma_split_cons("PUNCH"@, ' ', t1);
    text::lemma_split_cons(o, ' ', t2);
    text::lemma_split_cons(c, ' ', list);
    text::lemma_split_cons(list, ' ', Seq::empty());
    assert(text::split(payload(origin, r), ' ') =~= seq!["PUNCH"@, o, c, list]);
}

} // verus!
