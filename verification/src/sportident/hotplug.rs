//! Stations that come and go.

use vstd::prelude::*;
use crate::lora_server::backend;
use crate::text;
use super::reader::{is_si_device, SiEvent};
use super::CardReadout;

verus! {

/// A station was plugged in or out.
#[derive(Debug)]
pub enum HotplugEvent {
    /// The port of a station that was plugged in.
    Connected(String),
    /// The port of a station that is gone.
    Disconnected(String),
}

/// Such an event as a value.
pub enum HotplugView {
    Connected(Seq<char>),
    Disconnected(Seq<char>),
}

impl View for HotplugEvent {
    type V = HotplugView;

    open spec fn view(&self) -> HotplugView {
        match *self {
            HotplugEvent::Connected(p) => HotplugView::Connected(p@),
            HotplugEvent::Disconnected(p) => HotplugView::Disconnected(p@),
        }
    }
}

/// A list of events as values.
pub open spec fn views(v: Seq<HotplugEvent>) -> Seq<HotplugView> {
    Seq::new(v.len(), |i: int| v[i]@)
}

/// An optional event as a value.
pub open spec fn opt_hotplug(o: Option<HotplugEvent>) -> Option<HotplugView> {
    match o {
        Some(e) => Some(e@),
        None => None,
    }
}

/// A serial port.
#[derive(Debug)]
pub struct Port {
    pub name: String,
    /// Vendor and product of the device, where it is on USB.
    pub usb: Option<(u16, u16)>,
}

/// A port as a value.
pub struct PortView {
    pub name: Seq<char>,
    pub usb: Option<(u16, u16)>,
}

impl View for Port {
    type V = PortView;

    open spec fn view(&self) -> PortView {
        PortView { name: self.name@, usb: self.usb }
    }
}

/// A list of ports as values.
pub open spec fn ports(v: Seq<Port>) -> Seq<PortView> {
    Seq::new(v.len(), |i: int| v[i]@)
}

impl PortView {
    /// Whether a station is on the port.
    pub open spec fn is_station(self) -> bool {
        self.usb == Some((super::SI_VID, super::SI_PID))
    }
}

/// The names of the ports that stations are on, in order.
pub open spec fn stations(ps: Seq<PortView>) -> Seq<Seq<char>>
    decreases ps.len(),
{
    if ps.len() == 0 {
        Seq::empty()
    } else if ps.last().is_station() {
        stations(ps.drop_last()).push(ps.last().name)
    } else {
        stations(ps.drop_last())
    }
}

/// The texts of a list.
pub open spec fn names(v: Seq<String>) -> Seq<Seq<char>> {
    Seq::new(v.len(), |i: int| v[i]@)
}

impl Port {
    /// Tells whether a station is on the port.
    pub fn is_station(&self) -> (r: bool)
        ensures
            r == self@.is_station(),
    {
        match self.usb {
            Some((vid, pid)) => is_si_device(Some(vid), Some(pid)),
            None => false,
        }
    }
}

/// The names of the ports that stations are on.
pub fn si_ports(all: &[Port]) -> (r: Vec<String>)
    ensures
        names(r@) == stations(ports(all@)),
{
    let mut out: Vec<String> = Vec::new();
    let ghost ps = ports(all@);
    let mut i: usize = 0;
    assert(names(out@) =~= stations(ps.take(0)));
    while i < all.len()
        invariant
            ps == ports(all@),
            i <= all@.len(),
            names(out@) == stations(ps.take(i as int)),
        decreases all@.len() - i,
    {
        assert(ps.take(i + 1).drop_last() =~= ps.take(i as int));
        assert(ps.take(i + 1).last() == all@[i as int]@);
        if all[i].is_station() {
            let ghost before = out@;
            out.push(all[i].name.clone());
            assert(names(out@) =~= names(before).push(all@[i as int].name@));
        }
        i += 1;
    }
    assert(ps.take(all@.len() as int) =~= ps);
    out
}

/// The first of the ports that stations are on.
pub fn find_si_port(all: &[Port]) -> (r: Option<String>)
    ensures
        match r {
            Some(name) => stations(ports(all@)).len() > 0 && name@ == stations(ports(all@))[0],
            None => stations(ports(all@)).len() == 0,
        },
{
    let mut found = si_ports(all);
    assert(names(found@).len() == found@.len());
    if found.len() == 0 {
        None
    } else {
        let first = found.remove(0);
        assert(first@ == stations(ports(all@))[0]);
        Some(first)
    }
}

/// The value of a hexadecimal digit.
pub open spec fn hex_digit(c: char) -> Option<int> {
    if '0' <= c && c <= '9' {
        Some(c as int - 48)
    } else if 'a' <= c && c <= 'f' {
        Some(c as int - 87)
    } else if 'A' <= c && c <= 'F' {
        Some(c as int - 55)
    } else {
        None
    }
}

/// The number that hexadecimal digits write; `None` where some character is no
/// digit.
pub open spec fn hex_value(s: Seq<char>) -> Option<int>
    decreases s.len(),
{
    if s.len() == 0 {
        Some(0)
    } else {
        match (hex_value(s.drop_last()), hex_digit(s.last())) {
            (Some(n), Some(d)) => Some(n * 16 + d),
            _ => None,
        }
    }
}

/// The digits of a number, behind its sign.
pub open spec fn hex_digits(s: Seq<char>) -> Seq<char> {
    if s.len() > 0 && s[0] == '+' {
        s.skip(1)
    } else {
        s
    }
}

/// The number of a device's vendor or product, in hexadecimal.
pub open spec fn usb_id(s: Seq<char>) -> Option<u16> {
    if hex_digits(s).len() == 0 {
        None
    } else {
        match hex_value(hex_digits(s)) {
            Some(n) => if n <= u16::MAX {
                Some(n as u16)
            } else {
                None
            },
            None => None,
        }
    }
}

/// A number that is already too large stays so, and what is no number stays
/// none.
proof fn lemma_hex_grows(s: Seq<char>, i: int)
    requires
        0 <= i <= s.len(),
    ensures
        hex_value(s.take(i)) is None ==> hex_value(s) is None,
        hex_value(s.take(i)) matches Some(n) ==> 0 <= n && (hex_value(s) matches Some(m) ==> n
            <= m),
    decreases s.len() - i,
{
    if i == s.len() {
        assert(s.take(i) =~= s);
        lemma_hex_sign(s);
    } else {
        lemma_hex_grows(s, i + 1);
        assert(s.take(i + 1).drop_last() =~= s.take(i));
        lemma_hex_sign(s.take(i));
    }
}

/// A number in hexadecimal is not negative.
proof fn lemma_hex_sign(s: Seq<char>)
    ensures
        hex_value(s) matches Some(n) ==> 0 <= n,
    decreases s.len(),
{
    if s.len() > 0 {
        lemma_hex_sign(s.drop_last());
    }
}

/// Reads a hexadecimal digit.
fn parse_digit(c: char) -> (r: Option<u32>)
    ensures
        r matches Some(d) ==> d < 16 && hex_digit(c) == Some(d as int),
        r is None ==> hex_digit(c) is None,
{
    if '0' <= c && c <= '9' {
        Some(c as u32 - 48)
    } else if 'a' <= c && c <= 'f' {
        Some(c as u32 - 87)
    } else if 'A' <= c && c <= 'F' {
        Some(c as u32 - 55)
    } else {
        None
    }
}

/// Reads the number of a device's vendor or product.
pub fn parse_usb_id(s: &str) -> (r: Option<u16>)
    ensures
        r == usb_id(s@),
{
    let all = text::chars(s);
    let from: usize = if all.len() > 0 && all[0] == '+' {
        1
    } else {
        0
    };
    let ghost digits = hex_digits(s@);
    assert(digits =~= s@.skip(from as int));
    if from == all.len() {
        return None;
    }
    let mut n: u32 = 0;
    let mut i: usize = from;
    assert(digits.take(0) =~= Seq::<char>::empty());
    while i < all.len()
        invariant
            all@ == s@,
            from <= i <= all@.len(),
            digits == hex_digits(s@),
            digits == s@.skip(from as int),
            n <= u16::MAX,
            hex_value(digits.take(i - from)) == Some(n as int),
        decreases all@.len() - i,
    {
        let ghost more = digits.take(i - from + 1);
        assert(more.drop_last() =~= digits.take(i - from));
        assert(more.last() == all@[i as int]);
        proof {
            lemma_hex_grows(digits, i - from + 1);
        }
        let d: u32 = match parse_digit(all[i]) {
            Some(d) => d,
            None => return None,
        };
        n = n * 16 + d;
        if n > 0xFFFF {
            return None;
        }
        i += 1;
    }
    assert(digits.take(i - from) =~= digits);
    Some(n as u16)
}

/// What happened to a device.
#[derive(Debug, Clone, Copy, PartialEq, Eq, Structural)]
pub enum Change {
    Added,
    Removed,
    Other,
}

/// What the news of a device, with its vendor, product and port where they are
/// known, say of a station.
pub open spec fn news(
    vid: Option<Seq<char>>,
    pid: Option<Seq<char>>,
    port: Option<Seq<char>>,
    change: Change,
) -> Option<HotplugView> {
    match (vid, pid, port) {
        (Some(v), Some(p), Some(port)) => if usb_id(v) == Some(super::SI_VID) && usb_id(p) == Some(
            super::SI_PID,
        ) {
            match change {
                Change::Added => Some(HotplugView::Connected(port)),
                Change::Removed => Some(HotplugView::Disconnected(port)),
                Change::Other => None,
            }
        } else {
            None
        },
        _ => None,
    }
}

/// An optional text as a value.
pub open spec fn opt_text(o: Option<&str>) -> Option<Seq<char>> {
    match o {
        Some(s) => Some(s@),
        None => None,
    }
}

/// Reads the news of a device.
pub fn device_event(
    vid: Option<&str>,
    pid: Option<&str>,
    port: Option<&str>,
    change: Change,
) -> (r: Option<HotplugEvent>)
    ensures
        opt_hotplug(r) == news(opt_text(vid), opt_text(pid), opt_text(port), change),
{
    match (vid, pid, port) {
        (Some(v), Some(p), Some(port)) => {
            if !is_si_device(parse_usb_id(v), parse_usb_id(p)) {
                return None;
            }
            match change {
                Change::Added => Some(HotplugEvent::Connected(port.to_owned())),
                Change::Removed => Some(HotplugEvent::Disconnected(port.to_owned())),
                Change::Other => None,
            }
        },
        _ => None,
    }
}

/// The names in `a` that are not in `b`, in order.
pub open spec fn missing(a: Seq<Seq<char>>, b: Seq<Seq<char>>) -> Seq<Seq<char>>
    decreases a.len(),
{
    if a.len() == 0 {
        Seq::empty()
    } else if b.contains(a.last()) {
        missing(a.drop_last(), b)
    } else {
        missing(a.drop_last(), b).push(a.last())
    }
}

/// The events between two looks at the ports: what is new was plugged in, and
/// what is missing was plugged out.
pub open spec fn events(known: Seq<Seq<char>>, current: Seq<Seq<char>>) -> Seq<HotplugView> {
    missing(current, known).map_values(|n: Seq<char>| HotplugView::Connected(n)) + missing(
        known,
        current,
    ).map_values(|n: Seq<char>| HotplugView::Disconnected(n))
}

/// Tells whether a name is in a list.
fn holds(list: &Vec<String>, name: &str) -> (r: bool)
    ensures
        r == names(list@).contains(name@),
{
    let wanted = text::chars(name);
    let mut i: usize = 0;
    while i < list.len()
        invariant
            i <= list@.len(),
            wanted@ == name@,
            forall|j: int| 0 <= j < i ==> names(list@)[j] != name@,
        decreases list@.len() - i,
    {
        if text::same(wanted.as_slice(), list[i].as_str()) {
            assert(names(list@)[i as int] == name@);
            return true;
        }
        i += 1;
    }
    false
}

/// The names in `a` that are not in `b`.
fn missing_names(a: &Vec<String>, b: &Vec<String>) -> (r: Vec<String>)
    ensures
        names(r@) == missing(names(a@), names(b@)),
{
    let mut out: Vec<String> = Vec::new();
    let mut i: usize = 0;
    assert(names(out@) =~= missing(names(a@).take(0), names(b@)));
    while i < a.len()
        invariant
            i <= a@.len(),
            names(out@) == missing(names(a@).take(i as int), names(b@)),
        decreases a@.len() - i,
    {
        let ghost more = names(a@).take(i + 1);
        assert(more.drop_last() =~= names(a@).take(i as int));
        assert(more.last() == a@[i as int]@);
        if !holds(b, a[i].as_str()) {
            let ghost before = out@;
            out.push(a[i].clone());
            assert(names(out@) =~= names(before).push(a@[i as int]@));
        }
        i += 1;
    }
    assert(names(a@).take(a@.len() as int) =~= names(a@));
    out
}

/// The events between two looks at the ports that stations are on.
pub fn changes(known: &Vec<String>, current: &Vec<String>) -> (r: Vec<HotplugEvent>)
    ensures
        views(r@) == events(names(known@), names(current@)),
{
    let new = missing_names(current, known);
    let gone = missing_names(known, current);
    let mut out: Vec<HotplugEvent> = Vec::new();
    let mut i: usize = 0;
    while i < new.len()
        invariant
            i <= new@.len(),
            out@.len() == i,
            forall|j: int|
                0 <= j < i ==> #[trigger] out@[j]@ == HotplugView::Connected(names(new@)[j]),
        decreases new@.len() - i,
    {
        out.push(HotplugEvent::Connected(new[i].clone()));
        i += 1;
    }
    let mut k: usize = 0;
    while k < gone.len()
        invariant
            k <= gone@.len(),
            out@.len() == new@.len() + k,
            forall|j: int|
                0 <= j < new@.len() ==> #[trigger] out@[j]@ == HotplugView::Connected(
                    names(new@)[j],
                ),
            forall|j: int|
                new@.len() <= j < out@.len() ==> #[trigger] out@[j]@ == HotplugView::Disconnected(
                    names(gone@)[j - new@.len()],
                ),
        decreases gone@.len() - k,
    {
        out.push(HotplugEvent::Disconnected(gone[k].clone()));
        k += 1;
    }
    assert(views(out@) =~= events(names(known@), names(current@)));
    out
}

/// Two looks at the same ports show nothing.
pub proof fn law_no_change_no_event(known: Seq<Seq<char>>)
    ensures
        events(known, known) == Seq::<HotplugView>::empty(),
{
    lemma_none_missing(known, known);
    assert(events(known, known) =~= Seq::<HotplugView>::empty());
}

/// Nothing is missing of a list in one that holds all of it.
proof fn lemma_none_missing(a: Seq<Seq<char>>, b: Seq<Seq<char>>)
    requires
        forall|i: int| 0 <= i < a.len() ==> b.contains(#[trigger] a[i]),
    ensures
        missing(a, b) == Seq::<Seq<char>>::empty(),
    decreases a.len(),
{
    if a.len() > 0 {
        let front = a.drop_last();
        assert forall|i: int| 0 <= i < front.len() implies b.contains(#[trigger] front[i]) by {
            assert(front[i] == a[i]);
        }
        lemma_none_missing(front, b);
        assert(a.last() == a[a.len() - 1]);
    }
}

/// Whether a station is read at the moment.
#[derive(Debug)]
pub struct SiWorker {
    pub reading: bool,
}

/// What reading a station gave: an event, nothing, or a failure of its port.
#[derive(Debug)]
pub enum Reading {
    Event(SiEvent),
    Nothing,
    Failed,
}

/// The port that a worker opens upon an event, and whether it goes on reading.
pub open spec fn plugged(reading: bool, e: HotplugView) -> (bool, Option<Seq<char>>) {
    match e {
        HotplugView::Connected(port) => (
            reading,
            if reading {
                None
            } else {
                Some(port)
            },
        ),
        HotplugView::Disconnected(_) => (false, None),
    }
}

/// An optional text as a value.
pub open spec fn opt_name(o: Option<String>) -> Option<Seq<char>> {
    match o {
        Some(s) => Some(s@),
        None => None,
    }
}

impl SiWorker {
    /// No station is read.
    pub fn new() -> (r: SiWorker)
        ensures
            !r.reading,
    {
        SiWorker { reading: false }
    }

    /// Takes a station's coming or going, and gives the port to open. While a
    /// station is read, another one is not opened, and one that goes ends the
    /// reading.
    pub fn plug(&mut self, e: HotplugEvent) -> (r: Option<String>)
        ensures
            (final(self).reading, opt_name(r)) == plugged(old(self).reading, e@),
    {
        match e {
            HotplugEvent::Connected(port) => if self.reading {
                None
            } else {
                Some(port)
            },
            HotplugEvent::Disconnected(_) => {
                self.reading = false;
                None
            },
        }
    }

    /// Takes whether the port could be opened.
    pub fn opened(&mut self, ok: bool)
        ensures
            final(self).reading == ok,
    {
        self.reading = ok;
    }

    /// Takes what reading gave, and gives the card that was read. A failure ends
    /// the reading.
    pub fn read(&mut self, got: Reading) -> (r: Option<CardReadout>)
        ensures
            match got {
                Reading::Event(SiEvent::CardReadout(c)) => r == Some(c) && final(self).reading
                    == old(self).reading,
                Reading::Failed => r is None && !final(self).reading,
                _ => r is None && final(self).reading == old(self).reading,
            },
    {
        match got {
            Reading::Event(SiEvent::CardReadout(c)) => Some(c),
            Reading::Failed => {
                self.reading = false;
                None
            },
            _ => None,
        }
    }
}

/// The names that are missing are those of the one list that the other does not
/// hold.
proof fn lemma_missing(a: Seq<Seq<char>>, b: Seq<Seq<char>>, n: Seq<char>)
    ensures
        missing(a, b).contains(n) <==> a.contains(n) && !b.contains(n),
    decreases a.len(),
{
    if a.len() > 0 {
        let front = a.drop_last();
        let m = missing(front, b);
        lemma_missing(front, b, n);
        if a.contains(n) {
            let i = choose|i: int| 0 <= i < a.len() && a[i] == n;
            if i < front.len() {
                assert(front[i] == n);
            }
        }
        if front.contains(n) {
            let i = choose|i: int| 0 <= i < front.len() && front[i] == n;
            assert(a[i] == n);
        }
        assert(a[a.len() - 1] == a.last());
        if !b.contains(a.last()) {
            let t = m.push(a.last());
            assert(t[t.len() - 1] == a.last());
            if m.contains(n) {
                let i = choose|i: int| 0 <= i < m.len() && m[i] == n;
                assert(t[i] == n);
            }
            if t.contains(n) {
                let i = choose|i: int| 0 <= i < t.len() && t[i] == n;
                if i < m.len() {
                    assert(m[i] == n);
                }
            }
        }
    }
}

/// A station is told as plugged in exactly where it is there now and was not
/// before, and as plugged out where it was there and is no more.
pub proof fn law_events_tell_what_changed(
    known: Seq<Seq<char>>,
    current: Seq<Seq<char>>,
    n: Seq<char>,
)
    ensures
        events(known, current).contains(HotplugView::Connected(n)) <==> current.contains(n)
            && !known.contains(n),
        events(known, current).contains(HotplugView::Disconnected(n)) <==> known.contains(n)
            && !current.contains(n),
{
    lemma_missing(current, known, n);
    lemma_missing(known, current, n);
    let a = missing(current, known);
    let b = missing(known, current);
    let e = events(known, current);
    if a.contains(n) {
        let i = choose|i: int| 0 <= i < a.len() && a[i] == n;
        assert(e[i] == HotplugView::Connected(n));
    }
    if b.contains(n) {
        let i = choose|i: int| 0 <= i < b.len() && b[i] == n;
        assert(e[a.len() + i] == HotplugView::Disconnected(n));
    }
    if e.contains(HotplugView::Connected(n)) {
        let i = choose|i: int| 0 <= i < e.len() && e[i] == HotplugView::Connected(n);
        if i < a.len() {
            assert(a[i] == n);
        } else {
            assert(e[i] == HotplugView::Disconnected(b[i - a.len()]));
        }
    }
    if e.contains(HotplugView::Disconnected(n)) {
        let i = choose|i: int| 0 <= i < e.len() && e[i] == HotplugView::Disconnected(n);
        if i < a.len() {
            assert(e[i] == HotplugView::Connected(a[i]));
        } else {
            assert(b[i - a.len()] == n);
        }
    }
}

/// The ports of stations are those of devices with the vendor `10C4` and the
/// product `800A`, and no others.
pub proof fn law_stations_are_known_by_their_numbers(ps: Seq<PortView>, n: Seq<char>)
    ensures
        stations(ps).contains(n) <==> exists|i: int|
            0 <= i < ps.len() && (#[trigger] ps[i]).name == n && ps[i].usb == Some(
                (0x10C4u16, 0x800Au16),
            ),
    decreases ps.len(),
{
    if ps.len() > 0 {
        let front = ps.drop_last();
        let s = stations(front);
        let all = stations(ps);
        law_stations_are_known_by_their_numbers(front, n);
        if exists|i: int|
            0 <= i < front.len() && (#[trigger] front[i]).name == n && front[i].usb == Some(
                (0x10C4u16, 0x800Au16),
            ) {
            let i = choose|i: int|
                0 <= i < front.len() && (#[trigger] front[i]).name == n && front[i].usb == Some(
                    (0x10C4u16, 0x800Au16),
                );
            assert(ps[i] == front[i]);
            let k = choose|k: int| 0 <= k < s.len() && s[k] == n;
            assert(all[k] == n);
        }
        if exists|i: int|
            0 <= i < ps.len() && (#[trigger] ps[i]).name == n && ps[i].usb == Some(
                (0x10C4u16, 0x800Au16),
            ) {
            let i = choose|i: int|
                0 <= i < ps.len() && (#[trigger] ps[i]).name == n && ps[i].usb == Some(
                    (0x10C4u16, 0x800Au16),
                );
            if i < front.len() {
                assert(front[i] == ps[i]);
            } else {
                assert(all[all.len() - 1] == n);
            }
        }
        if all.contains(n) {
            let k = choose|k: int| 0 <= k < all.len() && all[k] == n;
            if k < s.len() {
                assert(s[k] == n);
            } else {
                assert(ps[ps.len() - 1].name == n);
            }
        }
    }
}

/// While a station is read, no other is opened; one that is plugged out ends the
/// reading, and the next that is plugged in is opened.
pub proof fn law_one_station_is_read(reading: bool, a: Seq<char>, b: Seq<char>)
    ensures
        plugged(true, HotplugView::Connected(a)) == (true, None::<Seq<char>>),
        plugged(false, HotplugView::Connected(a)).1 == Some(a),
        plugged(reading, HotplugView::Disconnected(a)) == (false, None::<Seq<char>>),
        plugged(
            plugged(reading, HotplugView::Disconnected(a)).0,
            HotplugView::Connected(b),
        ).1 == Some(b),
{
}

/// A vendor or a product is read from its four hexadecimal digits.
pub proof fn law_device_number_is_read(n: u16)
    ensures
        usb_id(backend::hex(seq![(n / 256) as u8, (n % 256) as u8])) == Some(n),
{
    let a = (n / 256) as u8;
    let b = (n % 256) as u8;
    let s = backend::hex(seq![a, b]);
    reveal_with_fuel(backend::hex, 3);
    reveal_with_fuel(hex_value, 5);
    let d1 = backend::hex_digit(a / 16);
    let d2 = backend::hex_digit(a % 16);
    let d3 = backend::hex_digit(b / 16);
    let d4 = backend::hex_digit(b % 16);
    assert(seq![a, b].drop_last() =~= seq![a]);
    assert(seq![a].drop_last() =~= Seq::<u8>::empty());
    assert(s =~= seq![d1, d2, d3, d4]);
    assert(hex_digits(s) == s);
    let s3 = s.drop_last();
    let s2 = s3.drop_last();
    let s1 = s2.drop_last();
    assert(s.last() == d4 && s3.last() == d3 && s2.last() == d2 && s1.last() == d1);
    assert(s1.drop_last().len() == 0);
    assert(hex_digit(d1) == Some((a / 16) as int));
    assert(hex_digit(d2) == Some((a % 16) as int));
    assert(hex_digit(d3) == Some((b / 16) as int));
    assert(hex_digit(d4) == Some((b % 16) as int));
    assert(hex_value(s1) == Some((a / 16) as int));
    assert(hex_value(s2) == Some(a as int));
    assert(hex_value(s3) == Some(a * 16 + b / 16));
    assert(hex_value(s) == Some(n as int));
}

} // verus!
