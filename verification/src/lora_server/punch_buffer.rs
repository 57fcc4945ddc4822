//! The buffer of punches: every punch, local or remote, is recorded before
//! anything else happens to it, and leaves only when it was delivered or given
//! up. This is the table in memory; whoever owns a disk writes it through.

use vstd::prelude::*;
use crate::text;

verus! {

/// A punch in the buffer.
#[derive(Debug)]
pub struct BufferedPunch {
    pub id: i64,
    pub card_id: u32,
    pub station: u8,
    pub time_s: u32,
    /// `local` for the own reader, `test` for a made-up punch, else the address
    /// of the node that it came from.
    pub source: String,
}

/// A punch as a value.
pub struct BufferedView {
    pub id: i64,
    pub card_id: u32,
    pub station: u8,
    pub time_s: u32,
    pub source: Seq<char>,
}

impl View for BufferedPunch {
    type V = BufferedView;

    open spec fn view(&self) -> BufferedView {
        BufferedView {
            id: self.id,
            card_id: self.card_id,
            station: self.station,
            time_s: self.time_s,
            source: self.source@,
        }
    }
}

/// Whether a source is this node itself.
pub open spec fn own(source: Seq<char>) -> bool {
    source == "local"@ || source == "test"@
}

/// Whether a source is this node itself.
fn names_own(source: &str) -> (r: bool)
    ensures
        r == own(source@),
{
    let name = text::chars(source);
    text::same(name.as_slice(), "local") || text::same(name.as_slice(), "test")
}

/// A list of punches as values.
pub open spec fn views(v: Seq<BufferedPunch>) -> Seq<BufferedView> {
    Seq::new(v.len(), |i: int| v[i]@)
}

/// A row of the table, as a disk may hold it: with numbers of any size, and
/// perhaps something else where a number belongs.
#[derive(Debug)]
pub struct Row {
    pub id: i64,
    pub card_id: Option<i64>,
    pub station: Option<i64>,
    pub time_s: Option<i64>,
    pub source: String,
    /// Whether the punch was delivered.
    pub sent: bool,
}

/// A row as a value.
pub struct RowView {
    pub id: i64,
    pub card_id: Option<i64>,
    pub station: Option<i64>,
    pub time_s: Option<i64>,
    pub source: Seq<char>,
    pub sent: bool,
}

impl View for Row {
    type V = RowView;

    open spec fn view(&self) -> RowView {
        RowView {
            id: self.id,
            card_id: self.card_id,
            station: self.station,
            time_s: self.time_s,
            source: self.source@,
            sent: self.sent,
        }
    }
}

/// Whether there is a number between 0 and `max`.
pub open spec fn fits(n: Option<i64>, max: int) -> bool {
    n matches Some(v) && 0 <= v <= max
}

/// Whether every number of a row is there and fits its field.
pub open spec fn intact(r: RowView) -> bool {
    fits(r.card_id, u32::MAX as int) && fits(r.station, u8::MAX as int) && fits(
        r.time_s,
        u32::MAX as int,
    )
}

/// The punch in an intact row.
pub open spec fn punch_of(r: RowView) -> BufferedView {
    BufferedView {
        id: r.id,
        card_id: r.card_id->0 as u32,
        station: r.station->0 as u8,
        time_s: r.time_s->0 as u32,
        source: r.source,
    }
}

/// The row of a punch that is still to be delivered.
pub open spec fn row_of(p: BufferedView) -> RowView {
    RowView {
        id: p.id,
        card_id: Some(p.card_id as i64),
        station: Some(p.station as i64),
        time_s: Some(p.time_s as i64),
        source: p.source,
        sent: false,
    }
}

/// Whether a row may be given up: unsent, and this node's own. Its numbers do
/// not matter.
pub open spec fn clearable(r: RowView) -> bool {
    !r.sent && own(r.source)
}

impl Row {
    /// The punch of the row; `None` for a row that is not intact.
    pub fn punch(&self) -> (r: Option<BufferedPunch>)
        ensures
            r is Some <==> intact(self@),
            r matches Some(p) ==> p@ == punch_of(self@),
    {
        match (self.card_id, self.station, self.time_s) {
            (Some(c), Some(s), Some(t)) => {
                if c < 0 || c > u32::MAX as i64 || s < 0 || s > u8::MAX as i64 || t < 0 || t
                    > u32::MAX as i64 {
                    return None;
                }
                Some(
                    BufferedPunch {
                        id: self.id,
                        card_id: c as u32,
                        station: s as u8,
                        time_s: t as u32,
                        source: self.source.clone(),
                    },
                )
            },
            _ => None,
        }
    }

    /// Whether the row may be given up.
    pub fn is_clearable(&self) -> (r: bool)
        ensures
            r == clearable(self@),
    {
        !self.sent && names_own(self.source.as_str())
    }

    /// The same row, delivered or not.
    fn marked(&self, sent: bool) -> (r: Row)
        ensures
            r@ == (RowView { sent, ..self@ }),
    {
        Row {
            id: self.id,
            card_id: self.card_id,
            station: self.station,
            time_s: self.time_s,
            source: self.source.clone(),
            sent,
        }
    }
}

/// The rows of the table as values.
pub open spec fn row_views(v: Seq<Row>) -> Seq<RowView> {
    Seq::new(v.len(), |i: int| v[i]@)
}

/// The punches that are still to be delivered, in the order of the table. A row
/// that is not intact is skipped.
pub open spec fn pending(rows: Seq<RowView>) -> Seq<BufferedView>
    decreases rows.len(),
{
    if rows.len() == 0 {
        Seq::empty()
    } else {
        let front = pending(rows.drop_last());
        if rows.last().sent || !intact(rows.last()) {
            front
        } else {
            front.push(punch_of(rows.last()))
        }
    }
}

/// The punches among `rows` that are still to be sent by this node itself.
pub open spec fn pending_local(rows: Seq<RowView>) -> Seq<BufferedView>
    decreases rows.len(),
{
    if rows.len() == 0 {
        Seq::empty()
    } else {
        let front = pending_local(rows.drop_last());
        if !clearable(rows.last()) || !intact(rows.last()) {
            front
        } else {
            front.push(punch_of(rows.last()))
        }
    }
}

/// The table without the rows that `gone` names.
pub open spec fn without(rows: Seq<RowView>, gone: spec_fn(RowView) -> bool) -> Seq<RowView>
    decreases rows.len(),
{
    if rows.len() == 0 {
        Seq::empty()
    } else {
        let front = without(rows.drop_last(), gone);
        if gone(rows.last()) {
            front
        } else {
            front.push(rows.last())
        }
    }
}

/// The table with the row `id` delivered.
pub open spec fn delivered(rows: Seq<RowView>, id: i64) -> Seq<RowView> {
    Seq::new(
        rows.len(),
        |i: int|
            if rows[i].id == id {
                RowView { sent: true, ..rows[i] }
            } else {
                rows[i]
            },
    )
}

/// Whether rows are numbered upwards, all below the next number.
pub open spec fn numbered(rows: Seq<Row>, next_id: i64) -> bool {
    &&& forall|i: int, j: int| 0 <= i < j < rows.len() ==> rows[i].id < rows[j].id
    &&& forall|i: int| 0 <= i < rows.len() ==> #[trigger] rows[i].id < next_id
}

/// The table of punches, oldest first.
#[derive(Debug)]
pub struct PunchBuffer {
    pub rows: Vec<Row>,
    /// The number of the next row; numbers are never used again.
    pub next_id: i64,
}

impl PunchBuffer {
    /// Rows are numbered upwards, and all numbers are below the next one.
    pub open spec fn wf(self) -> bool {
        numbered(self.rows@, self.next_id)
    }

    /// The rows as values.
    pub open spec fn table(self) -> Seq<RowView> {
        row_views(self.rows@)
    }

    /// An empty buffer.
    pub fn new() -> (r: PunchBuffer)
        ensures
            r.wf(),
            r.table() == Seq::<RowView>::empty(),
            r.next_id == 1,
    {
        let r = PunchBuffer { rows: Vec::new(), next_id: 1 };
        assert(r.table() =~= Seq::empty());
        r
    }

    /// The buffer with the rows of a stored table, oldest first: nothing is lost
    /// over a restart.
    pub fn restore(rows: Vec<Row>, next_id: i64) -> (r: PunchBuffer)
        requires
            numbered(rows@, next_id),
        ensures
            r.wf(),
            r.next_id == next_id,
            r.rows == rows,
    {
        PunchBuffer { rows, next_id }
    }

    /// Records one punch, and gives its number; `None` where numbers have run
    /// out.
    pub fn record(&mut self, card_id: u32, station: u8, time_s: u32, source: &str) -> (r: Option<
        i64,
    >)
        requires
            old(self).wf(),
        ensures
            final(self).wf(),
            r is None <==> old(self).next_id == i64::MAX,
            r is None ==> *final(self) == *old(self),
            r matches Some(id) ==> {
                &&& id == old(self).next_id
                &&& final(self).next_id == id + 1
                &&& final(self).table() == old(self).table().push(
                    row_of(BufferedView { id, card_id, station, time_s, source: source@ }),
                )
            },
    {
        if self.next_id == i64::MAX {
            return None;
        }
        let id: i64 = self.next_id;
        self.next_id = id + 1;
        self.rows.push(
            Row {
                id,
                card_id: Some(card_id as i64),
                station: Some(station as i64),
                time_s: Some(time_s as i64),
                source: source.to_owned(),
                sent: false,
            },
        );
        assert(self.table() =~= old(self).table().push(
            row_of(BufferedView { id, card_id, station, time_s, source: source@ }),
        ));
        Some(id)
    }

    /// All punches that are still to be delivered, oldest first.
    pub fn unsent(&self) -> (r: Vec<BufferedPunch>)
        ensures
            views(r@) == pending(self.table()),
    {
        let mut out: Vec<BufferedPunch> = Vec::new();
        let mut i: usize = 0;
        assert(views(out@) =~= Seq::empty());
        while i < self.rows.len()
            invariant
                i <= self.rows@.len(),
                views(out@) == pending(self.table().take(i as int)),
            decreases self.rows@.len() - i,
        {
            let ghost front = self.table().take(i as int);
            let ghost more = self.table().take(i + 1);
            let ghost before = out@;
            assert(more.drop_last() =~= front);
            assert(more.last() == self.rows@[i as int]@);
            if !self.rows[i].sent {
                if let Some(p) = self.rows[i].punch() {
                    out.push(p);
                    assert(views(out@) =~= views(before).push(punch_of(self.rows@[i as int]@)));
                }
            }
            i += 1;
        }
        assert(self.table().take(self.rows@.len() as int) =~= self.table());
        out
    }

    /// The punches that this node itself is still to send, oldest first: its own
    /// and the made-up ones.
    pub fn unsent_local(&self) -> (r: Vec<BufferedPunch>)
        ensures
            views(r@) == pending_local(self.table()),
    {
        let mut out: Vec<BufferedPunch> = Vec::new();
        let mut i: usize = 0;
        assert(views(out@) =~= Seq::empty());
        while i < self.rows.len()
            invariant
                i <= self.rows@.len(),
                views(out@) == pending_local(self.table().take(i as int)),
            decreases self.rows@.len() - i,
        {
            let ghost front = self.table().take(i as int);
            let ghost more = self.table().take(i + 1);
            let ghost before = out@;
            assert(more.drop_last() =~= front);
            assert(more.last() == self.rows@[i as int]@);
            if self.rows[i].is_clearable() {
                if let Some(p) = self.rows[i].punch() {
                    out.push(p);
                    assert(views(out@) =~= views(before).push(punch_of(self.rows@[i as int]@)));
                }
            }
            i += 1;
        }
        assert(self.table().take(self.rows@.len() as int) =~= self.table());
        out
    }

    /// Notes that the punch `id` was delivered.
    pub fn mark_sent(&mut self, id: i64)
        requires
            old(self).wf(),
        ensures
            final(self).wf(),
            final(self).next_id == old(self).next_id,
            final(self).table() == delivered(old(self).table(), id),
    {
        let mut out: Vec<Row> = Vec::new();
        let mut i: usize = 0;
        while i < self.rows.len()
            invariant
                *self == *old(self),
                i <= self.rows@.len(),
                out@.len() == i,
                forall|j: int|
                    0 <= j < i ==> #[trigger] out@[j]@ == delivered(self.table(), id)[j],
            decreases self.rows@.len() - i,
        {
            let sent: bool = self.rows[i].sent || self.rows[i].id == id;
            out.push(self.rows[i].marked(sent));
            i += 1;
        }
        self.rows = out;
        assert forall|j: int| 0 <= j < self.rows@.len() implies #[trigger] self.rows@[j].id
            == old(self).rows@[j].id by {
            assert(self.rows@[j]@ == delivered(old(self).table(), id)[j]);
        }
        assert(self.table() =~= delivered(old(self).table(), id));
    }

    /// Gives up the unsent local punch `id`, and says whether there was one.
    pub fn clear_local_unsent(&mut self, id: i64) -> (r: bool)
        requires
            old(self).wf(),
        ensures
            final(self).wf(),
            final(self).next_id == old(self).next_id,
            r == exists|i: int|
                0 <= i < old(self).rows@.len() && clearable(#[trigger] old(self).table()[i]) && old(
                    self,
                ).table()[i].id == id,
            final(self).table() == without(
                old(self).table(),
                |w: RowView| clearable(w) && w.id == id,
            ),
    {
        assert((|w: RowView| clearable(w) && (Some(id) is None || w.id == Some(id)->0)) =~= (
        |w: RowView| clearable(w) && w.id == id));
        self.remove(Some(id)) > 0
    }

    /// Gives up all unsent local punches, and says how many there were. Rows that
    /// are not intact go and count too.
    pub fn clear_all_local_unsent(&mut self) -> (r: usize)
        requires
            old(self).wf(),
        ensures
            final(self).wf(),
            final(self).next_id == old(self).next_id,
            final(self).table() == without(old(self).table(), |w: RowView| clearable(w)),
            r == old(self).table().len() - final(self).table().len(),
    {
        assert((|w: RowView| clearable(w) && (None::<i64> is None || w.id == None::<i64>->0))
            =~= (|w: RowView| clearable(w)));
        self.remove(None)
    }

    /// Removes the clearable rows, all or the one with a number.
    fn remove(&mut self, id: Option<i64>) -> (r: usize)
        requires
            old(self).wf(),
        ensures
            final(self).wf(),
            final(self).next_id == old(self).next_id,
            r == old(self).table().len() - final(self).table().len(),
            r > 0 <==> exists|i: int|
                0 <= i < old(self).rows@.len() && clearable(#[trigger] old(self).table()[i]) && (
                id is None || old(self).table()[i].id == id->0),
            final(self).table() == without(
                old(self).table(),
                |w: RowView| clearable(w) && (id is None || w.id == id->0),
            ),
    {
        let ghost gone = |w: RowView| clearable(w) && (id is None || w.id == id->0);
        let mut out: Vec<Row> = Vec::new();
        let mut n: usize = 0;
        let mut i: usize = 0;
        let ghost whole = self.table();
        assert(row_views(out@) =~= Seq::empty());
        while i < self.rows.len()
            invariant
                self.wf(),
                *self == *old(self),
                whole == self.table(),
                gone == (|w: RowView| clearable(w) && (id is None || w.id == id->0)),
                i <= self.rows@.len(),
                n <= i,
                n == i - out@.len(),
                row_views(out@) == without(whole.take(i as int), gone),
                n > 0 <==> exists|j: int|
                    0 <= j < i && clearable(#[trigger] whole[j]) && (id is None
                        || whole[j].id == id->0),
                forall|j: int, k: int|
                    0 <= j < k < out@.len() ==> out@[j].id < out@[k].id,
                i < self.rows@.len() ==> forall|j: int|
                    0 <= j < out@.len() ==> #[trigger] out@[j].id < self.rows@[i as int].id,
                forall|j: int| 0 <= j < out@.len() ==> #[trigger] out@[j].id < self.next_id,
            decreases self.rows@.len() - i,
        {
            let ghost more = whole.take(i + 1);
            let ghost before = out@;
            assert(more.drop_last() =~= whole.take(i as int));
            assert(more.last() == self.rows@[i as int]@);
            let row = &self.rows[i];
            let hit: bool = match id {
                Some(v) => row.id == v,
                None => true,
            };
            if row.is_clearable() && hit {
                n += 1;
                assert(clearable(whole[i as int]));
            } else {
                out.push(row.marked(row.sent));
                assert(row_views(out@) =~= row_views(before).push(self.rows@[i as int]@));
                assert(out@[out@.len() - 1].id == self.rows@[i as int].id);
            }
            i += 1;
        }
        assert(whole.take(self.rows@.len() as int) =~= whole);
        self.rows = out;
        n
    }
}

/// A recorded punch is to be delivered, after all that came before it.
pub proof fn law_recorded_punch_is_pending(rows: Seq<RowView>, p: BufferedView)
    ensures
        pending(rows.push(row_of(p))) == pending(rows).push(p),
        own(p.source) ==> pending_local(rows.push(row_of(p))) == pending_local(rows).push(p),
        !own(p.source) ==> pending_local(rows.push(row_of(p))) == pending_local(rows),
{
    assert(rows.push(row_of(p)).drop_last() =~= rows);
    assert(punch_of(row_of(p)) == p);
}

/// Where all rows are intact, as many are given up as this node itself has still
/// to send.
pub proof fn law_pending_punches_are_given_up(rows: Seq<RowView>)
    requires
        forall|i: int| 0 <= i < rows.len() ==> intact(#[trigger] rows[i]),
    ensures
        without(rows, |w: RowView| clearable(w)).len() + pending_local(rows).len() == rows.len(),
    decreases rows.len(),
{
    if rows.len() > 0 {
        assert forall|i: int| 0 <= i < rows.drop_last().len() implies intact(
            #[trigger] rows.drop_last()[i],
        ) by {
            assert(intact(rows[i]));
        }
        assert(intact(rows[rows.len() - 1]));
        law_pending_punches_are_given_up(rows.drop_last());
    }
}

/// Giving up what this node itself is still to send leaves none of it, and all
/// that is to be delivered for others.
pub proof fn law_clearing_spares_remote_punches(rows: Seq<RowView>)
    ensures
        pending_local(without(rows, |w: RowView| clearable(w))).len() == 0,
        forall|i: int|
            0 <= i < rows.len() && intact(#[trigger] rows[i]) && !rows[i].sent && !own(
                rows[i].source,
            ) ==> pending(without(rows, |w: RowView| clearable(w))).contains(punch_of(rows[i])),
    decreases rows.len(),
{
    let gone = |w: RowView| clearable(w);
    if rows.len() > 0 {
        law_clearing_spares_remote_punches(rows.drop_last());
        let front = without(rows.drop_last(), gone);
        let all = without(rows, gone);
        if !gone(rows.last()) {
            assert(all.drop_last() =~= front);
        }
        assert forall|i: int|
            0 <= i < rows.len() && intact(#[trigger] rows[i]) && !rows[i].sent && !own(
                rows[i].source,
            ) implies pending(all).contains(punch_of(rows[i])) by {
            if i < rows.len() - 1 {
                assert(rows.drop_last()[i] == rows[i]);
                assert(pending(front).contains(punch_of(rows.drop_last()[i])));
                let k = choose|k: int| 0 <= k < pending(front).len() && pending(front)[k]
                    == punch_of(rows[i]);
                assert(pending(all)[k] == punch_of(rows[i]));
            } else {
                assert(pending(all).last() == punch_of(rows[i]));
            }
        }
    }
}

/// A delivered punch is not delivered again.
pub proof fn law_sent_punch_is_not_pending(rows: Seq<RowView>, id: i64)
    ensures
        forall|i: int|
            0 <= i < pending(delivered(rows, id)).len() ==> #[trigger] pending(
                delivered(rows, id),
            )[i].id != id,
    decreases rows.len(),
{
    if rows.len() > 0 {
        law_sent_punch_is_not_pending(rows.drop_last(), id);
        let all = delivered(rows, id);
        let front = delivered(rows.drop_last(), id);
        assert(all.drop_last() =~= front);
        assert forall|i: int| 0 <= i < pending(all).len() implies #[trigger] pending(all)[i].id
            != id by {
            if i < pending(front).len() {
                assert(pending(all)[i] == pending(front)[i]);
            }
        }
    }
}

/// What is left of rows is what is not named.
proof fn lemma_without(rows: Seq<RowView>, gone: spec_fn(RowView) -> bool, r: RowView)
    ensures
        without(rows, gone).contains(r) <==> rows.contains(r) && !gone(r),
    decreases rows.len(),
{
    if rows.len() > 0 {
        let front = rows.drop_last();
        let kept = without(front, gone);
        let all = without(rows, gone);
        lemma_without(front, gone, r);
        assert(rows[rows.len() - 1] == rows.last());
        if rows.contains(r) {
            let i = choose|i: int| 0 <= i < rows.len() && rows[i] == r;
            if i < front.len() {
                assert(front[i] == r);
            }
        }
        if front.contains(r) {
            let i = choose|i: int| 0 <= i < front.len() && front[i] == r;
            assert(rows[i] == r);
        }
        if !gone(rows.last()) {
            assert(all[all.len() - 1] == rows.last());
            if kept.contains(r) {
                let i = choose|i: int| 0 <= i < kept.len() && kept[i] == r;
                assert(all[i] == r);
            }
            if all.contains(r) {
                let i = choose|i: int| 0 <= i < all.len() && all[i] == r;
                if i < kept.len() {
                    assert(kept[i] == r);
                }
            }
        }
    }
}

/// Giving up all unsent punches of this node takes out exactly the rows that were
/// not delivered and are marked `local` or `test`: what was delivered and what
/// came from other nodes stays.
pub proof fn law_clearing_takes_unsent_own_rows(rows: Seq<RowView>, r: RowView)
    requires
        rows.contains(r),
    ensures
        without(rows, |w: RowView| clearable(w)).contains(r) <==> r.sent || (r.source != "local"@
            && r.source != "test"@),
{
    lemma_without(rows, |w: RowView| clearable(w), r);
}

/// Giving up one punch takes out no row but the one of its number, and that only
/// where it was not delivered and is marked `local` or `test`.
pub proof fn law_clearing_one_takes_no_other(rows: Seq<RowView>, id: i64, r: RowView)
    requires
        rows.contains(r),
    ensures
        without(rows, |w: RowView| clearable(w) && w.id == id).contains(r) <==> r.id != id || r.sent
            || (r.source != "local"@ && r.source != "test"@),
{
    lemma_without(rows, |w: RowView| clearable(w) && w.id == id, r);
}

/// The punches to deliver are those of the rows that are not delivered and whose
/// numbers fit their fields; this node itself sends those of them that are marked
/// `local` or `test`.
pub proof fn law_pending_punches_are_the_unsent(rows: Seq<RowView>, i: int)
    requires
        0 <= i < rows.len(),
    ensures
        ({
            let r = rows[i];
            let fits = r.card_id matches Some(c) && r.station matches Some(s) && r.time_s matches Some(
                t,
            ) && 0 <= c <= 0xFFFF_FFFF && 0 <= s <= 0xFF && 0 <= t <= 0xFFFF_FFFF;
            let p = punch_of(r);
            &&& !r.sent && fits ==> pending(rows).contains(p)
            &&& !r.sent && fits && (r.source == "local"@ || r.source == "test"@) ==> pending_local(
                rows,
            ).contains(p)
            &&& fits ==> p.id == r.id && p.card_id == r.card_id->0 && p.station == r.station->0
                && p.time_s == r.time_s->0 && p.source == r.source
        }),
        forall|k: int|
            0 <= k < pending_local(rows).len() ==> (#[trigger] pending_local(rows)[k]).source
                == "local"@ || pending_local(rows)[k].source == "test"@,
    decreases rows.len(),
{
    let front = rows.drop_last();
    let a = pending(front);
    let b = pending_local(front);
    let r = rows[i];
    if i < front.len() {
        law_pending_punches_are_the_unsent(front, i);
        assert(front[i] == r);
        if a.contains(punch_of(r)) {
            let k = choose|k: int| 0 <= k < a.len() && a[k] == punch_of(r);
            assert(pending(rows)[k] == punch_of(r));
        }
        if b.contains(punch_of(r)) {
            let k = choose|k: int| 0 <= k < b.len() && b[k] == punch_of(r);
            assert(pending_local(rows)[k] == punch_of(r));
        }
    } else {
        if front.len() > 0 {
            law_pending_punches_are_the_unsent(front, 0);
        }
        if !r.sent && intact(r) {
            assert(pending(rows)[a.len() as int] == punch_of(r));
            if clearable(r) {
                assert(pending_local(rows)[b.len() as int] == punch_of(r));
            }
        }
    }
    assert forall|k: int| 0 <= k < pending_local(rows).len() implies (#[trigger] pending_local(
        rows,
    )[k]).source == "local"@ || pending_local(rows)[k].source == "test"@ by {
        if k < b.len() {
            assert(pending_local(rows)[k] == b[k]);
        }
    }
}

} // verus!
