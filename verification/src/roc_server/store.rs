//! The punches that the results server received, in the order of their numbers.
//! This is the table in memory; whoever owns a disk writes it through.

use vstd::prelude::*;
use crate::text;

verus! {

/// A punch as the results software gets it.
#[derive(Debug, Clone, Copy, PartialEq, Eq, Structural)]
pub struct StoredPunch {
    pub id: i64,
    pub card_id: u32,
    pub station: u8,
    pub time_s: u32,
}

/// A punch with where it came from and which competition it belongs to.
#[derive(Debug)]
pub struct Row {
    pub punch: StoredPunch,
    pub source: String,
    pub competition_id: String,
}

/// A row as a value.
pub struct RowView {
    pub punch: StoredPunch,
    pub source: Seq<char>,
    pub competition_id: Seq<char>,
}

impl View for Row {
    type V = RowView;

    open spec fn view(&self) -> RowView {
        RowView {
            punch: self.punch,
            source: self.source@,
            competition_id: self.competition_id@,
        }
    }
}

/// Rows as values.
pub open spec fn views(v: Seq<Row>) -> Seq<RowView> {
    Seq::new(v.len(), |i: int| v[i]@)
}

/// Whether a row is younger than `last_id` and of the competition, where one is
/// named.
pub open spec fn wanted(r: RowView, last_id: i64, competition: Option<Seq<char>>) -> bool {
    r.punch.id > last_id && (competition matches Some(c) ==> r.competition_id == c)
}

/// The punches of the rows that are wanted, in the order of the table.
pub open spec fn newer(rows: Seq<RowView>, last_id: i64, competition: Option<Seq<char>>) -> Seq<
    StoredPunch,
>
    decreases rows.len(),
{
    if rows.len() == 0 {
        Seq::empty()
    } else {
        let front = newer(rows.drop_last(), last_id, competition);
        if wanted(rows.last(), last_id, competition) {
            front.push(rows.last().punch)
        } else {
            front
        }
    }
}

/// A row as a disk may hold it, with numbers of any size.
#[derive(Debug)]
pub struct RawRow {
    pub id: i64,
    pub card_id: i64,
    pub station: i64,
    pub time_s: i64,
    pub source: String,
    pub competition_id: String,
}

/// Whether rows are numbered upwards, all below the next number.
pub open spec fn numbered(raw: Seq<RawRow>, next_id: i64) -> bool {
    &&& forall|i: int, j: int| 0 <= i < j < raw.len() ==> raw[i].id < raw[j].id
    &&& forall|i: int| 0 <= i < raw.len() ==> #[trigger] raw[i].id < next_id
}

/// Whether every number of a row fits its field.
pub open spec fn intact(w: RawRow) -> bool {
    0 <= w.card_id <= u32::MAX && 0 <= w.station <= u8::MAX && 0 <= w.time_s <= u32::MAX
}

/// Whether a row on the disk holds the values of a row of the table.
pub open spec fn holds(w: RawRow, row: RowView) -> bool {
    &&& w.id == row.punch.id
    &&& w.card_id == row.punch.card_id
    &&& w.station == row.punch.station
    &&& w.time_s == row.punch.time_s
    &&& w.source@ == row.source
    &&& w.competition_id@ == row.competition_id
}

/// The rows that are intact.
pub open spec fn restored(raw: Seq<RawRow>) -> Seq<RowView>
    decreases raw.len(),
{
    if raw.len() == 0 {
        Seq::empty()
    } else {
        let front = restored(raw.drop_last());
        let w = raw.last();
        if intact(w) {
            front.push(
                RowView {
                    punch: StoredPunch {
                        id: w.id,
                        card_id: w.card_id as u32,
                        station: w.station as u8,
                        time_s: w.time_s as u32,
                    },
                    source: w.source@,
                    competition_id: w.competition_id@,
                },
            )
        } else {
            front
        }
    }
}

/// The table of punches, oldest first.
#[derive(Debug)]
pub struct Store {
    pub rows: Vec<Row>,
    /// The number of the next row.
    pub next_id: i64,
}

impl Store {
    /// Rows are numbered upwards, and all numbers are below the next one.
    pub open spec fn wf(self) -> bool {
        &&& forall|i: int, j: int|
            0 <= i < j < self.rows@.len() ==> self.rows@[i].punch.id < self.rows@[j].punch.id
        &&& forall|i: int| 0 <= i < self.rows@.len() ==> self.rows@[i].punch.id < self.next_id
    }

    /// The rows as values.
    pub open spec fn table(self) -> Seq<RowView> {
        views(self.rows@)
    }

    /// An empty store.
    pub fn new() -> (r: Store)
        ensures
            r.wf(),
            r.table() == Seq::<RowView>::empty(),
            r.next_id == 1,
    {
        let r = Store { rows: Vec::new(), next_id: 1 };
        assert(r.table() =~= Seq::empty());
        r
    }

    /// The store with the rows of a stored table, oldest first. A row with a
    /// number that does not fit its field is skipped.
    pub fn restore(raw: &Vec<RawRow>, next_id: i64) -> (r: Store)
        requires
            numbered(raw@, next_id),
        ensures
            r.wf(),
            r.next_id == next_id,
            r.table() == restored(raw@),
    {
        let mut rows: Vec<Row> = Vec::new();
        let mut i: usize = 0;
        assert(views(rows@) =~= Seq::empty());
        while i < raw.len()
            invariant
                numbered(raw@, next_id),
                i <= raw@.len(),
                views(rows@) == restored(raw@.take(i as int)),
                forall|j: int, k: int|
                    0 <= j < k < rows@.len() ==> rows@[j].punch.id < rows@[k].punch.id,
                i < raw@.len() ==> forall|j: int|
                    0 <= j < rows@.len() ==> #[trigger] rows@[j].punch.id < raw@[i as int].id,
                forall|j: int| 0 <= j < rows@.len() ==> #[trigger] rows@[j].punch.id < next_id,
            decreases raw@.len() - i,
        {
            let ghost more = raw@.take(i + 1);
            let ghost before = rows@;
            assert(more.drop_last() =~= raw@.take(i as int));
            let w = &raw[i];
            if w.card_id >= 0 && w.card_id <= u32::MAX as i64 && w.station >= 0 && w.station
                <= u8::MAX as i64 && w.time_s >= 0 && w.time_s <= u32::MAX as i64 {
                let punch = StoredPunch {
                    id: w.id,
                    card_id: w.card_id as u32,
                    station: w.station as u8,
                    time_s: w.time_s as u32,
                };
                rows.push(
                    Row {
                        punch,
                        source: w.source.clone(),
                        competition_id: w.competition_id.clone(),
                    },
                );
                assert(views(rows@) =~= views(before).push(rows@[rows@.len() - 1]@));
            }
            i += 1;
        }
        assert(raw@.take(raw@.len() as int) =~= raw@);
        Store { rows, next_id }
    }

    /// Records one punch, and gives its number; `None` where numbers have run
    /// out.
    pub fn record(
        &mut self,
        card_id: u32,
        station: u8,
        time_s: u32,
        source: &str,
        competition_id: &str,
    ) -> (r: Option<i64>)
        requires
            old(self).wf(),
        ensures
            final(self).wf(),
            r is None <==> old(self).next_id == i64::MAX,
            r is None ==> *final(self) == *old(self),
            r matches Some(id) ==> {
                &&& id == old(self).next_id
                &&& final(self).next_id == id + 1
                &&& final(self).table() == old(self).table().push(
                    (RowView {
                        punch: StoredPunch { id, card_id, station, time_s },
                        source: source@,
                        competition_id: competition_id@,
                    }),
                )
            },
    {
        if self.next_id == i64::MAX {
            return None;
        }
        let id: i64 = self.next_id;
        self.next_id = id + 1;
        let punch = StoredPunch { id, card_id, station, time_s };
        self.rows.push(
            Row { punch, source: source.to_owned(), competition_id: competition_id.to_owned() },
        );
        assert(self.table() =~= old(self).table().push(
            RowView { punch, source: source@, competition_id: competition_id@ },
        ));
        Some(id)
    }

    /// The punches of a competition with numbers above `last_id`, oldest first.
    pub fn since(&self, last_id: i64, competition_id: &str) -> (r: Vec<StoredPunch>)
        ensures
            r@ == newer(self.table(), last_id, Some(competition_id@)),
    {
        let c: Option<&str> = Some(competition_id);
        self.select(last_id, c)
    }

    /// The punches with numbers above `last_id`, oldest first, of one
    /// competition or of all.
    pub fn select(&self, last_id: i64, competition: Option<&str>) -> (r: Vec<StoredPunch>)
        ensures
            r@ == newer(
                self.table(),
                last_id,
                match competition {
                    Some(c) => Some(c@),
                    None => None,
                },
            ),
    {
        let ghost want: Option<Seq<char>> = match competition {
            Some(c) => Some(c@),
            None => None,
        };
        let mut out: Vec<StoredPunch> = Vec::new();
        let mut i: usize = 0;
        assert(out@ =~= Seq::empty());
        while i < self.rows.len()
            invariant
                want == (match competition {
                    Some(c) => Some(c@),
                    None => None,
                }),
                i <= self.rows@.len(),
                out@ == newer(self.table().take(i as int), last_id, want),
            decreases self.rows@.len() - i,
        {
            let ghost more = self.table().take(i + 1);
            assert(more.drop_last() =~= self.table().take(i as int));
            assert(more.last() == self.rows@[i as int]@);
            let row = &self.rows[i];
            let fits: bool = match competition {
                Some(c) => {
                    let name = text::chars(row.competition_id.as_str());
                    text::same(name.as_slice(), c)
                },
                None => true,
            };
            if row.punch.id > last_id && fits {
                out.push(row.punch);
            }
            i += 1;
        }
        assert(self.table().take(self.rows@.len() as int) =~= self.table());
        out
    }
}

/// Whether rows are numbered upwards.
pub open spec fn ascending(rows: Seq<RowView>) -> bool {
    forall|i: int, j: int| 0 <= i < j < rows.len() ==> rows[i].punch.id < rows[j].punch.id
}

/// What is given out is wanted, in order, and nothing wanted is left out.
pub proof fn law_newer(rows: Seq<RowView>, last_id: i64, competition: Option<Seq<char>>)
    requires
        ascending(rows),
    ensures
        forall|k: int|
            0 <= k < newer(rows, last_id, competition).len() ==> exists|i: int|
                0 <= i < rows.len() && wanted(#[trigger] rows[i], last_id, competition)
                    && rows[i].punch == #[trigger] newer(rows, last_id, competition)[k],
        forall|i: int|
            0 <= i < rows.len() && wanted(#[trigger] rows[i], last_id, competition) ==> newer(
                rows,
                last_id,
                competition,
            ).contains(rows[i].punch),
        forall|j: int, k: int|
            0 <= j < k < newer(rows, last_id, competition).len() ==> newer(
                rows,
                last_id,
                competition,
            )[j].id < newer(rows, last_id, competition)[k].id,
    decreases rows.len(),
{
    if rows.len() > 0 {
        let front = rows.drop_last();
        law_newer(front, last_id, competition);
        let f = newer(front, last_id, competition);
        let n = newer(rows, last_id, competition);
        assert forall|k: int| 0 <= k < n.len() implies exists|i: int|
            0 <= i < rows.len() && wanted(#[trigger] rows[i], last_id, competition)
                && rows[i].punch == #[trigger] n[k] by {
            if k < f.len() {
                assert(n[k] == f[k]);
                let i = choose|i: int|
                    0 <= i < front.len() && wanted(#[trigger] front[i], last_id, competition)
                        && front[i].punch == f[k];
                assert(rows[i] == front[i]);
            } else {
                assert(wanted(rows[rows.len() - 1], last_id, competition));
            }
        }
        assert forall|i: int|
            0 <= i < rows.len() && wanted(
                #[trigger] rows[i],
                last_id,
                competition,
            ) implies n.contains(rows[i].punch) by {
            if i < front.len() {
                assert(rows[i] == front[i]);
                assert(f.contains(front[i].punch));
                let k = choose|k: int| 0 <= k < f.len() && f[k] == front[i].punch;
                assert(n[k] == f[k]);
            } else {
                assert(n[n.len() - 1] == rows[i].punch);
            }
        }
        assert forall|j: int, k: int| 0 <= j < k < n.len() implies n[j].id < n[k].id by {
            if k < f.len() {
                assert(n[j] == f[j] && n[k] == f[k]);
            } else {
                assert(n[j] == f[j]);
                let i = choose|i: int|
                    0 <= i < front.len() && wanted(#[trigger] front[i], last_id, competition)
                        && front[i].punch == f[j];
                assert(rows[i] == front[i]);
                assert(rows[i].punch.id < rows[rows.len() - 1].punch.id);
            }
        }
    }
}

/// A client that polls with the number of the last punch that it got is given
/// every further punch of its competition, and none a second time.
pub proof fn law_polling_gives_each_punch_once(
    rows: Seq<RowView>,
    more: Seq<RowView>,
    last_id: i64,
    competition: Option<Seq<char>>,
)
    requires
        ascending(rows + more),
        newer(rows, last_id, competition).len() > 0,
    ensures
        newer(rows + more, last_id, competition) == newer(rows, last_id, competition) + newer(
            rows + more,
            newer(rows, last_id, competition).last().id,
            competition,
        ),
    decreases more.len(),
{
    let f = newer(rows, last_id, competition);
    let cursor = f.last().id;
    let all = rows + more;
    assert(ascending(rows)) by {
        assert forall|i: int, j: int| 0 <= i < j < rows.len() implies rows[i].punch.id
            < rows[j].punch.id by {
            assert(all[i] == rows[i] && all[j] == rows[j]);
        }
    }
    law_newer(rows, last_id, competition);
    assert(f[f.len() - 1] == f.last());
    let c = choose|i: int|
        0 <= i < rows.len() && wanted(#[trigger] rows[i], last_id, competition) && rows[i].punch
            == f[f.len() - 1];
    if more.len() == 0 {
        assert(all =~= rows);
        lemma_nothing_above(rows, last_id, cursor, competition);
    } else {
        let front = more.drop_last();
        assert((rows + more).drop_last() =~= rows + front);
        assert(ascending(rows + front)) by {
            assert forall|i: int, j: int| 0 <= i < j < (rows + front).len() implies (rows
                + front)[i].punch.id < (rows + front)[j].punch.id by {
                assert(all[i] == (rows + front)[i] && all[j] == (rows + front)[j]);
            }
        }
        law_polling_gives_each_punch_once(rows, front, last_id, competition);
        assert(all[c].punch.id < all[all.len() - 1].punch.id);
        assert(newer(all, last_id, competition) =~= f + newer(all, cursor, competition));
    }
}

/// Above the youngest punch that was given there is none that is wanted.
proof fn lemma_nothing_above(
    rows: Seq<RowView>,
    last_id: i64,
    cursor: i64,
    competition: Option<Seq<char>>,
)
    requires
        ascending(rows),
        newer(rows, last_id, competition).len() > 0,
        cursor == newer(rows, last_id, competition).last().id,
        cursor > last_id,
    ensures
        newer(rows, cursor, competition) == Seq::<StoredPunch>::empty(),
{
    law_newer(rows, last_id, competition);
    law_newer(rows, cursor, competition);
    let f = newer(rows, last_id, competition);
    let g = newer(rows, cursor, competition);
    if g.len() > 0 {
        let i = choose|i: int|
            0 <= i < rows.len() && wanted(#[trigger] rows[i], cursor, competition) && rows[i].punch
                == g[0];
        assert(g[0] == g[0]);
        assert(wanted(rows[i], last_id, competition));
        assert(f.contains(rows[i].punch));
        let k = choose|k: int| 0 <= k < f.len() && f[k] == rows[i].punch;
        if k < f.len() - 1 {
            assert(f[k].id < f[f.len() - 1].id);
        }
    }
    assert(g =~= Seq::empty());
}

/// A table that was written to the disk is restored as it was: nothing is lost
/// or skipped over a restart.
pub proof fn law_table_survives_a_restart(raw: Seq<RawRow>, rows: Seq<RowView>)
    requires
        raw.len() == rows.len(),
        forall|i: int| 0 <= i < rows.len() ==> holds(#[trigger] raw[i], rows[i]),
    ensures
        restored(raw) == rows,
    decreases raw.len(),
{
    if raw.len() > 0 {
        let n = raw.len() - 1;
        assert forall|i: int| 0 <= i < n implies holds(
            #[trigger] raw.drop_last()[i],
            rows.drop_last()[i],
        ) by {
            assert(holds(raw[i], rows[i]));
        }
        law_table_survives_a_restart(raw.drop_last(), rows.drop_last());
        assert(holds(raw[n], rows[n]));
        assert(restored(raw) =~= rows.drop_last().push(rows.last()));
        assert(rows.drop_last().push(rows.last()) =~= rows);
    } else {
        assert(rows =~= Seq::empty());
    }
}

/// A poll gives a punch exactly where it is younger than the last one that the
/// client got, and of the competition, where one is asked for.
pub proof fn law_poll_is_exact(
    rows: Seq<RowView>,
    last_id: i64,
    competition: Option<Seq<char>>,
    i: int,
)
    requires
        ascending(rows),
        0 <= i < rows.len(),
    ensures
        newer(rows, last_id, competition).contains(rows[i].punch) <==> rows[i].punch.id > last_id
            && (competition is None || competition == Some(rows[i].competition_id)),
{
    law_newer(rows, last_id, competition);
    let n = newer(rows, last_id, competition);
    if n.contains(rows[i].punch) {
        let k = choose|k: int| 0 <= k < n.len() && n[k] == rows[i].punch;
        let j = choose|j: int|
            0 <= j < rows.len() && wanted(#[trigger] rows[j], last_id, competition)
                && rows[j].punch == n[k];
        if i < j {
            assert(rows[i].punch.id < rows[j].punch.id);
        }
        if j < i {
            assert(rows[j].punch.id < rows[i].punch.id);
        }
    }
    if rows[i].punch.id > last_id && (competition is None || competition == Some(
        rows[i].competition_id,
    )) {
        assert(wanted(rows[i], last_id, competition));
    }
}

} // verus!
