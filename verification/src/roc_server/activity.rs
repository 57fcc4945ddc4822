//! What the results server remembers for its dashboard: a bounded log and when
//! each source was last heard of.

use std::collections::VecDeque;
use vstd::prelude::*;
use crate::clock::wall_now;
use crate::text;

verus! {

/// Most entries of the log.
pub const LOG_CAPACITY: usize = 200;

/// A line of the log.
#[derive(Debug)]
pub struct LogEntry {
    /// When it was written, in nanoseconds of the wall clock.
    pub at: u64,
    pub line: String,
}

/// What is known of a source.
#[derive(Debug)]
pub struct SourceStatus {
    /// In nanoseconds of the wall clock.
    pub last_seen: Option<u64>,
    pub punch_count: u64,
}

impl Default for SourceStatus {
    fn default() -> (r: SourceStatus)
        ensures
            r.last_seen is None,
            r.punch_count == 0,
    {
        SourceStatus { last_seen: None, punch_count: 0 }
    }
}

/// A source and what is known of it.
#[derive(Debug)]
pub struct Source {
    pub name: String,
    pub status: SourceStatus,
}

/// The names of sources.
pub open spec fn names(v: Seq<Source>) -> Seq<Seq<char>> {
    Seq::new(v.len(), |i: int| v[i].name@)
}

/// The log and the sources.
#[derive(Debug)]
pub struct ActivityState {
    pub log: VecDeque<LogEntry>,
    /// In the order of their names, each once.
    pub sources: Vec<Source>,
}

/// The lines of a log.
pub open spec fn lines(log: Seq<LogEntry>) -> Seq<Seq<char>> {
    Seq::new(log.len(), |i: int| log[i].line@)
}

/// The lines with one more; the oldest makes room where the log is full.
pub open spec fn logged(log: Seq<Seq<char>>, line: Seq<char>) -> Seq<Seq<char>> {
    if log.len() >= LOG_CAPACITY {
        log.skip(1).push(line)
    } else {
        log.push(line)
    }
}

impl Default for ActivityState {
    fn default() -> (r: ActivityState)
        ensures
            r.wf(),
            r.log@.len() == 0,
            r.sources@.len() == 0,
    {
        ActivityState { log: VecDeque::new(), sources: Vec::new() }
    }
}

/// Whether of all sources at most one changed, which was just seen.
pub open spec fn only_seen(before: Seq<Source>, after: Seq<Source>, source: Seq<char>) -> bool {
    &&& names(after).contains(source)
    &&& forall|i: int|
        0 <= i < before.len() && (#[trigger] before[i]).name@ != source ==> after.contains(before[i])
    &&& forall|i: int|
        0 <= i < after.len() && (#[trigger] after[i]).name@ != source ==> before.contains(after[i])
    &&& forall|i: int|
        0 <= i < after.len() && (#[trigger] after[i]).name@ == source
            ==> after[i].status.last_seen is Some
}

/// The entries that stay when one more comes.
pub open spec fn kept(log: Seq<LogEntry>) -> Seq<LogEntry> {
    if log.len() >= LOG_CAPACITY {
        log.skip(1)
    } else {
        log
    }
}

impl ActivityState {
    /// The log is bounded, and the sources are sorted by name, so that none
    /// occurs twice.
    pub open spec fn wf(self) -> bool {
        &&& self.log@.len() <= LOG_CAPACITY
        &&& forall|i: int, j: int|
            0 <= i < j < self.sources@.len() ==> text::less(
                self.sources@[i].name@,
                self.sources@[j].name@,
            )
    }

    /// How many punches of a source were counted.
    pub open spec fn count(self, name: Seq<char>) -> int {
        if exists|i: int| 0 <= i < self.sources@.len() && self.sources@[i].name@ == name {
            let i = choose|i: int| 0 <= i < self.sources@.len() && self.sources@[i].name@ == name;
            self.sources@[i].status.punch_count as int
        } else {
            0
        }
    }

    /// Appends a line with the time; the oldest makes room where the log is full.
    pub fn push_log(&mut self, line: String)
        requires
            old(self).wf(),
        ensures
            final(self).wf(),
            final(self).sources == old(self).sources,
            lines(final(self).log@) == logged(lines(old(self).log@), line@),
            final(self).log@.drop_last() == kept(old(self).log@),
    {
        self.push_log_at(line, wall_now());
    }

    /// Appends a line of the time `now`; the oldest makes room where the log is
    /// full.
    pub fn push_log_at(&mut self, line: String, now: u64)
        requires
            old(self).wf(),
        ensures
            final(self).wf(),
            final(self).sources == old(self).sources,
            lines(final(self).log@) == logged(lines(old(self).log@), line@),
            final(self).log@ == kept(old(self).log@).push(LogEntry { at: now, line }),
            final(self).log@.drop_last() == kept(old(self).log@),
    {
        if self.log.len() >= LOG_CAPACITY {
            let _ = self.log.pop_front();
        }
        assert(self.log@ =~= kept(old(self).log@));
        self.log.push_back(LogEntry { at: now, line });
        assert(self.log@.drop_last() =~= kept(old(self).log@));
        assert(lines(self.log@) =~= logged(lines(old(self).log@), line@));
    }

    /// Where a source stands, or would stand: all before it come first.
    fn position(&self, name: &[char]) -> (r: usize)
        requires
            self.wf(),
        ensures
            r <= self.sources@.len(),
            forall|j: int| 0 <= j < r ==> text::less(#[trigger] self.sources@[j].name@, name@),
            forall|j: int|
                r <= j < self.sources@.len() ==> !text::less(
                    #[trigger] self.sources@[j].name@,
                    name@,
                ),
    {
        let mut i: usize = 0;
        while i < self.sources.len()
            invariant
                self.wf(),
                i <= self.sources@.len(),
                forall|j: int| 0 <= j < i ==> text::less(#[trigger] self.sources@[j].name@, name@),
            decreases self.sources@.len() - i,
        {
            let other = text::chars(self.sources[i].name.as_str());
            if !text::before(other.as_slice(), name) {
                assert forall|j: int| i <= j < self.sources@.len() implies !text::less(
                    #[trigger] self.sources@[j].name@,
                    name@,
                ) by {
                    if j > i {
                        text::lemma_less(
                            self.sources@[i as int].name@,
                            self.sources@[j].name@,
                            name@,
                        );
                    }
                }
                return i;
            }
            i += 1;
        }
        i
    }

    /// What is known of a source.
    pub fn source(&self, name: &str) -> (r: Option<&SourceStatus>)
        requires
            self.wf(),
        ensures
            r is Some <==> names(self.sources@).contains(name@),
            r matches Some(s) ==> s.punch_count == self.count(name@) && exists|i: int|
                0 <= i < self.sources@.len() && (#[trigger] self.sources@[i]).name@ == name@
                    && self.sources@[i].status == *s,
    {
        let all = text::chars(name);
        let i: usize = self.position(all.as_slice());
        if i < self.sources.len() {
            let other = text::chars(self.sources[i].name.as_str());
            if text::same(other.as_slice(), name) {
                proof {
                    assert(names(self.sources@)[i as int] == name@);
                    self.lemma_count(i as int);
                }
                return Some(&self.sources[i].status);
            }
        }
        proof {
            if names(self.sources@).contains(name@) {
                let j = choose|j: int|
                    0 <= j < names(self.sources@).len() && names(self.sources@)[j] == name@;
                text::lemma_less(name@, name@, name@);
                assert(j >= i) by {
                    if j < i {
                        assert(text::less(self.sources@[j].name@, name@));
                    }
                }
                if j > i {
                    text::lemma_less(self.sources@[i as int].name@, name@, name@);
                    assert(text::less(self.sources@[i as int].name@, self.sources@[j].name@));
                }
            }
        }
        None
    }

    /// The count of a source that stands at a place.
    proof fn lemma_count(self, i: int)
        requires
            self.wf(),
            0 <= i < self.sources@.len(),
        ensures
            self.count(self.sources@[i].name@) == self.sources@[i].status.punch_count,
    {
        let name = self.sources@[i].name@;
        let k = choose|k: int| 0 <= k < self.sources@.len() && self.sources@[k].name@ == name;
        text::lemma_less(name, name, name);
        if k < i {
            assert(text::less(self.sources@[k].name@, self.sources@[i].name@));
        } else if i < k {
            assert(text::less(self.sources@[i].name@, self.sources@[k].name@));
        }
    }

    /// A source that stands nowhere counts for nothing, and one that does counts
    /// for what stands there.
    proof fn lemma_counts(self)
        requires
            self.wf(),
        ensures
            forall|i: int|
                0 <= i < self.sources@.len() ==> self.count((#[trigger] self.sources@[i]).name@)
                    == self.sources@[i].status.punch_count,
    {
        assert forall|i: int| 0 <= i < self.sources@.len() implies self.count(
            (#[trigger] self.sources@[i]).name@,
        ) == self.sources@[i].status.punch_count by {
            self.lemma_count(i);
        }
    }

    /// Counts a punch of a source.
    pub fn record_source(&mut self, source: &str)
        requires
            old(self).wf(),
            old(self).count(source@) < u64::MAX,
        ensures
            final(self).wf(),
            final(self).log == old(self).log,
            final(self).count(source@) == old(self).count(source@) + 1,
            forall|n: Seq<char>|
                n != source@ ==> #[trigger] final(self).count(n) == old(self).count(n),
            only_seen(old(self).sources@, final(self).sources@, source@),
    {
        self.record_source_at(source, wall_now());
    }

    /// Counts a punch of a source, seen at the time `now`.
    pub fn record_source_at(&mut self, source: &str, now: u64)
        requires
            old(self).wf(),
            old(self).count(source@) < u64::MAX,
        ensures
            final(self).wf(),
            final(self).log == old(self).log,
            final(self).count(source@) == old(self).count(source@) + 1,
            forall|n: Seq<char>|
                n != source@ ==> #[trigger] final(self).count(n) == old(self).count(n),
            only_seen(old(self).sources@, final(self).sources@, source@),
            forall|i: int|
                0 <= i < final(self).sources@.len() && (#[trigger] final(self).sources@[i]).name@
                    == source@ ==> final(self).sources@[i].status.last_seen == Some(now),
    {
        let all = text::chars(source);
        let i: usize = self.position(all.as_slice());
        let mut found: bool = false;
        if i < self.sources.len() {
            let other = text::chars(self.sources[i].name.as_str());
            found = text::same(other.as_slice(), source);
        }
        let ghost before = self.sources@;
        if found {
            proof {
                self.lemma_count(i as int);
            }
            let n: u64 = self.sources[i].status.punch_count + 1;
            let entry = Source {
                name: self.sources[i].name.clone(),
                status: SourceStatus { last_seen: Some(now), punch_count: n },
            };
            self.sources.set(i, entry);
            assert(names(self.sources@)[i as int] == source@);
            proof {
                assert forall|a: int|
                    0 <= a < before.len() && (#[trigger] before[a]).name@
                        != source@ implies self.sources@.contains(before[a]) by {
                    assert(self.sources@[a] == before[a]);
                }
                assert forall|a: int|
                    0 <= a < self.sources@.len() && (#[trigger] self.sources@[a]).name@
                        != source@ implies before.contains(self.sources@[a]) by {
                    assert(self.sources@[a] == before[a]);
                }
            }
            proof {
                assert forall|a: int| 0 <= a < before.len() implies (#[trigger] self.sources@[a]).name@
                    == before[a].name@ by {}
                self.lemma_same_names(*old(self), i as int);
            }
        } else {
            proof {
                assert forall|j: int| 0 <= j < before.len() implies (#[trigger] before[j]).name@
                    != source@ by {
                    text::lemma_less(source@, source@, source@);
                    if j >= i && before[j].name@ == source@ {
                        text::lemma_less(before[i as int].name@, source@, source@);
                        if j > i {
                            assert(text::less(before[i as int].name@, before[j].name@));
                        }
                    }
                }
            }
            let entry = Source {
                name: source.to_owned(),
                status: SourceStatus { last_seen: Some(now), punch_count: 1 },
            };
            self.sources.insert(i, entry);
            proof {
                self.lemma_inserted(*old(self), i as int);
                assert(names(self.sources@)[i as int] == source@);
                assert forall|a: int|
                    0 <= a < before.len() && (#[trigger] before[a]).name@
                        != source@ implies self.sources@.contains(before[a]) by {
                    if a < i {
                        assert(self.sources@[a] == before[a]);
                    } else {
                        assert(self.sources@[a + 1] == before[a]);
                    }
                }
                assert forall|a: int|
                    0 <= a < self.sources@.len() && (#[trigger] self.sources@[a]).name@
                        != source@ implies before.contains(self.sources@[a]) by {
                    if a < i {
                        assert(self.sources@[a] == before[a]);
                    } else {
                        assert(self.sources@[a] == before[a - 1]);
                    }
                }
            }
        }
        proof {
            self.lemma_count(i as int);
            text::lemma_less(source@, source@, source@);
            assert forall|j: int|
                0 <= j < self.sources@.len() && (#[trigger] self.sources@[j]).name@
                    == source@ implies self.sources@[j].status.last_seen == Some(now) by {
                if j < i {
                    assert(text::less(self.sources@[j].name@, self.sources@[i as int].name@));
                } else if j > i {
                    assert(text::less(self.sources@[i as int].name@, self.sources@[j].name@));
                }
            }
        }
    }

    /// Where one entry changed but no name, only that entry's count did.
    proof fn lemma_same_names(self, was: ActivityState, i: int)
        requires
            was.wf(),
            self.log == was.log,
            self.sources@.len() == was.sources@.len(),
            0 <= i < self.sources@.len(),
            forall|a: int|
                0 <= a < self.sources@.len() ==> (#[trigger] self.sources@[a]).name@
                    == was.sources@[a].name@,
            forall|a: int|
                0 <= a < self.sources@.len() && a != i ==> #[trigger] self.sources@[a]
                    == was.sources@[a],
        ensures
            self.wf(),
            forall|n: Seq<char>|
                n != self.sources@[i].name@ ==> #[trigger] self.count(n) == was.count(n),
    {
        self.lemma_counts();
        was.lemma_counts();
        assert forall|n: Seq<char>| n != self.sources@[i].name@ implies #[trigger] self.count(n)
            == was.count(n) by {
            if exists|a: int| 0 <= a < self.sources@.len() && self.sources@[a].name@ == n {
                let a = choose|a: int| 0 <= a < self.sources@.len() && self.sources@[a].name@ == n;
                assert(was.sources@[a].name@ == n);
                assert(self.sources@[a] == was.sources@[a]);
            } else if exists|a: int| 0 <= a < was.sources@.len() && was.sources@[a].name@ == n {
                let a = choose|a: int| 0 <= a < was.sources@.len() && was.sources@[a].name@ == n;
                assert(self.sources@[a].name@ == n);
            }
        }
    }

    /// Where one entry was put in its place, the order stays and only its count
    /// is new.
    proof fn lemma_inserted(self, was: ActivityState, i: int)
        requires
            was.wf(),
            self.log == was.log,
            0 <= i <= was.sources@.len(),
            self.sources@.len() == was.sources@.len() + 1,
            self.sources@ == was.sources@.insert(i, self.sources@[i]),
            forall|j: int|
                0 <= j < i ==> text::less(
                    #[trigger] was.sources@[j].name@,
                    self.sources@[i].name@,
                ),
            forall|j: int|
                i <= j < was.sources@.len() ==> !text::less(
                    #[trigger] was.sources@[j].name@,
                    self.sources@[i].name@,
                ),
            forall|j: int|
                0 <= j < was.sources@.len() ==> (#[trigger] was.sources@[j]).name@
                    != self.sources@[i].name@,
        ensures
            self.wf(),
            was.count(self.sources@[i].name@) == 0,
            forall|n: Seq<char>|
                n != self.sources@[i].name@ ==> #[trigger] self.count(n) == was.count(n),
    {
        let name = self.sources@[i].name@;
        let now = self.sources@;
        let old_ = was.sources@;
        assert forall|a: int, b: int| 0 <= a < b < now.len() implies text::less(
            now[a].name@,
            now[b].name@,
        ) by {
            if a < i && b < i {
                assert(now[a] == old_[a] && now[b] == old_[b]);
            } else if a < i && b == i {
                assert(now[a] == old_[a]);
            } else if a < i && b > i {
                assert(now[a] == old_[a] && now[b] == old_[b - 1]);
            } else if a == i {
                assert(now[b] == old_[b - 1]);
                text::lemma_less(name, old_[b - 1].name@, name);
                assert(old_[b - 1].name@ != name);
            } else {
                assert(now[a] == old_[a - 1] && now[b] == old_[b - 1]);
            }
        }
        self.lemma_counts();
        was.lemma_counts();
        assert forall|n: Seq<char>| n != name implies #[trigger] self.count(n) == was.count(n) by {
            if exists|a: int| 0 <= a < old_.len() && old_[a].name@ == n {
                let a = choose|a: int| 0 <= a < old_.len() && old_[a].name@ == n;
                let b: int = if a < i {
                    a
                } else {
                    a + 1
                };
                assert(now[b] == old_[a]);
                assert(self.count(now[b].name@) == now[b].status.punch_count);
                assert(was.count(old_[a].name@) == old_[a].status.punch_count);
            } else if exists|b: int| 0 <= b < now.len() && now[b].name@ == n {
                let b = choose|b: int| 0 <= b < now.len() && now[b].name@ == n;
                let a: int = if b < i {
                    b
                } else {
                    b - 1
                };
                assert(b != i);
                assert(now[b] == old_[a]);
            }
        }
    }
}

/// The log ends with the line that was just written, keeps the two hundred
/// youngest, and leaves them in their order.
pub proof fn law_log_keeps_the_youngest(log: Seq<Seq<char>>, line: Seq<char>, k: int)
    requires
        log.len() <= 200,
    ensures
        logged(log, line).last() == line,
        logged(log, line).len() == (if log.len() < 200 {
            log.len() + 1
        } else {
            200
        }),
        0 <= k < logged(log, line).len() - 1 ==> logged(log, line)[logged(log, line).len() - 2 - k]
            == log[log.len() - 1 - k],
{
}

} // verus!
