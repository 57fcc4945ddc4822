//! Handing buffered punches to the results server.

use vstd::prelude::*;
use super::punch_buffer;
use super::punch_buffer::BufferedPunch;

verus! {

/// A punch as the results server takes it.
#[derive(Debug)]
pub struct PunchPush {
    pub card_id: u32,
    pub station: u8,
    pub time_s: u32,
    pub source: String,
    /// The competition at the time of pushing.
    pub competition_id: String,
}

/// The punch as the results server takes it.
pub fn push_body(punch: &BufferedPunch, competition_id: &str) -> (r: PunchPush)
    ensures
        r.card_id == punch@.card_id,
        r.station == punch@.station,
        r.time_s == punch@.time_s,
        r.source@ == punch@.source,
        r.competition_id@ == competition_id@,
{
    PunchPush {
        card_id: punch.card_id,
        station: punch.station,
        time_s: punch.time_s,
        source: punch.source.clone(),
        competition_id: competition_id.to_owned(),
    }
}

/// One pass over the unsent punches, oldest first. It ends at the first that
/// the results server does not take; what is left waits for the next pass.
#[derive(Debug)]
pub struct PushPass {
    pub unsent: Vec<BufferedPunch>,
    /// How many were taken.
    pub taken: usize,
    pub stopped: bool,
}

impl PushPass {
    /// No more were taken than there are.
    pub open spec fn wf(self) -> bool {
        self.taken <= self.unsent@.len()
    }

    /// The punch to push next, if the pass goes on.
    pub open spec fn due(self) -> Option<punch_buffer::BufferedView> {
        if !self.stopped && self.taken < self.unsent@.len() {
            Some(self.unsent@[self.taken as int]@)
        } else {
            None
        }
    }

    /// A pass that begins.
    pub fn begin(unsent: Vec<BufferedPunch>) -> (r: PushPass)
        ensures
            r.wf(),
            r.unsent == unsent,
            r.taken == 0,
            !r.stopped,
    {
        PushPass { unsent, taken: 0, stopped: false }
    }

    /// The body to push next; `None` at the end of the pass.
    pub fn next(&self, competition_id: &str) -> (r: Option<PunchPush>)
        requires
            self.wf(),
        ensures
            r is Some <==> self.due() is Some,
            r matches Some(b) ==> {
                let p = self.due()->0;
                &&& b.card_id == p.card_id
                &&& b.station == p.station
                &&& b.time_s == p.time_s
                &&& b.source@ == p.source
                &&& b.competition_id@ == competition_id@
            },
    {
        if !self.stopped && self.taken < self.unsent.len() {
            Some(push_body(&self.unsent[self.taken], competition_id))
        } else {
            None
        }
    }

    /// Takes the results server's answer. The number of the punch to mark as
    /// sent comes back, if it was taken.
    pub fn answered(&mut self, taken: bool) -> (r: Option<i64>)
        requires
            old(self).wf(),
            old(self).due() is Some,
        ensures
            final(self).wf(),
            final(self).unsent == old(self).unsent,
            r == if taken {
                Some(old(self).due()->0.id)
            } else {
                None
            },
            final(self).stopped == !taken,
            final(self).taken == old(self).taken + if taken {
                1int
            } else {
                0
            },
    {
        if !taken {
            self.stopped = true;
            return None;
        }
        let id: i64 = self.unsent[self.taken].id;
        assert(self.taken < self.unsent.len());
        self.taken = self.taken + 1;
        Some(id)
    }
}

} // verus!
