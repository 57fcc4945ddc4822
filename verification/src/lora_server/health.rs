//! The health check between the daemon and the results server.

use vstd::prelude::*;

verus! {

/// The answer to a health check: the daemon runs, and its radio answers or does
/// not.
pub fn health_answer(radio_ready: bool) -> (r: (u16, &'static str))
    ensures
        r.0 == if radio_ready {
            200u16
        } else {
            503u16
        },
        r.1@ == if radio_ready {
            "ok"@
        } else {
            "lora module not found"@
        },
{
    if radio_ready {
        (200, "ok")
    } else {
        (503, "lora module not found")
    }
}

/// Whether the other side answered when it was last asked.
#[derive(Debug, Clone, Copy, PartialEq, Eq, Structural)]
pub struct Reachability {
    pub last: Option<bool>,
}

impl Reachability {
    /// Nobody was asked yet.
    pub fn new() -> (r: Reachability)
        ensures
            r.last is None,
    {
        Reachability { last: None }
    }

    /// Takes an answer, and says whether it is news: the first, or another than
    /// the last.
    pub fn changed(&mut self, reachable: bool) -> (r: bool)
        ensures
            r == (old(self).last != Some(reachable)),
            final(self).last == Some(reachable),
    {
        let news: bool = match self.last {
            Some(l) => l != reachable,
            None => true,
        };
        self.last = Some(reachable);
        news
    }
}

} // verus!
