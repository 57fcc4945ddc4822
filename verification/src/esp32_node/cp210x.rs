//! The bytes that a station's USB bridge delivered and nobody read yet.

use vstd::prelude::*;

verus! {

/// Time between two attempts to find a station.
pub const RETRY_SECS: u64 = 2;

/// Time that a station may take to connect.
pub const CONNECTION_TIMEOUT_MS: u32 = 5_000;

/// Time that a transfer to a station may take.
pub const WRITE_TIMEOUT_MS: u32 = 1_000;

/// Bytes in the order in which they arrived.
#[derive(Debug)]
pub struct Staging {
    pub bytes: Vec<u8>,
}

impl View for Staging {
    type V = Seq<u8>;

    open spec fn view(&self) -> Seq<u8> {
        self.bytes@
    }
}

impl Staging {
    /// Nothing arrived.
    pub fn new() -> (r: Staging)
        ensures
            r@ == Seq::<u8>::empty(),
    {
        Staging { bytes: Vec::new() }
    }

    /// Takes a chunk that arrived.
    pub fn feed(&mut self, chunk: &[u8])
        ensures
            final(self)@ == old(self)@ + chunk@,
    {
        self.bytes.extend_from_slice(chunk);
        assert(self.bytes@ =~= old(self)@ + chunk@);
    }

    /// Fills the front of `buf` with the oldest bytes, and tells how many there
    /// were; 0 where nothing arrived.
    pub fn read(&mut self, buf: &mut Vec<u8>) -> (n: usize)
        ensures
            n == (if old(self)@.len() < old(buf)@.len() {
                old(self)@.len()
            } else {
                old(buf)@.len()
            }),
            final(buf)@ == old(self)@.take(n as int) + old(buf)@.skip(n as int),
            final(self)@ == old(self)@.skip(n as int),
    {
        let n: usize = if self.bytes.len() < buf.len() {
            self.bytes.len()
        } else {
            buf.len()
        };
        let mut i: usize = 0;
        assert(buf@ =~= self.bytes@.take(0) + old(buf)@.skip(0));
        while i < n
            invariant
                i <= n,
                n <= self.bytes@.len(),
                n <= old(buf)@.len(),
                self.bytes@ == old(self)@,
                buf@ == self.bytes@.take(i as int) + old(buf)@.skip(i as int),
            decreases n - i,
        {
            buf.set(i, self.bytes[i]);
            assert(buf@ =~= self.bytes@.take(i + 1) + old(buf)@.skip(i + 1));
            i += 1;
        }
        let rest = self.bytes.split_off(n);
        self.bytes = rest;
        assert(self.bytes@ =~= old(self)@.skip(n as int));
        n
    }
}

/// What is read is what arrived, in order, however it was cut into chunks.
pub proof fn law_bytes_come_out_in_order(arrived: Seq<u8>, more: Seq<u8>, n: int)
    requires
        0 <= n <= arrived.len(),
    ensures
        arrived.take(n) + (arrived.skip(n) + more) == arrived + more,
{
    assert(arrived.take(n) + (arrived.skip(n) + more) =~= arrived + more);
}

} // verus!
