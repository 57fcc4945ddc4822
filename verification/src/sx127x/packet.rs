//! Packets received from a radio.
//!
//! The payload lives in a fixed-capacity vector of the `heapless` crate. What
//! such a vector holds is `held`; the functions below are the only ones that
//! read or fill one.

use vstd::prelude::*;

verus! {

/// Most bytes of a received payload.
pub const PAYLOAD_MAX: usize = 240;

/// `heapless::Vec`, a vector without an allocator.
#[verifier::external_type_specification]
#[verifier::external_body]
#[verifier::reject_recursive_types(T)]
pub struct ExHeaplessVec<T, const N: usize>(heapless::Vec<T, N>);

/// The bytes that a payload vector holds, in order.
pub uninterp spec fn held(v: heapless::Vec<u8, 240>) -> Seq<u8>;

/// `heapless::Vec::new` gives an empty vector.
#[verifier::external_body]
fn payload_new() -> (v: heapless::Vec<u8, 240>)
    ensures
        held(v) == Seq::<u8>::empty(),
{
    heapless::Vec::new()
}

/// `heapless::Vec::extend_from_slice` appends all bytes where they fit in the
/// capacity, and otherwise appends none.
#[verifier::external_body]
fn payload_extend(v: &mut heapless::Vec<u8, 240>, bytes: &[u8]) -> (r: Result<(), ()>)
    ensures
        r is Ok <==> held(*old(v)).len() + bytes@.len() <= PAYLOAD_MAX,
        r is Ok ==> held(*final(v)) == held(*old(v)) + bytes@,
        r is Err ==> held(*final(v)) == held(*old(v)),
{
    v.extend_from_slice(bytes)
}

/// `heapless::Vec::as_slice` shows the bytes held, which are at most as many as
/// the capacity.
#[verifier::external_body]
pub(crate) fn payload_bytes(v: &heapless::Vec<u8, 240>) -> (r: &[u8])
    ensures
        r@ == held(*v),
        r@.len() <= PAYLOAD_MAX,
{
    v.as_slice()
}

/// What of `bytes` a payload vector takes: all, or nothing where they do not
/// fit.
pub open spec fn accepted(bytes: Seq<u8>) -> Seq<u8> {
    if bytes.len() <= PAYLOAD_MAX {
        bytes
    } else {
        Seq::empty()
    }
}

/// A payload vector with `bytes` in it; empty where they do not fit.
pub fn payload_from(bytes: &[u8]) -> (v: heapless::Vec<u8, 240>)
    ensures
        held(v) == accepted(bytes@),
{
    let mut v = payload_new();
    let r = payload_extend(&mut v, bytes);
    assert(Seq::<u8>::empty() + bytes@ =~= bytes@);
    v
}

/// A packet received from the radio.
#[derive(Debug)]
pub struct ReceivedPacket {
    pub src_addr: u16,
    /// Signal strength in dBm, where it was reported.
    pub rssi: Option<i16>,
    pub payload: heapless::Vec<u8, 240>,
}

/// A received packet as a value.
pub struct PacketView {
    pub src_addr: u16,
    pub rssi: Option<i16>,
    pub payload: Seq<u8>,
}

impl View for ReceivedPacket {
    type V = PacketView;

    open spec fn view(&self) -> PacketView {
        PacketView { src_addr: self.src_addr, rssi: self.rssi, payload: held(self.payload) }
    }
}

/// An optional packet as a value.
pub open spec fn opt_packet(o: Option<ReceivedPacket>) -> Option<PacketView> {
    match o {
        Some(p) => Some(p@),
        None => None,
    }
}

} // verus!
