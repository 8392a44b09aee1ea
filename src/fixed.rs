//! The fixed-capacity vectors of `heapless` that carry frames, frame queues
//! and address lists, with what this library relies on of them.

use vstd::prelude::*;

use crate::device::{DeviceAddress, MAX_DEVICES};

verus! {

/// Largest frame carried by a transport, in bytes.
pub const FRAME_CAPACITY: usize = 64;

/// Largest serialized multi-device frame: three header bytes and a frame.
pub const WIRE_CAPACITY: usize = 67;

/// Frames that a simulated transport holds in each queue.
pub const QUEUE_CAPACITY: usize = 16;

#[verifier::external_type_specification]
#[verifier::external_body]
#[verifier::reject_recursive_types(T)]
pub struct ExHeaplessVec<T, const N: usize>(heapless::Vec<T, N>);

/// Relies on heapless::Vec's `Clone`, which the derived `Clone` of frame
/// types calls; nothing is assumed of the copy.
pub assume_specification<T, const N: usize>[ <heapless::Vec<T, N> as core::clone::Clone>::clone ](
    v: &heapless::Vec<T, N>,
) -> heapless::Vec<T, N>
    where
        T: core::clone::Clone,
;

/// The bytes held by a frame buffer.
pub uninterp spec fn frame_bytes(v: heapless::Vec<u8, 64>) -> Seq<u8>;

/// The bytes held by a serialized multi-device frame.
pub uninterp spec fn wire_bytes(v: heapless::Vec<u8, 67>) -> Seq<u8>;

/// The addresses held by an address list.
pub uninterp spec fn address_list(v: heapless::Vec<DeviceAddress, 8>) -> Seq<DeviceAddress>;

/// The frames held by a frame queue, oldest first.
pub uninterp spec fn queued_frames(v: heapless::Vec<heapless::Vec<u8, 64>, 16>) -> Seq<
    heapless::Vec<u8, 64>,
>;

/// Relies on heapless::Vec::new: the vector starts empty.
#[verifier::external_body]
pub(crate) fn frame_new() -> (r: heapless::Vec<u8, 64>)
    ensures
        frame_bytes(r) == Seq::<u8>::empty(),
{
    heapless::Vec::new()
}

/// Relies on heapless::Vec::push: below capacity the byte is appended,
/// at capacity it is handed back and the vector is left as it was.
#[verifier::external_body]
pub(crate) fn frame_push(v: &mut heapless::Vec<u8, 64>, b: u8) -> (r: Result<(), u8>)
    ensures
        frame_bytes(*old(v)).len() < FRAME_CAPACITY ==> r is Ok && frame_bytes(*final(v))
            == frame_bytes(*old(v)).push(b),
        frame_bytes(*old(v)).len() >= FRAME_CAPACITY ==> r is Err && r->Err_0 == b && *final(v)
            == *old(v),
        frame_bytes(*final(v)).len() <= FRAME_CAPACITY,
{
    v.push(b)
}

/// Relies on heapless::Vec::as_slice: the slice holds the vector's bytes,
/// never more than its capacity.
#[verifier::external_body]
pub(crate) fn frame_as_slice(v: &heapless::Vec<u8, 64>) -> (r: &[u8])
    ensures
        r@ == frame_bytes(*v),
        r@.len() <= FRAME_CAPACITY,
{
    v.as_slice()
}

/// Relies on heapless::Vec::new: the vector starts empty.
#[verifier::external_body]
pub(crate) fn wire_new() -> (r: heapless::Vec<u8, 67>)
    ensures
        wire_bytes(r) == Seq::<u8>::empty(),
{
    heapless::Vec::new()
}

/// Relies on heapless::Vec::push: below capacity the byte is appended,
/// at capacity it is handed back and the vector is left as it was.
#[verifier::external_body]
pub(crate) fn wire_push(v: &mut heapless::Vec<u8, 67>, b: u8) -> (r: Result<(), u8>)
    ensures
        wire_bytes(*old(v)).len() < WIRE_CAPACITY ==> r is Ok && wire_bytes(*final(v))
            == wire_bytes(*old(v)).push(b),
        wire_bytes(*old(v)).len() >= WIRE_CAPACITY ==> r is Err && r->Err_0 == b && *final(v)
            == *old(v),
{
    v.push(b)
}

/// Relies on heapless::Vec::new: the vector starts empty.
#[verifier::external_body]
pub(crate) fn address_list_new() -> (r: heapless::Vec<DeviceAddress, MAX_DEVICES>)
    ensures
        address_list(r) == Seq::<DeviceAddress>::empty(),
{
    heapless::Vec::new()
}

/// Relies on heapless::Vec::push: below capacity the address is appended,
/// at capacity it is handed back and the vector is left as it was.
#[verifier::external_body]
pub(crate) fn address_list_push(
    v: &mut heapless::Vec<DeviceAddress, MAX_DEVICES>,
    a: DeviceAddress,
) -> (r: Result<(), DeviceAddress>)
    ensures
        address_list(*old(v)).len() < MAX_DEVICES ==> r is Ok && address_list(*final(v))
            == address_list(*old(v)).push(a),
        address_list(*old(v)).len() >= MAX_DEVICES ==> r is Err && *final(v) == *old(v),
{
    v.push(a)
}

/// Relies on heapless::Vec::new: the queue starts empty.
#[verifier::external_body]
pub(crate) fn queue_new() -> (r: heapless::Vec<heapless::Vec<u8, 64>, 16>)
    ensures
        queued_frames(r).len() == 0,
{
    heapless::Vec::new()
}

/// Relies on heapless::Vec::push: below capacity the frame is appended,
/// at capacity it is handed back and the queue is left as it was.
#[verifier::external_body]
pub(crate) fn queue_push(
    q: &mut heapless::Vec<heapless::Vec<u8, 64>, 16>,
    f: heapless::Vec<u8, 64>,
) -> (r: Result<(), heapless::Vec<u8, 64>>)
    ensures
        queued_frames(*old(q)).len() < QUEUE_CAPACITY ==> r is Ok && queued_frames(*final(q))
            == queued_frames(*old(q)).push(f),
        queued_frames(*old(q)).len() >= QUEUE_CAPACITY ==> r is Err && *final(q) == *old(q),
        queued_frames(*final(q)).len() <= QUEUE_CAPACITY,
{
    q.push(f)
}

/// Relies on heapless::Vec::pop: the last frame is removed and returned,
/// and an empty queue gives `None`.
#[verifier::external_body]
pub(crate) fn queue_pop(q: &mut heapless::Vec<heapless::Vec<u8, 64>, 16>) -> (r: Option<
    heapless::Vec<u8, 64>,
>)
    ensures
        queued_frames(*old(q)).len() == 0 ==> r is None && *final(q) == *old(q),
        queued_frames(*old(q)).len() > 0 ==> r == Some(queued_frames(*old(q)).last())
            && queued_frames(*final(q)) == queued_frames(*old(q)).drop_last(),
{
    q.pop()
}

/// Relies on heapless::Vec::len: the number of frames held, never more than
/// the capacity.
#[verifier::external_body]
pub(crate) fn queue_len(q: &heapless::Vec<heapless::Vec<u8, 64>, 16>) -> (r: usize)
    ensures
        r == queued_frames(*q).len(),
        r <= QUEUE_CAPACITY,
{
    q.len()
}

/// Relies on heapless::Vec::clear: every frame is removed.
#[verifier::external_body]
pub(crate) fn queue_clear(q: &mut heapless::Vec<heapless::Vec<u8, 64>, 16>)
    ensures
        queued_frames(*final(q)).len() == 0,
{
    q.clear()
}

/// Relies on slice::get through heapless::Vec's deref: the frame at `i`
/// when `i` is below the length, else `None`.
#[verifier::external_body]
pub(crate) fn queue_get(q: &heapless::Vec<heapless::Vec<u8, 64>, 16>, i: usize) -> (r: Option<
    &heapless::Vec<u8, 64>,
>)
    ensures
        i < queued_frames(*q).len() ==> r is Some && *r->Some_0 == queued_frames(*q)[i as int],
        i >= queued_frames(*q).len() ==> r is None,
{
    q.get(i)
}

} // verus!
