use vstd::prelude::*;
use vstd::slice::slice_subrange;
use crate::error::WasmHandlerError;
use crate::memory::{check_region, in_bounds, read_at, store, write_at};
use crate::wire::{
    decode_u32, decode_u64, encode_i32, encode_u32, encode_u64, i32_bits, u32_from_le,
    u32_le_bytes, u64_from_le, u64_le_bytes,
};

verus! {

/// The call did what was asked.
pub const ERRNO_OK: i32 = 0;

/// Nothing can be done now without waiting: wait, then call again.
pub const ERRNO_WOULD_BLOCK: i32 = 1;

/// The body's source or sink failed.
pub const ERRNO_UNKNOWN: i32 = 2;

/// A wait for bytes of the request body.
pub const SUBSCRIPTION_TYPE_REQUEST_READ: u32 = 1;

/// A wait for the response body to drain.
pub const SUBSCRIPTION_TYPE_RESPONSE_WRITE: u32 = 2;

/// A wait for a time to pass.
pub const SUBSCRIPTION_TYPE_TIMEOUT: u32 = 3;

/// The size of a subscription record in guest memory.
pub const SUBSCRIPTION_SIZE: u32 = 24;

/// The size of an event record in guest memory.
pub const EVENT_SIZE: u32 = 24;

/// What the guest asks to be woken for.
#[derive(Clone, Copy, Debug, PartialEq, Eq, Structural)]
pub struct RawSubscription {
    /// One of the `SUBSCRIPTION_TYPE_` tags.
    pub ty: u32,
    /// Chosen by the guest, handed back in the event.
    pub userdata: u64,
    /// For a timeout, the time to wait in milliseconds.
    pub timeout: u32,
}

/// What the guest is woken with.
#[derive(Clone, Copy, Debug, PartialEq, Eq, Structural)]
pub struct RawEvent {
    /// The tag of the subscription that resolved.
    pub ty: u32,
    /// The `userdata` of that subscription.
    pub userdata: u64,
    /// One of the `ERRNO_` codes.
    pub errno: i32,
}

/// The subscription that a record of 24 bytes holds: the tag in bytes 0 to 3, the
/// userdata in bytes 8 to 15, the timeout in bytes 16 to 19, each least significant
/// byte first. Bytes 4 to 7 and 20 to 23 are padding.
pub open spec fn subscription_of(record: Seq<u8>) -> RawSubscription
    recommends
        record.len() == SUBSCRIPTION_SIZE,
{
    RawSubscription {
        ty: u32_from_le(record.subrange(0, 4)),
        userdata: u64_from_le(record.subrange(8, 16)),
        timeout: u32_from_le(record.subrange(16, 20)),
    }
}

/// The subscriptions that `count` consecutive records hold, the first at `base`.
pub open spec fn subscriptions_at(memory: Seq<u8>, base: int, count: nat) -> Seq<
    RawSubscription,
> {
    Seq::new(
        count,
        |i: int| subscription_of(read_at(memory, base + SUBSCRIPTION_SIZE * i, SUBSCRIPTION_SIZE as int)),
    )
}

/// The record of 24 bytes that an event is written as: the tag in bytes 0 to 3, the
/// userdata in bytes 8 to 15, the code in bytes 16 to 19, each least significant
/// byte first, and zero in the padding.
pub open spec fn event_record(event: RawEvent) -> Seq<u8> {
    u32_le_bytes(event.ty) + seq![0u8, 0u8, 0u8, 0u8] + u64_le_bytes(event.userdata)
        + u32_le_bytes(i32_bits(event.errno)) + seq![0u8, 0u8, 0u8, 0u8]
}

pub(crate) fn decode_subscription(record: &[u8]) -> (subscription: RawSubscription)
    requires
        record@.len() == SUBSCRIPTION_SIZE,
    ensures
        subscription == subscription_of(record@),
{
    RawSubscription {
        ty: decode_u32(slice_subrange(record, 0, 4)),
        userdata: decode_u64(slice_subrange(record, 8, 16)),
        timeout: decode_u32(slice_subrange(record, 16, 20)),
    }
}

/// Reads `count` subscription records that start at `base`, or fails where they
/// reach past the end of the memory.
pub fn read_subscriptions(memory: &[u8], base: u32, count: u32) -> (res: Result<
    Vec<RawSubscription>,
    WasmHandlerError,
>)
    ensures
        res.is_ok() <==> in_bounds(memory@.len(), base as int, SUBSCRIPTION_SIZE * count),
        res.is_ok() ==> res.unwrap()@ == subscriptions_at(memory@, base as int, count as nat),
        res.is_err() ==> res.unwrap_err() == WasmHandlerError::MemoryAccess,
{
    let size: usize = memory.len();
    if !check_region(memory, base, 24 * (count as u64)) {
        return Err(WasmHandlerError::MemoryAccess);
    }
    let mut subscriptions: Vec<RawSubscription> = Vec::new();
    let mut i: u32 = 0;
    while i < count
        invariant
            i <= count,
            base + 24 * count <= memory@.len() == size,
            subscriptions@ == subscriptions_at(memory@, base as int, i as nat),
        decreases count - i,
    {
        assert(24 * i + 24 <= 24 * count);
        let start: usize = base as usize + 24 * (i as usize);
        let record = slice_subrange(memory, start, start + 24);
        let subscription = decode_subscription(record);
        subscriptions.push(subscription);
        i += 1;
        assert(subscriptions@ =~= subscriptions_at(memory@, base as int, i as nat));
    }
    Ok(subscriptions)
}

/// The record that an event is written as.
pub fn encode_event(event: &RawEvent) -> (record: [u8; 24])
    ensures
        record@ == event_record(*event),
{
    let ty: [u8; 4] = encode_u32(event.ty);
    let userdata: [u8; 8] = encode_u64(event.userdata);
    let errno: [u8; 4] = encode_i32(event.errno);
    let record: [u8; 24] = [
        ty[0], ty[1], ty[2], ty[3],
        0, 0, 0, 0,
        userdata[0], userdata[1], userdata[2], userdata[3],
        userdata[4], userdata[5], userdata[6], userdata[7],
        errno[0], errno[1], errno[2], errno[3],
        0, 0, 0, 0,
    ];
    assert(record@ =~= event_record(*event));
    record
}

/// Writes an event's record at `offset`, or fails and leaves the memory as it was.
pub fn write_event(memory: &mut [u8], offset: u32, event: &RawEvent) -> (res: Result<
    (),
    WasmHandlerError,
>)
    ensures
        res.is_ok() <==> in_bounds(old(memory)@.len(), offset as int, EVENT_SIZE as int),
        res.is_ok() ==> final(memory)@ == write_at(old(memory)@, offset as int, event_record(*event)),
        res.is_err() ==> res.unwrap_err() == WasmHandlerError::MemoryAccess && final(memory)@
            == old(memory)@,
{
    let record: [u8; 24] = encode_event(event);
    store(memory, offset, record.as_slice())
}

} // verus!
