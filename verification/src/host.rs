use vstd::prelude::*;
use crate::buffer::buf_as_slice;
use crate::error::WasmHandlerError;
use crate::ffi::{ERRNO_OK, ERRNO_WOULD_BLOCK};
use crate::memory::{check_region, in_bounds, read_at, set_ret_len, store, write_at};
use crate::state::{EndpointState, EndpointView, RESPONSE_BODY_CAPACITY};
use crate::wire::u32_le_bytes;

verus! {

/// What a host call leaves behind: what it returns, the guest's memory and the
/// host's state.
pub ghost struct Outcome {
    pub result: Result<i32, WasmHandlerError>,
    pub memory: Seq<u8>,
    pub state: EndpointView,
}

/// The memory after the guest has asked for the request text, or `None` where a
/// place that the call writes to reaches past the end of the memory. The length
/// of the text is always reported at `request_len`; the text itself is stored at
/// `buf` only where `buf_len` has room for all of it.
pub open spec fn read_request_memory(
    memory: Seq<u8>,
    text: Seq<u8>,
    buf: u32,
    buf_len: u32,
    request_len: u32,
) -> Option<Seq<u8>> {
    let length = u32_le_bytes(text.len() as u32);
    if !in_bounds(memory.len(), request_len as int, 4) {
        None
    } else if buf_len < text.len() {
        Some(write_at(memory, request_len as int, length))
    } else if !in_bounds(memory.len(), buf as int, text.len() as int) {
        None
    } else {
        Some(write_at(write_at(memory, buf as int, text), request_len as int, length))
    }
}

/// Hands the request line and headers to the guest.
pub fn read_request(
    memory: &mut [u8],
    state: &EndpointState,
    buf: u32,
    buf_len: u32,
    request_len: u32,
) -> (res: Result<(), WasmHandlerError>)
    requires
        state.wf(),
    ensures
        match read_request_memory(old(memory)@, state@.request_text, buf, buf_len, request_len) {
            Some(after) => res.is_ok() && final(memory)@ == after,
            None => res == Err::<(), WasmHandlerError>(WasmHandlerError::MemoryAccess)
                && final(memory)@ == old(memory)@,
        },
{
    let text = state.request_bytes();
    let len: u32 = text.len() as u32;
    if !check_region(memory, request_len, 4) {
        return Err(WasmHandlerError::MemoryAccess);
    }
    if buf_len < len {
        return set_ret_len(memory, request_len, len);
    }
    if !check_region(memory, buf, len as u64) {
        return Err(WasmHandlerError::MemoryAccess);
    }
    match store(memory, buf, text) {
        Ok(()) => set_ret_len(memory, request_len, len),
        Err(e) => Err(e),
    }
}

/// How many bytes one read of the request body hands to a guest buffer of
/// `buf_len` bytes.
pub open spec fn read_size(inbound: Seq<u8>, buf_len: u32) -> nat {
    if buf_len < inbound.len() {
        buf_len as nat
    } else {
        inbound.len()
    }
}

/// The bytes that one read of the request body hands out: the oldest.
pub open spec fn handed_out(inbound: Seq<u8>, buf_len: u32) -> Seq<u8> {
    inbound.subrange(0, read_size(inbound, buf_len) as int)
}

/// The bytes that one read of the request body leaves waiting.
pub open spec fn left_waiting(inbound: Seq<u8>, buf_len: u32) -> Seq<u8> {
    inbound.subrange(read_size(inbound, buf_len) as int, inbound.len() as int)
}

/// What a read of the request body does. After the end of the body it reports
/// zero bytes. Before it, with nothing waiting, it asks the guest to wait; else it
/// stores the oldest bytes at `buf`, as many as `buf_len` has room for, takes them
/// out of the buffer and reports their number at `bytes_read`. Where a place that
/// it would write to reaches past the end of the memory it fails, and nothing has
/// changed.
pub open spec fn read_request_body_outcome(
    memory: Seq<u8>,
    state: EndpointView,
    buf: u32,
    buf_len: u32,
    bytes_read: u32,
) -> Outcome {
    let size = read_size(state.inbound, buf_len);
    let refused = Outcome { result: Err(WasmHandlerError::MemoryAccess), memory, state };
    if state.inbound_eof {
        if in_bounds(memory.len(), bytes_read as int, 4) {
            Outcome {
                result: Ok(ERRNO_OK),
                memory: write_at(memory, bytes_read as int, u32_le_bytes(0)),
                state,
            }
        } else {
            refused
        }
    } else if state.inbound.len() == 0 {
        Outcome { result: Ok(ERRNO_WOULD_BLOCK), memory, state }
    } else if in_bounds(memory.len(), buf as int, size as int) && in_bounds(
        memory.len(),
        bytes_read as int,
        4,
    ) {
        Outcome {
            result: Ok(ERRNO_OK),
            memory: write_at(
                write_at(memory, buf as int, handed_out(state.inbound, buf_len)),
                bytes_read as int,
                u32_le_bytes(size as u32),
            ),
            state: EndpointView { inbound: left_waiting(state.inbound, buf_len), ..state },
        }
    } else {
        refused
    }
}

/// Hands bytes of the request body that have arrived to the guest, without
/// waiting for more.
pub fn read_request_body(
    memory: &mut [u8],
    state: &mut EndpointState,
    buf: u32,
    buf_len: u32,
    bytes_read: u32,
) -> (res: Result<i32, WasmHandlerError>)
    requires
        old(state).wf(),
    ensures
        final(state).wf(),
        (Outcome { result: res, memory: final(memory)@, state: final(state)@ })
            == read_request_body_outcome(old(memory)@, old(state)@, buf, buf_len, bytes_read),
{
    if state.is_inbound_eof() {
        return match set_ret_len(memory, bytes_read, 0) {
            Ok(()) => Ok(ERRNO_OK),
            Err(e) => Err(e),
        };
    }
    let available: usize = state.inbound_len();
    if available == 0 {
        return Ok(ERRNO_WOULD_BLOCK);
    }
    let sz: u32 = if (buf_len as usize) < available {
        buf_len
    } else {
        available as u32
    };
    if !check_region(memory, buf, sz as u64) || !check_region(memory, bytes_read, 4) {
        return Err(WasmHandlerError::MemoryAccess);
    }
    let front = state.take_inbound(sz as usize);
    match store(memory, buf, buf_as_slice(&front)) {
        Ok(()) => match set_ret_len(memory, bytes_read, sz) {
            Ok(()) => Ok(ERRNO_OK),
            Err(e) => Err(e),
        },
        Err(e) => Err(e),
    }
}

/// How many bytes of `data_len` offered the response body's buffer accepts: all of
/// them, or as many as it has room for where that is less.
pub open spec fn accepted(state: EndpointView, data_len: u32) -> int {
    if data_len <= state.free_capacity() {
        data_len as int
    } else {
        state.free_capacity()
    }
}

/// What a write of the response body does. With no room left in the buffer it
/// asks the guest to wait. With room it accepts as many of the bytes at `data` as
/// fit, oldest first, and reports their number at `bytes_written`; a write of no
/// bytes reports zero. Where the bytes offered, or the place of the report, reach
/// past the end of the memory it fails, and nothing has changed.
pub open spec fn write_response_body_outcome(
    memory: Seq<u8>,
    state: EndpointView,
    data: u32,
    data_len: u32,
    bytes_written: u32,
) -> Outcome {
    let size = accepted(state, data_len);
    let refused = Outcome { result: Err(WasmHandlerError::MemoryAccess), memory, state };
    if !in_bounds(memory.len(), data as int, data_len as int) {
        refused
    } else if state.free_capacity() == 0 {
        Outcome { result: Ok(ERRNO_WOULD_BLOCK), memory, state }
    } else if !in_bounds(memory.len(), bytes_written as int, 4) {
        refused
    } else {
        Outcome {
            result: Ok(ERRNO_OK),
            memory: write_at(memory, bytes_written as int, u32_le_bytes(size as u32)),
            state: EndpointView {
                outbound: state.outbound + read_at(memory, data as int, size),
                ..state
            },
        }
    }
}

/// Takes bytes of the response body from the guest, without waiting for room.
pub fn write_response_body(
    memory: &mut [u8],
    state: &mut EndpointState,
    data: u32,
    data_len: u32,
    bytes_written: u32,
) -> (res: Result<i32, WasmHandlerError>)
    requires
        old(state).wf(),
    ensures
        final(state).wf(),
        (Outcome { result: res, memory: final(memory)@, state: final(state)@ })
            == write_response_body_outcome(old(memory)@, old(state)@, data, data_len, bytes_written),
{
    if !check_region(memory, data, data_len as u64) {
        return Err(WasmHandlerError::MemoryAccess);
    }
    let free: usize = RESPONSE_BODY_CAPACITY - state.outbound_len();
    if free == 0 {
        return Ok(ERRNO_WOULD_BLOCK);
    }
    let sz: u32 = if (data_len as usize) < free {
        data_len
    } else {
        free as u32
    };
    if !check_region(memory, bytes_written, 4) {
        return Err(WasmHandlerError::MemoryAccess);
    }
    let size: usize = memory.len();
    let start: usize = data as usize;
    let offered = vstd::slice::slice_subrange(memory, start, start + sz as usize);
    state.push_outbound(offered);
    match set_ret_len(memory, bytes_written, sz) {
        Ok(()) => Ok(ERRNO_OK),
        Err(e) => Err(e),
    }
}

} // verus!
