use vstd::prelude::*;
use crate::error::WasmHandlerError;
use crate::wire::{encode_u32, u32_le_bytes};

verus! {

/// Whether `len` bytes starting at `offset` lie inside a memory of `size` bytes.
pub open spec fn in_bounds(size: nat, offset: int, len: int) -> bool {
    0 <= offset && 0 <= len && offset + len <= size
}

/// The memory with the `len` bytes at `offset` replaced by `data`: the bytes before
/// `offset` as they were, then `data`, then the bytes from `offset + len` on as they
/// were.
pub open spec fn splice(memory: Seq<u8>, offset: int, len: int, data: Seq<u8>) -> Seq<u8> {
    memory.subrange(0, offset) + data + memory.subrange(offset + len, memory.len() as int)
}

/// The memory after `data` has been stored at `offset`, over as many bytes as it has.
pub open spec fn write_at(memory: Seq<u8>, offset: int, data: Seq<u8>) -> Seq<u8> {
    splice(memory, offset, data.len() as int, data)
}

/// The `len` bytes of the memory that start at `offset`.
pub open spec fn read_at(memory: Seq<u8>, offset: int, len: int) -> Seq<u8> {
    memory.subrange(offset, offset + len)
}

/// The guest's exported memory, or the failure that its absence is.
pub fn get_memory<M>(export: Option<M>) -> (res: Result<M, WasmHandlerError>)
    ensures
        res == match export {
            Some(memory) => Ok::<M, WasmHandlerError>(memory),
            None => Err::<M, WasmHandlerError>(WasmHandlerError::MemoryNotFound),
        },
{
    match export {
        Some(memory) => Ok(memory),
        None => Err(WasmHandlerError::MemoryNotFound),
    }
}

/// Whether the region is one that [`get_memory_slice_mut`] hands out.
pub fn check_region(memory: &[u8], offset: u32, len: u64) -> (ok: bool)
    ensures
        ok == in_bounds(memory@.len(), offset as int, len as int),
{
    let size: usize = memory.len();
    len <= size as u64 && offset as u64 <= size as u64 - len
}

fn region_mut(memory: &mut [u8], offset: u32, len: usize) -> (res: Result<
    &mut [u8],
    WasmHandlerError,
>)
    ensures
        res.is_ok() <==> in_bounds(old(memory)@.len(), offset as int, len as int),
        res.is_err() ==> res.unwrap_err() == WasmHandlerError::MemoryAccess && final(memory)@
            == old(memory)@,
        res.is_ok() ==> {
            let region = res.unwrap();
            &&& region@ == read_at(old(memory)@, offset as int, len as int)
            &&& final(memory)@ == splice(old(memory)@, offset as int, len as int, final(region)@)
        },
{
    if !check_region(memory, offset, len as u64) {
        return Err(WasmHandlerError::MemoryAccess);
    }
    let ghost before = memory@;
    let (_head, rest) = memory.split_at_mut(offset as usize);
    let (region, _tail) = rest.split_at_mut(len);
    proof {
        assert(region@ =~= read_at(before, offset as int, len as int));
        assert(before.subrange(offset as int, before.len() as int).subrange(
            len as int,
            before.len() - offset,
        ) =~= before.subrange(offset + len, before.len() as int));
    }
    Ok(region)
}

/// The region of `len` bytes at `offset`, for reading and writing, if it lies
/// inside the memory. What is written through the region is what the memory
/// holds there afterwards; the rest of the memory stays as it was.
pub fn get_memory_slice_mut(memory: &mut [u8], offset: u32, len: u32) -> (res: Result<
    &mut [u8],
    WasmHandlerError,
>)
    ensures
        res.is_ok() <==> in_bounds(old(memory)@.len(), offset as int, len as int),
        res.is_err() ==> res.unwrap_err() == WasmHandlerError::MemoryAccess && final(memory)@
            == old(memory)@,
        res.is_ok() ==> {
            let region = res.unwrap();
            &&& region@ == read_at(old(memory)@, offset as int, len as int)
            &&& final(memory)@ == splice(old(memory)@, offset as int, len as int, final(region)@)
        },
{
    region_mut(memory, offset, len as usize)
}

/// Overwrites the whole of `dst` with `src`.
pub fn copy_into(dst: &mut [u8], src: &[u8])
    requires
        old(dst)@.len() == src@.len(),
    ensures
        final(dst)@ == src@,
{
    let n: usize = src.len();
    let mut i: usize = 0;
    while i < n
        invariant
            n == src@.len(),
            dst@.len() == n,
            i <= n,
            forall|k: int| 0 <= k < i ==> dst@[k] == src@[k],
        decreases n - i,
    {
        dst[i] = src[i];
        i += 1;
    }
    assert(dst@ =~= src@);
}

/// Stores `data` at `offset`, or fails and leaves the memory as it was.
pub fn store(memory: &mut [u8], offset: u32, data: &[u8]) -> (res: Result<(), WasmHandlerError>)
    ensures
        res.is_ok() <==> in_bounds(old(memory)@.len(), offset as int, data@.len() as int),
        res.is_ok() ==> final(memory)@ == write_at(old(memory)@, offset as int, data@),
        res.is_err() ==> res.unwrap_err() == WasmHandlerError::MemoryAccess && final(memory)@
            == old(memory)@,
{
    match region_mut(memory, offset, data.len()) {
        Ok(region) => {
            copy_into(region, data);
            Ok(())
        },
        Err(e) => Err(e),
    }
}

/// Reports a length to the guest: stores `ret_len` at `buf` as four bytes, least
/// significant first.
pub fn set_ret_len(memory: &mut [u8], buf: u32, ret_len: u32) -> (res: Result<
    (),
    WasmHandlerError,
>)
    ensures
        res.is_ok() <==> in_bounds(old(memory)@.len(), buf as int, 4),
        res.is_ok() ==> final(memory)@ == write_at(old(memory)@, buf as int, u32_le_bytes(ret_len)),
        res.is_err() ==> res.unwrap_err() == WasmHandlerError::MemoryAccess && final(memory)@
            == old(memory)@,
{
    let bytes: [u8; 4] = encode_u32(ret_len);
    store(memory, buf, bytes.as_slice())
}

} // verus!
