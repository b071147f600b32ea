use vstd::prelude::*;
use vstd::slice::slice_subrange;
use vstd::string::*;
use vstd::utf8::{encode_utf8, valid_utf8};
use crate::error::WasmHandlerError;
use crate::memory::{check_region, in_bounds, read_at};
use crate::state::{EndpointState, EndpointView};

verus! {

/// `http::StatusCode::from_u16`, then `StatusCode::as_u16` on what it accepts: a
/// number from 100 to 999 is a status code and is handed back as it came; any
/// other number is refused.
#[verifier::external_body]
fn status_from_u16(src: u16) -> (code: Option<u16>)
    ensures
        code == if 100 <= src <= 999 {
            Some(src)
        } else {
            None::<u16>
        },
{
    match poem::http::StatusCode::from_u16(src) {
        Ok(status) => Some(status.as_u16()),
        Err(_) => None,
    }
}

/// `std::str::from_utf8`: the bytes as text, where they are valid UTF-8; the text
/// is the one that these bytes encode.
#[verifier::external_body]
fn text_from_utf8<'a>(bytes: &'a [u8]) -> (text: Option<&'a str>)
    ensures
        text.is_some() <==> valid_utf8(bytes@),
        text.is_some() ==> encode_utf8(text.unwrap()@) == bytes@,
{
    std::str::from_utf8(bytes).ok()
}

/// The start of a response: what the guest announces before the body.
#[derive(Debug)]
pub struct Announcement {
    /// The HTTP status code, from 100 to 999.
    pub status: u16,
    /// The header block as the guest encoded it.
    pub headers: String,
}

/// Whether a number is an HTTP status code.
pub open spec fn is_status_code(status: u32) -> bool {
    100 <= status <= 999
}

/// The failure of an announcement, if it fails: the status is checked first, then
/// the place of the header block, then its text.
pub open spec fn send_response_failure(
    memory: Seq<u8>,
    status: u32,
    headers_buf: u32,
    headers_buf_len: u32,
) -> Option<WasmHandlerError> {
    if !is_status_code(status) {
        Some(WasmHandlerError::InvalidStatusCode)
    } else if !in_bounds(memory.len(), headers_buf as int, headers_buf_len as int) {
        Some(WasmHandlerError::MemoryAccess)
    } else if !valid_utf8(read_at(memory, headers_buf as int, headers_buf_len as int)) {
        Some(WasmHandlerError::InvalidHeaders)
    } else {
        None
    }
}

/// Takes the status and the header block that the guest announces. The first
/// announcement of an exchange is handed back for delivery; a later one is checked
/// in the same way and then dropped. A failure changes nothing.
pub fn send_response(
    memory: &[u8],
    state: &mut EndpointState,
    status: u32,
    headers_buf: u32,
    headers_buf_len: u32,
) -> (res: Result<Option<Announcement>, WasmHandlerError>)
    requires
        old(state).wf(),
    ensures
        final(state).wf(),
        match send_response_failure(memory@, status, headers_buf, headers_buf_len) {
            Some(failure) => res.is_err() && res.unwrap_err() == failure && final(state)@ == old(
                state,
            )@,
            None => {
                &&& res.is_ok()
                &&& final(state)@ == (EndpointView { response_announced: true, ..old(state)@ })
                &&& res.unwrap().is_some() <==> !old(state)@.response_announced
                &&& res.unwrap().is_some() ==> {
                    let announcement = res.unwrap().unwrap();
                    &&& announcement.status == status
                    &&& encode_utf8(announcement.headers@) == read_at(
                        memory@,
                        headers_buf as int,
                        headers_buf_len as int,
                    )
                }
            },
        },
{
    if status > u16::MAX as u32 {
        return Err(WasmHandlerError::InvalidStatusCode);
    }
    let code: u16 = match status_from_u16(status as u16) {
        Some(code) => code,
        None => {
            return Err(WasmHandlerError::InvalidStatusCode);
        },
    };
    if !check_region(memory, headers_buf, headers_buf_len as u64) {
        return Err(WasmHandlerError::MemoryAccess);
    }
    let size: usize = memory.len();
    let start: usize = headers_buf as usize;
    let block = slice_subrange(memory, start, start + headers_buf_len as usize);
    let text: &str = match text_from_utf8(block) {
        Some(text) => text,
        None => {
            return Err(WasmHandlerError::InvalidHeaders);
        },
    };
    let first: bool = !state.is_response_announced();
    state.mark_announced();
    if first {
        Ok(Some(Announcement { status: code, headers: String::from_str(text) }))
    } else {
        Ok(None)
    }
}

} // verus!
