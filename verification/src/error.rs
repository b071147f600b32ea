use vstd::prelude::*;

verus! {

/// The ways in which a host call ends a guest invocation.
#[derive(Clone, Copy, Debug, PartialEq, Eq, Structural)]
pub enum WasmHandlerError {
    /// The guest exports no linear memory.
    MemoryNotFound,
    /// An offset and length reach past the end of the guest's memory.
    MemoryAccess,
    /// The status is no HTTP status code.
    InvalidStatusCode,
    /// The header block is not UTF-8 text.
    InvalidHeaders,
    /// A wait was asked for with nothing to wait on.
    NoSubscriptions,
}

impl WasmHandlerError {
    /// A few words that name the failure.
    pub fn message(&self) -> (text: &'static str)
        ensures
            text@ == match *self {
                WasmHandlerError::MemoryNotFound => "memory not found"@,
                WasmHandlerError::MemoryAccess => "memory access"@,
                WasmHandlerError::InvalidStatusCode => "invalid status code"@,
                WasmHandlerError::InvalidHeaders => "invalid header block"@,
                WasmHandlerError::NoSubscriptions => "no subscriptions"@,
            },
    {
        match self {
            WasmHandlerError::MemoryNotFound => "memory not found",
            WasmHandlerError::MemoryAccess => "memory access",
            WasmHandlerError::InvalidStatusCode => "invalid status code",
            WasmHandlerError::InvalidHeaders => "invalid header block",
            WasmHandlerError::NoSubscriptions => "no subscriptions",
        }
    }
}

} // verus!
