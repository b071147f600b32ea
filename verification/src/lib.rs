//! The host side of a small interface through which a sandboxed guest module
//! handles one HTTP request: checked access to the guest's memory, the request
//! text and body handed in, the response status, headers and body taken out
//! through bounded buffers, and the steps of the one call that waits.

pub mod buffer;
pub mod error;
pub mod ffi;
pub mod host;
pub mod laws;
pub mod memory;
pub mod poll;
pub mod response;
pub mod state;
pub mod wire;
