use vstd::prelude::*;
use vstd::string::*;
use vstd::utf8::encode_utf8;
use bytes::BytesMut;
use crate::buffer::{
    buf_advance, buf_as_slice, buf_extend, buf_len, buf_new, buf_split_to, buffered,
};

verus! {

/// The most bytes of the response body that the host holds back for the sink.
pub const RESPONSE_BODY_CAPACITY: usize = 4096;

/// The most bytes that one read of the request body's source brings.
pub const REQUEST_BODY_CHUNK: usize = 4096;

/// What the host keeps for one exchange of a request and a response.
pub struct EndpointState {
    request: String,
    request_body_buf: BytesMut,
    response_body_buf: BytesMut,
    request_body_eof: bool,
    response_announced: bool,
}

/// What an [`EndpointState`] holds, as plain values.
pub ghost struct EndpointView {
    /// The request line and headers, as bytes.
    pub request_text: Seq<u8>,
    /// The bytes of the request body that have arrived and that the guest has not
    /// read, oldest first.
    pub inbound: Seq<u8>,
    /// Whether the request body's source has reported its end.
    pub inbound_eof: bool,
    /// The bytes of the response body that the guest has written and that the sink
    /// has not taken, oldest first.
    pub outbound: Seq<u8>,
    /// Whether a status and headers have been announced.
    pub response_announced: bool,
}

impl EndpointView {
    /// The response body held back is within its capacity, and the request text's
    /// length can be reported to the guest.
    pub open spec fn wf(self) -> bool {
        &&& self.outbound.len() <= RESPONSE_BODY_CAPACITY
        &&& self.request_text.len() <= u32::MAX
    }

    /// How many more bytes of the response body the host accepts.
    pub open spec fn free_capacity(self) -> int {
        RESPONSE_BODY_CAPACITY - self.outbound.len()
    }
}

impl View for EndpointState {
    type V = EndpointView;

    closed spec fn view(&self) -> EndpointView {
        EndpointView {
            request_text: encode_utf8(self.request@),
            inbound: buffered(self.request_body_buf),
            inbound_eof: self.request_body_eof,
            outbound: buffered(self.response_body_buf),
            response_announced: self.response_announced,
        }
    }
}

impl EndpointState {
    /// The invariant of the state: see [`EndpointView::wf`].
    pub open spec fn wf(&self) -> bool {
        self@.wf()
    }

    /// The state at the start of an exchange: nothing buffered, nothing announced.
    /// There is none for a request text whose length does not fit 32 bits.
    pub fn new(request: String) -> (res: Option<EndpointState>)
        ensures
            res.is_some() <==> encode_utf8(request@).len() <= u32::MAX,
            res.is_some() ==> res.unwrap().wf() && res.unwrap()@ == (EndpointView {
                request_text: encode_utf8(request@),
                inbound: Seq::<u8>::empty(),
                inbound_eof: false,
                outbound: Seq::<u8>::empty(),
                response_announced: false,
            }),
    {
        if request.as_str().as_bytes().len() > u32::MAX as usize {
            return None;
        }
        Some(
            EndpointState {
                request,
                request_body_buf: buf_new(),
                response_body_buf: buf_new(),
                request_body_eof: false,
                response_announced: false,
            },
        )
    }

    /// The request line and headers.
    pub fn request_bytes(&self) -> (bytes: &[u8])
        ensures
            bytes@ == self@.request_text,
    {
        self.request.as_str().as_bytes()
    }

    /// How many bytes of the request body wait for the guest.
    pub fn inbound_len(&self) -> (n: usize)
        ensures
            n == self@.inbound.len(),
    {
        buf_len(&self.request_body_buf)
    }

    /// The bytes of the request body that wait for the guest.
    pub fn inbound_bytes(&self) -> (bytes: &[u8])
        ensures
            bytes@ == self@.inbound,
    {
        buf_as_slice(&self.request_body_buf)
    }

    /// How many bytes of the response body wait for the sink.
    pub fn outbound_len(&self) -> (n: usize)
        ensures
            n == self@.outbound.len(),
    {
        buf_len(&self.response_body_buf)
    }

    /// The bytes of the response body that wait for the sink.
    pub fn outbound_bytes(&self) -> (bytes: &[u8])
        ensures
            bytes@ == self@.outbound,
    {
        buf_as_slice(&self.response_body_buf)
    }

    /// Whether the request body's source has reported its end.
    pub fn is_inbound_eof(&self) -> (eof: bool)
        ensures
            eof == self@.inbound_eof,
    {
        self.request_body_eof
    }

    /// Whether a status and headers have been announced.
    pub fn is_response_announced(&self) -> (announced: bool)
        ensures
            announced == self@.response_announced,
    {
        self.response_announced
    }

    /// Takes the oldest `n` bytes of the request body out of the buffer.
    pub(crate) fn take_inbound(&mut self, n: usize) -> (front: BytesMut)
        requires
            n <= old(self)@.inbound.len(),
        ensures
            buffered(front) == old(self)@.inbound.subrange(0, n as int),
            final(self)@ == (EndpointView {
                inbound: old(self)@.inbound.subrange(n as int, old(self)@.inbound.len() as int),
                ..old(self)@
            }),
    {
        buf_split_to(&mut self.request_body_buf, n)
    }

    /// Puts bytes of the request body that have arrived behind those that wait.
    pub(crate) fn push_inbound(&mut self, data: &[u8])
        ensures
            final(self)@ == (EndpointView { inbound: old(self)@.inbound + data@, ..old(self)@ }),
    {
        buf_extend(&mut self.request_body_buf, data)
    }

    /// Notes that the request body's source has reported its end.
    pub(crate) fn close_inbound(&mut self)
        ensures
            final(self)@ == (EndpointView { inbound_eof: true, ..old(self)@ }),
    {
        self.request_body_eof = true;
    }

    /// Puts bytes of the response body behind those that wait for the sink.
    pub(crate) fn push_outbound(&mut self, data: &[u8])
        ensures
            final(self)@ == (EndpointView { outbound: old(self)@.outbound + data@, ..old(self)@ }),
    {
        buf_extend(&mut self.response_body_buf, data)
    }

    /// Drops the oldest `n` bytes of the response body, which the sink has taken.
    pub(crate) fn drain_outbound(&mut self, n: usize)
        requires
            n <= old(self)@.outbound.len(),
        ensures
            final(self)@ == (EndpointView {
                outbound: old(self)@.outbound.subrange(n as int, old(self)@.outbound.len() as int),
                ..old(self)@
            }),
    {
        buf_advance(&mut self.response_body_buf, n)
    }

    /// Notes that a status and headers have been announced.
    pub(crate) fn mark_announced(&mut self)
        ensures
            final(self)@ == (EndpointView { response_announced: true, ..old(self)@ }),
    {
        self.response_announced = true;
    }
}

} // verus!
