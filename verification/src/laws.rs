use vstd::prelude::*;
use crate::error::WasmHandlerError;
use crate::ffi::{RawSubscription, ERRNO_OK, ERRNO_WOULD_BLOCK, SUBSCRIPTION_TYPE_TIMEOUT};
use crate::host::{
    accepted, handed_out, left_waiting, read_request_body_outcome, read_request_memory, read_size,
    write_response_body_outcome,
};
use crate::memory::{in_bounds, read_at, write_at};
use crate::poll::{
    first_of_kind, is_first_of_kind, state_after, timer_of, timers_of, Completion,
};
use crate::state::{EndpointView, RESPONSE_BODY_CAPACITY};
use crate::wire::u32_le_bytes;

verus! {

/// Storing bytes inside a memory keeps its size, puts the bytes where they were
/// stored and leaves every other byte as it was.
pub proof fn lemma_write_at(memory: Seq<u8>, offset: int, data: Seq<u8>)
    requires
        in_bounds(memory.len(), offset, data.len() as int),
    ensures
        write_at(memory, offset, data).len() == memory.len(),
        read_at(write_at(memory, offset, data), offset, data.len() as int) == data,
        forall|i: int|
            0 <= i < memory.len() && !(offset <= i < offset + data.len()) ==> write_at(
                memory,
                offset,
                data,
            )[i] == memory[i],
{
    assert(read_at(write_at(memory, offset, data), offset, data.len() as int) =~= data);
}

/// A guest buffer too short for the request text gets none of it: the true length
/// is reported, and every byte of the memory outside the report is as it was.
pub proof fn lemma_short_buffer_gets_the_length_only(
    memory: Seq<u8>,
    text: Seq<u8>,
    buf: u32,
    buf_len: u32,
    request_len: u32,
)
    requires
        text.len() <= u32::MAX,
        buf_len < text.len(),
        in_bounds(memory.len(), request_len as int, 4),
    ensures
        read_request_memory(memory, text, buf, buf_len, request_len).is_some(),
        ({
            let after = read_request_memory(memory, text, buf, buf_len, request_len).unwrap();
            &&& after.len() == memory.len()
            &&& read_at(after, request_len as int, 4) == u32_le_bytes(text.len() as u32)
            &&& forall|i: int|
                0 <= i < memory.len() && !(request_len <= i < request_len + 4) ==> after[i]
                    == memory[i]
        }),
{
    lemma_write_at(memory, request_len as int, u32_le_bytes(text.len() as u32));
}

/// A guest buffer with room for the request text gets all of it, byte for byte,
/// and the true length is reported. The place of the report must not lie inside
/// the buffer: the report is written last.
pub proof fn lemma_long_buffer_gets_the_text(
    memory: Seq<u8>,
    text: Seq<u8>,
    buf: u32,
    buf_len: u32,
    request_len: u32,
)
    requires
        text.len() <= u32::MAX,
        buf_len >= text.len(),
        in_bounds(memory.len(), buf as int, text.len() as int),
        in_bounds(memory.len(), request_len as int, 4),
        buf + text.len() <= request_len || request_len + 4 <= buf,
    ensures
        read_request_memory(memory, text, buf, buf_len, request_len).is_some(),
        ({
            let after = read_request_memory(memory, text, buf, buf_len, request_len).unwrap();
            &&& after.len() == memory.len()
            &&& read_at(after, buf as int, text.len() as int) == text
            &&& read_at(after, request_len as int, 4) == u32_le_bytes(text.len() as u32)
            &&& forall|i: int|
                0 <= i < memory.len() && !(buf <= i < buf + text.len()) && !(request_len <= i
                    < request_len + 4) ==> after[i] == memory[i]
        }),
{
    let stored = write_at(memory, buf as int, text);
    let after = write_at(stored, request_len as int, u32_le_bytes(text.len() as u32));
    lemma_write_at(memory, buf as int, text);
    lemma_write_at(stored, request_len as int, u32_le_bytes(text.len() as u32));
    assert(read_at(after, buf as int, text.len() as int) =~= text);
}

/// Once the end of the request body has been seen, a read never asks the guest to
/// wait and leaves the state as it is, so that the same holds of the next read;
/// where the place of its report lies inside the memory it succeeds and reports
/// zero bytes.
pub proof fn lemma_read_after_the_end(
    memory: Seq<u8>,
    state: EndpointView,
    buf: u32,
    buf_len: u32,
    bytes_read: u32,
)
    requires
        state.inbound_eof,
    ensures
        ({
            let outcome = read_request_body_outcome(memory, state, buf, buf_len, bytes_read);
            &&& outcome.result != Ok::<i32, WasmHandlerError>(ERRNO_WOULD_BLOCK)
            &&& outcome.state == state
            &&& outcome.result.is_ok() <==> in_bounds(memory.len(), bytes_read as int, 4)
            &&& outcome.result.is_ok() ==> outcome.result == Ok::<i32, WasmHandlerError>(ERRNO_OK)
                && read_at(outcome.memory, bytes_read as int, 4) == u32_le_bytes(0)
        }),
{
    if in_bounds(memory.len(), bytes_read as int, 4) {
        lemma_write_at(memory, bytes_read as int, u32_le_bytes(0));
    }
}

/// The end of the request body, once seen, stays seen: no read, no write and no
/// end of a wait takes it back.
pub proof fn lemma_the_end_stays(
    memory: Seq<u8>,
    state: EndpointView,
    a: u32,
    b: u32,
    c: u32,
    completion: Completion,
)
    requires
        state.inbound_eof,
    ensures
        read_request_body_outcome(memory, state, a, b, c).state.inbound_eof,
        write_response_body_outcome(memory, state, a, b, c).state.inbound_eof,
        state_after(state, completion).inbound_eof,
{
}

/// A read that hands out bytes hands out the oldest that wait, as many as the
/// guest's buffer has room for, stores them at the buffer and keeps the rest
/// waiting in their order. The place of the report must not lie inside the part of
/// the buffer that was filled.
pub proof fn lemma_read_hands_out_the_oldest(
    memory: Seq<u8>,
    state: EndpointView,
    buf: u32,
    buf_len: u32,
    bytes_read: u32,
)
    requires
        !state.inbound_eof,
        state.inbound.len() > 0,
        in_bounds(memory.len(), buf as int, read_size(state.inbound, buf_len) as int),
        in_bounds(memory.len(), bytes_read as int, 4),
        buf + read_size(state.inbound, buf_len) <= bytes_read || bytes_read + 4 <= buf,
    ensures
        ({
            let outcome = read_request_body_outcome(memory, state, buf, buf_len, bytes_read);
            let size = read_size(state.inbound, buf_len);
            &&& outcome.result == Ok::<i32, WasmHandlerError>(ERRNO_OK)
            &&& read_at(outcome.memory, buf as int, size as int) == handed_out(
                state.inbound,
                buf_len,
            )
            &&& read_at(outcome.memory, bytes_read as int, 4) == u32_le_bytes(size as u32)
            &&& outcome.state.inbound == left_waiting(state.inbound, buf_len)
            &&& handed_out(state.inbound, buf_len) + outcome.state.inbound == state.inbound
        }),
{
    let size = read_size(state.inbound, buf_len);
    let front = handed_out(state.inbound, buf_len);
    let stored = write_at(memory, buf as int, front);
    let after = write_at(stored, bytes_read as int, u32_le_bytes(size as u32));
    lemma_write_at(memory, buf as int, front);
    lemma_write_at(stored, bytes_read as int, u32_le_bytes(size as u32));
    assert(read_at(after, buf as int, size as int) =~= front);
    assert(front + left_waiting(state.inbound, buf_len) =~= state.inbound);
}

/// One thing that happens to the request body's buffer: bytes arrive from the
/// source, or the guest reads into a buffer of some size.
pub ghost enum BodyStep {
    Arrive(Seq<u8>),
    Read(u32),
}

/// All the bytes that arrive in the course of the steps, in their order.
pub open spec fn all_arrived(steps: Seq<BodyStep>) -> Seq<u8>
    decreases steps.len(),
{
    if steps.len() == 0 {
        Seq::empty()
    } else {
        match steps[0] {
            BodyStep::Arrive(data) => data + all_arrived(steps.drop_first()),
            BodyStep::Read(_) => all_arrived(steps.drop_first()),
        }
    }
}

/// All the bytes that the reads among the steps hand out, in their order, from a
/// buffer that starts with `inbound` waiting.
pub open spec fn all_handed_out(inbound: Seq<u8>, steps: Seq<BodyStep>) -> Seq<u8>
    decreases steps.len(),
{
    if steps.len() == 0 {
        Seq::empty()
    } else {
        match steps[0] {
            BodyStep::Arrive(data) => all_handed_out(inbound + data, steps.drop_first()),
            BodyStep::Read(buf_len) => handed_out(inbound, buf_len) + all_handed_out(
                left_waiting(inbound, buf_len),
                steps.drop_first(),
            ),
        }
    }
}

/// The bytes that wait after the steps, from a buffer that starts with `inbound`
/// waiting.
pub open spec fn still_waiting(inbound: Seq<u8>, steps: Seq<BodyStep>) -> Seq<u8>
    decreases steps.len(),
{
    if steps.len() == 0 {
        inbound
    } else {
        match steps[0] {
            BodyStep::Arrive(data) => still_waiting(inbound + data, steps.drop_first()),
            BodyStep::Read(buf_len) => still_waiting(
                left_waiting(inbound, buf_len),
                steps.drop_first(),
            ),
        }
    }
}

/// The request body passes through the buffer first in, first out: however
/// arrivals and reads follow one another, what the reads have handed out, followed
/// by what still waits, is what waited at first followed by what arrived. Nothing
/// is lost, doubled or out of its order.
pub proof fn lemma_body_is_first_in_first_out(inbound: Seq<u8>, steps: Seq<BodyStep>)
    ensures
        all_handed_out(inbound, steps) + still_waiting(inbound, steps) == inbound + all_arrived(
            steps,
        ),
    decreases steps.len(),
{
    if steps.len() == 0 {
        assert(Seq::<u8>::empty() + inbound =~= inbound + Seq::<u8>::empty());
    } else {
        let rest = steps.drop_first();
        match steps[0] {
            BodyStep::Arrive(data) => {
                lemma_body_is_first_in_first_out(inbound + data, rest);
                assert((inbound + data) + all_arrived(rest) =~= inbound + (data + all_arrived(
                    rest,
                )));
            },
            BodyStep::Read(buf_len) => {
                let front = handed_out(inbound, buf_len);
                let back = left_waiting(inbound, buf_len);
                lemma_body_is_first_in_first_out(back, rest);
                assert(front + back =~= inbound);
                assert((front + all_handed_out(back, rest)) + still_waiting(back, rest) =~= front
                    + (all_handed_out(back, rest) + still_waiting(back, rest)));
                assert(front + (back + all_arrived(rest)) =~= (front + back) + all_arrived(rest));
            },
        }
    }
}

/// The steps of [`lemma_body_is_first_in_first_out`] are what the host does: the
/// end of a read of the source puts the bytes that it brought behind those that
/// wait, and a read by the guest that succeeds before the end of the body keeps
/// waiting what [`left_waiting`] says.
pub proof fn lemma_steps_are_the_hosts(
    memory: Seq<u8>,
    state: EndpointView,
    userdata: u64,
    data: Vec<u8>,
    buf: u32,
    buf_len: u32,
    bytes_read: u32,
)
    ensures
        state_after(state, Completion::RequestRead { userdata, read: Some(data) }).inbound
            == state.inbound + data@,
        ({
            let outcome = read_request_body_outcome(memory, state, buf, buf_len, bytes_read);
            !state.inbound_eof && outcome.result == Ok::<i32, WasmHandlerError>(ERRNO_OK)
                ==> outcome.state.inbound == left_waiting(state.inbound, buf_len)
        }),
        ({
            let outcome = read_request_body_outcome(memory, state, buf, buf_len, bytes_read);
            outcome.result != Ok::<i32, WasmHandlerError>(ERRNO_OK) ==> outcome.state.inbound
                == state.inbound
        }),
{
    if data@.len() == 0 {
        assert(state.inbound + data@ =~= state.inbound);
    }
}

/// A write of the response body asks the guest to wait exactly where the bytes
/// offered lie inside the memory and no room is left. Where it succeeds it accepts
/// the smaller of the number offered and the room left, which is none for a write
/// of no bytes, and reports that number; the bytes held back stay within the
/// capacity, and what was held back before stays in front. Where it does not
/// succeed nothing has changed.
pub proof fn lemma_write_accepts_what_fits(
    memory: Seq<u8>,
    state: EndpointView,
    data: u32,
    data_len: u32,
    bytes_written: u32,
)
    requires
        state.wf(),
    ensures
        ({
            let outcome = write_response_body_outcome(memory, state, data, data_len, bytes_written);
            let room = RESPONSE_BODY_CAPACITY - state.outbound.len();
            let taken = outcome.state.outbound.len() - state.outbound.len();
            &&& outcome.state.wf()
            &&& outcome.state.outbound.len() <= RESPONSE_BODY_CAPACITY
            &&& outcome.state.outbound.subrange(0, state.outbound.len() as int) == state.outbound
            &&& 0 <= taken <= room
            &&& taken <= data_len
            &&& outcome.result == Ok::<i32, WasmHandlerError>(ERRNO_OK) ==> {
                &&& room > 0
                &&& taken == if data_len <= room {
                    data_len as int
                } else {
                    room
                }
                &&& read_at(outcome.memory, bytes_written as int, 4) == u32_le_bytes(taken as u32)
                &&& outcome.state.outbound == state.outbound + read_at(memory, data as int, taken)
            }
            &&& outcome.result != Ok::<i32, WasmHandlerError>(ERRNO_OK) ==> {
                &&& outcome.state == state
                &&& outcome.memory == memory
            }
            &&& outcome.result == Ok::<i32, WasmHandlerError>(ERRNO_WOULD_BLOCK) <==> in_bounds(
                memory.len(),
                data as int,
                data_len as int,
            ) && room == 0
            &&& outcome.result == Ok::<i32, WasmHandlerError>(ERRNO_OK) <==> in_bounds(
                memory.len(),
                data as int,
                data_len as int,
            ) && room > 0 && in_bounds(memory.len(), bytes_written as int, 4)
        }),
{
    let outcome = write_response_body_outcome(memory, state, data, data_len, bytes_written);
    let size = accepted(state, data_len);
    assert(outcome.state.outbound.subrange(0, state.outbound.len() as int) =~= state.outbound);
    if outcome.result == Ok::<i32, WasmHandlerError>(ERRNO_OK) {
        lemma_write_at(memory, bytes_written as int, u32_le_bytes(size as u32));
    }
}

/// The end of one source touches that source's part of the state and no other: a
/// read of the request body leaves the response body held back as it is, a write
/// of the response body leaves the request body's buffer and its end as they are,
/// and a timer leaves everything. What another source had to offer is still
/// there for the next wait.
pub proof fn lemma_one_source_resolves(state: EndpointView, completion: Completion)
    ensures
        state_after(state, completion).request_text == state.request_text,
        state_after(state, completion).response_announced == state.response_announced,
        completion is RequestRead ==> state_after(state, completion).outbound == state.outbound,
        completion is ResponseWrite ==> state_after(state, completion).inbound == state.inbound
            && state_after(state, completion).inbound_eof == state.inbound_eof,
        completion is Timeout ==> state_after(state, completion) == state,
{
}

proof fn lemma_some_is_first(subscriptions: Seq<RawSubscription>, ty: u32, i: int)
    requires
        0 <= i < subscriptions.len(),
        subscriptions[i].ty == ty,
    ensures
        exists|k: int| 0 <= k <= i && is_first_of_kind(subscriptions, ty, k),
    decreases i,
{
    if exists|j: int| 0 <= j < i && subscriptions[j].ty == ty {
        let j = choose|j: int| 0 <= j < i && subscriptions[j].ty == ty;
        lemma_some_is_first(subscriptions, ty, j);
    } else {
        assert(is_first_of_kind(subscriptions, ty, i));
    }
}

/// Of the subscriptions with one tag, the first is the one that a wait answers:
/// there is an answer exactly where some subscription has the tag, and it is the
/// `userdata` of the one before which none has it.
pub proof fn lemma_first_of_kind(subscriptions: Seq<RawSubscription>, ty: u32)
    ensures
        first_of_kind(subscriptions, ty) is None <==> forall|i: int|
            0 <= i < subscriptions.len() ==> (#[trigger] subscriptions[i]).ty != ty,
        forall|i: int|
            is_first_of_kind(subscriptions, ty, i) ==> first_of_kind(subscriptions, ty) == Some(
                subscriptions[i].userdata,
            ),
{
    if first_of_kind(subscriptions, ty) is None {
        assert forall|i: int| 0 <= i < subscriptions.len() implies (
        #[trigger] subscriptions[i]).ty != ty by {
            if subscriptions[i].ty == ty {
                lemma_some_is_first(subscriptions, ty, i);
            }
        }
    }
    assert forall|i: int| is_first_of_kind(subscriptions, ty, i) implies first_of_kind(
        subscriptions,
        ty,
    ) == Some(subscriptions[i].userdata) by {
        let k = choose|k: int| is_first_of_kind(subscriptions, ty, k);
        if k < i {
            assert(subscriptions[k].ty != ty);
        } else if i < k {
            assert(subscriptions[i].ty != ty);
        }
    }
}

/// A single subscription asks for one timer if it is a timeout, and for none if
/// it is not.
pub proof fn lemma_timers_of_one(subscription: RawSubscription)
    ensures
        timers_of(seq![subscription]) == if subscription.ty == SUBSCRIPTION_TYPE_TIMEOUT {
            seq![timer_of(subscription)]
        } else {
            Seq::empty()
        },
{
    let one = seq![subscription];
    assert(one.drop_last() =~= Seq::<RawSubscription>::empty());
    assert(timers_of(one.drop_last()) =~= Seq::empty());
    assert(timers_of(one) =~= if subscription.ty == SUBSCRIPTION_TYPE_TIMEOUT {
        seq![timer_of(subscription)]
    } else {
        Seq::empty()
    });
}

/// Every timeout among the subscriptions gets a timer of its own, in the order in
/// which they stand: the timers of a list are those of its front part followed by
/// those of its back part.
pub proof fn lemma_timers_of_concat(front: Seq<RawSubscription>, back: Seq<RawSubscription>)
    ensures
        timers_of(front + back) == timers_of(front) + timers_of(back),
    decreases back.len(),
{
    if back.len() == 0 {
        assert(front + back =~= front);
        assert(timers_of(front) + timers_of(back) =~= timers_of(front));
    } else {
        let whole = front + back;
        assert(whole.drop_last() =~= front + back.drop_last());
        assert(whole.last() == back.last());
        lemma_timers_of_concat(front, back.drop_last());
        if back.last().ty == SUBSCRIPTION_TYPE_TIMEOUT {
            assert(timers_of(whole) =~= timers_of(front) + timers_of(back));
        }
    }
}

} // verus!
