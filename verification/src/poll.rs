use vstd::prelude::*;
use crate::error::WasmHandlerError;
use crate::ffi::{
    event_record, read_subscriptions, subscriptions_at, write_event, RawEvent, RawSubscription,
    ERRNO_OK, ERRNO_UNKNOWN, EVENT_SIZE, SUBSCRIPTION_SIZE, SUBSCRIPTION_TYPE_REQUEST_READ,
    SUBSCRIPTION_TYPE_RESPONSE_WRITE, SUBSCRIPTION_TYPE_TIMEOUT,
};
use crate::memory::{check_region, in_bounds, write_at};
use crate::state::{EndpointState, EndpointView};

verus! {

/// A timer that a wait starts.
#[derive(Clone, Copy, Debug, PartialEq, Eq, Structural)]
pub struct Timer {
    /// The `userdata` of the subscription that asked for it.
    pub userdata: u64,
    /// How long it runs, in milliseconds.
    pub millis: u64,
}

/// The sources that one wait drives, each to resolve with one event; the first
/// that does ends the wait.
#[derive(Debug)]
pub struct PollPlan {
    /// Read the request body's source once; the `userdata` to answer with.
    pub request_read: Option<u64>,
    /// Offer the response body held back to the sink once; the `userdata` to
    /// answer with.
    pub response_write: Option<u64>,
    /// The timers to start, in the order in which they were asked for.
    pub timeouts: Vec<Timer>,
}

/// A [`PollPlan`] as plain values.
pub ghost struct PollPlanView {
    pub request_read: Option<u64>,
    pub response_write: Option<u64>,
    pub timeouts: Seq<Timer>,
}

impl View for PollPlan {
    type V = PollPlanView;

    open spec fn view(&self) -> PollPlanView {
        PollPlanView {
            request_read: self.request_read,
            response_write: self.response_write,
            timeouts: self.timeouts@,
        }
    }
}

impl PollPlan {
    /// Whether the plan drives no source at all, so that a wait on it would never
    /// end: none of the subscriptions had a tag that the host knows.
    pub fn is_empty(&self) -> (empty: bool)
        ensures
            empty == (self@.request_read is None && self@.response_write is None
                && self@.timeouts.len() == 0),
    {
        self.request_read.is_none() && self.response_write.is_none() && self.timeouts.len() == 0
    }
}

/// Whether the subscription at `i` has the tag `ty` and none before it has.
pub open spec fn is_first_of_kind(subscriptions: Seq<RawSubscription>, ty: u32, i: int) -> bool {
    &&& 0 <= i < subscriptions.len()
    &&& subscriptions[i].ty == ty
    &&& forall|j: int| 0 <= j < i ==> (#[trigger] subscriptions[j]).ty != ty
}

/// The `userdata` of the first subscription with the tag `ty`, if there is one.
pub open spec fn first_of_kind(subscriptions: Seq<RawSubscription>, ty: u32) -> Option<u64> {
    if exists|i: int| is_first_of_kind(subscriptions, ty, i) {
        Some(subscriptions[choose|i: int| is_first_of_kind(subscriptions, ty, i)].userdata)
    } else {
        None
    }
}

/// The timer that a timeout subscription asks for.
pub open spec fn timer_of(subscription: RawSubscription) -> Timer {
    Timer { userdata: subscription.userdata, millis: subscription.timeout as u64 }
}

/// One timer for each timeout subscription, in their order.
pub open spec fn timers_of(subscriptions: Seq<RawSubscription>) -> Seq<Timer>
    decreases subscriptions.len(),
{
    if subscriptions.len() == 0 {
        Seq::empty()
    } else {
        let before = timers_of(subscriptions.drop_last());
        if subscriptions.last().ty == SUBSCRIPTION_TYPE_TIMEOUT {
            before.push(timer_of(subscriptions.last()))
        } else {
            before
        }
    }
}

/// The sources that a list of subscriptions asks for: the first request-read
/// subscription, the first response-write subscription, and every timeout.
pub open spec fn plan_of(subscriptions: Seq<RawSubscription>) -> PollPlanView {
    PollPlanView {
        request_read: first_of_kind(subscriptions, SUBSCRIPTION_TYPE_REQUEST_READ),
        response_write: first_of_kind(subscriptions, SUBSCRIPTION_TYPE_RESPONSE_WRITE),
        timeouts: timers_of(subscriptions),
    }
}

fn find_first(subscriptions: &[RawSubscription], ty: u32) -> (found: Option<u64>)
    ensures
        found == first_of_kind(subscriptions@, ty),
{
    let n: usize = subscriptions.len();
    let mut i: usize = 0;
    while i < n
        invariant
            n == subscriptions@.len(),
            i <= n,
            forall|j: int| 0 <= j < i ==> (#[trigger] subscriptions@[j]).ty != ty,
        decreases n - i,
    {
        if subscriptions[i].ty == ty {
            proof {
                assert(is_first_of_kind(subscriptions@, ty, i as int));
                let k = choose|k: int| is_first_of_kind(subscriptions@, ty, k);
                assert(k == i) by {
                    if k < i {
                        assert(subscriptions@[k].ty != ty);
                    } else if i < k {
                        assert(subscriptions@[i as int].ty != ty);
                    }
                }
            }
            return Some(subscriptions[i].userdata);
        }
        i += 1;
    }
    assert(forall|k: int| !is_first_of_kind(subscriptions@, ty, k));
    None
}

fn collect_timers(subscriptions: &[RawSubscription]) -> (timers: Vec<Timer>)
    ensures
        timers@ == timers_of(subscriptions@),
{
    let n: usize = subscriptions.len();
    let mut timers: Vec<Timer> = Vec::new();
    let mut i: usize = 0;
    while i < n
        invariant
            n == subscriptions@.len(),
            i <= n,
            timers@ == timers_of(subscriptions@.take(i as int)),
        decreases n - i,
    {
        let subscription = subscriptions[i];
        proof {
            assert(subscriptions@.take(i + 1).drop_last() =~= subscriptions@.take(i as int));
        }
        if subscription.ty == SUBSCRIPTION_TYPE_TIMEOUT {
            timers.push(Timer { userdata: subscription.userdata, millis: subscription.timeout as u64 });
        }
        i += 1;
    }
    assert(subscriptions@.take(n as int) =~= subscriptions@);
    timers
}

/// Chooses the sources that a wait drives.
pub fn plan_poll(subscriptions: &[RawSubscription]) -> (plan: PollPlan)
    ensures
        plan@ == plan_of(subscriptions@),
{
    PollPlan {
        request_read: find_first(subscriptions, SUBSCRIPTION_TYPE_REQUEST_READ),
        response_write: find_first(subscriptions, SUBSCRIPTION_TYPE_RESPONSE_WRITE),
        timeouts: collect_timers(subscriptions),
    }
}

/// The first step of a wait: reads the guest's subscriptions and chooses the
/// sources to drive. A wait on nothing fails before anything is read.
pub fn poll_begin(memory: &[u8], subscriptions: u32, num_subscriptions: u32) -> (res: Result<
    PollPlan,
    WasmHandlerError,
>)
    ensures
        res == Err::<PollPlan, WasmHandlerError>(WasmHandlerError::NoSubscriptions)
            <==> num_subscriptions == 0,
        res == Err::<PollPlan, WasmHandlerError>(WasmHandlerError::MemoryAccess)
            <==> num_subscriptions != 0 && !in_bounds(
            memory@.len(),
            subscriptions as int,
            SUBSCRIPTION_SIZE * num_subscriptions,
        ),
        res.is_ok() <==> num_subscriptions != 0 && in_bounds(
            memory@.len(),
            subscriptions as int,
            SUBSCRIPTION_SIZE * num_subscriptions,
        ),
        res.is_ok() ==> res.unwrap()@ == plan_of(
            subscriptions_at(memory@, subscriptions as int, num_subscriptions as nat),
        ),
{
    if num_subscriptions == 0 {
        return Err(WasmHandlerError::NoSubscriptions);
    }
    match read_subscriptions(memory, subscriptions, num_subscriptions) {
        Ok(list) => Ok(plan_poll(list.as_slice())),
        Err(e) => Err(e),
    }
}

/// How a source that a wait drove has ended.
#[derive(Debug)]
pub enum Completion {
    /// The read of the request body's source: the bytes that it brought, none at
    /// the end of the body; or `None` where the read failed.
    RequestRead { userdata: u64, read: Option<Vec<u8>> },
    /// The write to the response body's sink: how many of the bytes held back it
    /// took; or `None` where the write failed.
    ResponseWrite { userdata: u64, written: Option<usize> },
    /// A timer has run out.
    Timeout { userdata: u64 },
}

/// The event that the guest is woken with.
pub open spec fn event_of(completion: Completion) -> RawEvent {
    match completion {
        Completion::RequestRead { userdata, read } => RawEvent {
            ty: SUBSCRIPTION_TYPE_REQUEST_READ,
            userdata,
            errno: if read.is_some() {
                ERRNO_OK
            } else {
                ERRNO_UNKNOWN
            },
        },
        Completion::ResponseWrite { userdata, written } => RawEvent {
            ty: SUBSCRIPTION_TYPE_RESPONSE_WRITE,
            userdata,
            errno: if written.is_some() {
                ERRNO_OK
            } else {
                ERRNO_UNKNOWN
            },
        },
        Completion::Timeout { userdata } => RawEvent {
            ty: SUBSCRIPTION_TYPE_TIMEOUT,
            userdata,
            errno: ERRNO_OK,
        },
    }
}

/// Whether the sink took no more than was held back for it.
pub open spec fn admissible(state: EndpointView, completion: Completion) -> bool {
    match completion {
        Completion::ResponseWrite { written: Some(n), .. } => n <= state.outbound.len(),
        _ => true,
    }
}

/// The state after a source has ended. A read that brought bytes puts them behind
/// those that wait for the guest; a read that brought none marks the end of the
/// request body; a write drops what the sink took from the front of the response
/// body held back. A failure and a timer change nothing.
pub open spec fn state_after(state: EndpointView, completion: Completion) -> EndpointView {
    match completion {
        Completion::RequestRead { read: Some(data), .. } => if data@.len() == 0 {
            EndpointView { inbound_eof: true, ..state }
        } else {
            EndpointView { inbound: state.inbound + data@, ..state }
        },
        Completion::ResponseWrite { written: Some(n), .. } => EndpointView {
            outbound: state.outbound.subrange(n as int, state.outbound.len() as int),
            ..state
        },
        _ => state,
    }
}

/// Applies the end of the one source that ended first, and gives the event to wake
/// the guest with.
pub fn resolve(state: &mut EndpointState, completion: &Completion) -> (event: RawEvent)
    requires
        old(state).wf(),
        admissible(old(state)@, *completion),
    ensures
        event == event_of(*completion),
        final(state)@ == state_after(old(state)@, *completion),
        final(state).wf(),
{
    match completion {
        Completion::RequestRead { userdata, read } => {
            match read {
                Some(data) => {
                    if data.len() == 0 {
                        state.close_inbound();
                    } else {
                        state.push_inbound(data.as_slice());
                    }
                    RawEvent {
                        ty: SUBSCRIPTION_TYPE_REQUEST_READ,
                        userdata: *userdata,
                        errno: ERRNO_OK,
                    }
                },
                None => RawEvent {
                    ty: SUBSCRIPTION_TYPE_REQUEST_READ,
                    userdata: *userdata,
                    errno: ERRNO_UNKNOWN,
                },
            }
        },
        Completion::ResponseWrite { userdata, written } => {
            match written {
                Some(n) => {
                    state.drain_outbound(*n);
                    RawEvent {
                        ty: SUBSCRIPTION_TYPE_RESPONSE_WRITE,
                        userdata: *userdata,
                        errno: ERRNO_OK,
                    }
                },
                None => RawEvent {
                    ty: SUBSCRIPTION_TYPE_RESPONSE_WRITE,
                    userdata: *userdata,
                    errno: ERRNO_UNKNOWN,
                },
            }
        },
        Completion::Timeout { userdata } => RawEvent {
            ty: SUBSCRIPTION_TYPE_TIMEOUT,
            userdata: *userdata,
            errno: ERRNO_OK,
        },
    }
}

/// The last step of a wait: applies the end of the source that ended first and
/// writes its event at `event`. Where the event's place reaches past the end of
/// the memory, nothing is applied and nothing is written.
pub fn poll_finish(
    memory: &mut [u8],
    state: &mut EndpointState,
    event: u32,
    completion: &Completion,
) -> (res: Result<(), WasmHandlerError>)
    requires
        old(state).wf(),
        admissible(old(state)@, *completion),
    ensures
        final(state).wf(),
        res.is_ok() <==> in_bounds(old(memory)@.len(), event as int, EVENT_SIZE as int),
        res.is_ok() ==> {
            &&& final(state)@ == state_after(old(state)@, *completion)
            &&& final(memory)@ == write_at(
                old(memory)@,
                event as int,
                event_record(event_of(*completion)),
            )
        },
        res.is_err() ==> {
            &&& res.unwrap_err() == WasmHandlerError::MemoryAccess
            &&& final(state)@ == old(state)@
            &&& final(memory)@ == old(memory)@
        },
{
    if !check_region(memory, event, EVENT_SIZE as u64) {
        return Err(WasmHandlerError::MemoryAccess);
    }
    let raw = resolve(state, completion);
    write_event(memory, event, &raw)
}

} // verus!
