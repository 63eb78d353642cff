//! In which order events are handled, which are handled again, and when that stops.
use crate::errors::HandlerError;
use crate::timed_event::TimedEvent;
use std::time::Duration;
use vstd::prelude::*;

verus! {

// ---------------------------------------------------------------------------
// Trying again
// ---------------------------------------------------------------------------

/// How many seconds an event waits before it is handled again.
pub const RETRY_SECONDS: u64 = 30;

/// Whether handling failed because too many requests were made.
pub open spec fn is_rate_limited(error: HandlerError) -> bool {
    error matches HandlerError::ClientSend(client) && client.status == Some(429u16)
}

/// How many seconds an event waits before it is handled again, where it is: after a failure
/// with too many requests, and after no other.
pub fn retry_after(error: &HandlerError) -> (seconds: Option<u64>)
    ensures
        seconds == (if is_rate_limited(*error) {
            Some(RETRY_SECONDS)
        } else {
            None
        }),
{
    match error {
        HandlerError::ClientSend(client) => match client.status {
            Some(status) if status == 429 => Some(RETRY_SECONDS),
            _ => None,
        },
        _ => None,
    }
}

/// A failure while channels or roles were being mirrored is not tried again, whatever it is.
pub proof fn mapping_failures_are_final(error: HandlerError)
    requires
        error is Mapping,
    ensures
        !is_rate_limited(error),
{
}

// ---------------------------------------------------------------------------
// The loop
// ---------------------------------------------------------------------------

/// What the loop can meet.
pub enum Happening<E> {
    /// An event came in.
    Incoming(E),
    /// The handling of an event has ended.
    Handled { event: E, outcome: Result<(), HandlerError> },
    /// The event that waits longest has waited for its time.
    Waited,
    /// No more events can come in, or be handled.
    Closed,
}

/// What is to be done now.
pub struct Orders<E> {
    /// The event whose handling begins.
    pub handle: Option<E>,
    /// How long the next event that failed waits from now on.
    pub wait: Option<Duration>,
    /// Whether the loop ends, and with it whatever is going on.
    pub stop: bool,
}

/// The events that are yet to be handled. One event is handled at a time, and one waits at a
/// time to be handled again.
pub struct EventLoop<E> {
    /// How long an event waits before it is handled again.
    pub retry_duration: Duration,
    /// Whether an event is being handled.
    pub handling: bool,
    /// The events that are to be handled next, in their order.
    pub queue: Vec<E>,
    /// The events that wait to be handled again. The time of the first one is running.
    pub waiting: Vec<TimedEvent<E>>,
    pub stopped: bool,
}

/// Whether an event is to be handled again after its handling has ended.
pub open spec fn is_retried(outcome: Result<(), HandlerError>) -> bool {
    outcome matches Err(error) && is_rate_limited(error)
}

impl<E> EventLoop<E> {
    /// Whether no event is left waiting to be handled while none is being handled.
    pub open spec fn wf(self) -> bool {
        self.handling || self.queue@.len() == 0
    }

    /// Whether nothing has happened yet.
    pub open spec fn begins(self) -> bool {
        &&& !self.handling
        &&& self.queue@.len() == 0
        &&& self.waiting@.len() == 0
        &&& !self.stopped
    }

    /// Whether something can happen now.
    pub open spec fn expects(self, happening: Happening<E>) -> bool {
        &&& !self.stopped
        &&& match happening {
            Happening::Handled { .. } => self.handling,
            Happening::Waited => self.waiting@.len() > 0,
            _ => true,
        }
    }

    /// What follows for the handling once an event has arrived: it begins at once, or the event
    /// goes to the end of the queue.
    pub open spec fn arrives(self, event: E, next: Self, orders: Orders<E>) -> bool {
        &&& next.handling
        &&& if self.handling {
            next.queue@ == self.queue@.push(event) && orders.handle is None
        } else {
            next.queue@ == self.queue@ && orders.handle == Some(event)
        }
    }

    /// What follows for the handling once one has ended: the first event of the queue is
    /// handled.
    pub open spec fn proceeds(self, next: Self, orders: Orders<E>) -> bool {
        if self.queue@.len() > 0 {
            &&& next.handling
            &&& next.queue@ == self.queue@.drop_first()
            &&& orders.handle == Some(self.queue@[0])
        } else {
            !next.handling && next.queue@ == self.queue@ && orders.handle is None
        }
    }

    /// Whether `next` and `orders` are what something leads to.
    pub open spec fn steps(self, happening: Happening<E>, next: Self, orders: Orders<E>) -> bool {
        &&& next.retry_duration == self.retry_duration
        &&& next.stopped == (happening is Closed)
        &&& orders.stop == (happening is Closed)
        &&& match happening {
            Happening::Incoming(event) => {
                &&& self.arrives(event, next, orders)
                &&& next.waiting@ == self.waiting@
                &&& orders.wait is None
            },
            Happening::Handled { event, outcome } => {
                let timed = TimedEvent { event, wait_duration: self.retry_duration };
                &&& self.proceeds(next, orders)
                &&& next.waiting@ == if is_retried(outcome) {
                    self.waiting@.push(timed)
                } else {
                    self.waiting@
                }
                &&& orders.wait == if is_retried(outcome) && self.waiting@.len() == 0 {
                    Some(self.retry_duration)
                } else {
                    None
                }
            },
            Happening::Waited => {
                &&& self.arrives(self.waiting@[0].event, next, orders)
                &&& next.waiting@ == self.waiting@.drop_first()
                &&& orders.wait == if self.waiting@.len() > 1 {
                    Some(self.waiting@[1].wait_duration)
                } else {
                    None
                }
            },
            Happening::Closed => {
                &&& next.handling == self.handling
                &&& next.queue@ == self.queue@
                &&& next.waiting@ == self.waiting@
                &&& orders.handle is None
                &&& orders.wait is None
            },
        }
    }

    /// A loop in which nothing has happened yet.
    pub fn new(retry_duration: Duration) -> (events: Self)
        ensures
            events.wf(),
            events.begins(),
            events.retry_duration == retry_duration,
    {
        EventLoop {
            retry_duration,
            handling: false,
            queue: Vec::new(),
            waiting: Vec::new(),
            stopped: false,
        }
    }

    /// Whether something can happen now.
    pub fn is_expected(&self, happening: &Happening<E>) -> (res: bool)
        ensures
            res == self.expects(*happening),
    {
        !self.stopped && match happening {
            Happening::Handled { .. } => self.handling,
            Happening::Waited => self.waiting.len() > 0,
            _ => true,
        }
    }

    fn arrive(&mut self, event: E) -> (handle: Option<E>)
        ensures
            final(self).retry_duration == old(self).retry_duration,
            final(self).waiting == old(self).waiting,
            final(self).stopped == old(self).stopped,
            old(self).arrives(event, *final(self), (Orders { handle, wait: None, stop: false })),
    {
        if self.handling {
            self.queue.push(event);
            None
        } else {
            self.handling = true;
            Some(event)
        }
    }

    fn proceed(&mut self) -> (handle: Option<E>)
        ensures
            final(self).retry_duration == old(self).retry_duration,
            final(self).waiting == old(self).waiting,
            final(self).stopped == old(self).stopped,
            old(self).proceeds(*final(self), (Orders { handle, wait: None, stop: false })),
    {
        if self.queue.len() > 0 {
            let ghost before = self.queue@;
            let event = self.queue.remove(0);
            assert(self.queue@ =~= before.drop_first());
            self.handling = true;
            Some(event)
        } else {
            self.handling = false;
            None
        }
    }

    /// Goes on from something that happened.
    pub fn step(self, happening: Happening<E>) -> (res: (Self, Orders<E>))
        requires
            self.wf(),
            self.expects(happening),
        ensures
            self.steps(happening, res.0, res.1),
            res.0.wf(),
    {
        let mut next = self;
        match happening {
            Happening::Incoming(event) => {
                let handle = next.arrive(event);
                (next, Orders { handle, wait: None, stop: false })
            },
            Happening::Handled { event, outcome } => {
                let handle = next.proceed();
                let retried = match &outcome {
                    Err(error) => retry_after(error).is_some(),
                    Ok(()) => false,
                };
                let mut wait: Option<Duration> = None;
                if retried {
                    if next.waiting.len() == 0 {
                        wait = Some(next.retry_duration);
                    }
                    next.waiting.push(TimedEvent::new(event, next.retry_duration));
                }
                (next, Orders { handle, wait, stop: false })
            },
            Happening::Waited => {
                let timed = next.waiting.remove(0);
                assert(next.waiting@ =~= self.waiting@.drop_first());
                let wait = if next.waiting.len() > 0 {
                    Some(next.waiting[0].wait_duration())
                } else {
                    None
                };
                let handle = next.arrive(timed.event);
                (next, Orders { handle, wait, stop: false })
            },
            Happening::Closed => {
                next.stopped = true;
                (next, Orders { handle: None, wait: None, stop: true })
            },
        }
    }
}

/// Whether these are a loop from its beginning on, what happened to it, and what it ordered
/// each time. What has been handled is what was ordered to be handled last.
pub open spec fn is_loop<E>(
    events: Seq<EventLoop<E>>,
    happenings: Seq<Happening<E>>,
    orders: Seq<Orders<E>>,
) -> bool {
    &&& events.len() == happenings.len() + 1
    &&& orders.len() == happenings.len()
    &&& events[0].begins()
    &&& forall|i: int|
        #![trigger happenings[i]]
        0 <= i < happenings.len() ==> {
            &&& events[i].expects(happenings[i])
            &&& events[i].steps(happenings[i], events[i + 1], orders[i])
            &&& happenings[i] matches Happening::Handled { event, .. } ==> event == begun(
                orders,
                i,
            ).last()
        }
}

/// The events that came in among the first `n` happenings, in their order.
pub open spec fn incoming<E>(happenings: Seq<Happening<E>>, n: int) -> Seq<E>
    decreases n,
{
    if n <= 0 {
        Seq::empty()
    } else {
        match happenings[n - 1] {
            Happening::Incoming(event) => incoming(happenings, n - 1).push(event),
            _ => incoming(happenings, n - 1),
        }
    }
}

/// The events that had waited for their time among the first `n` happenings, in their order.
pub open spec fn woken<E>(
    events: Seq<EventLoop<E>>,
    happenings: Seq<Happening<E>>,
    n: int,
) -> Seq<E>
    decreases n,
{
    if n <= 0 {
        Seq::empty()
    } else {
        match happenings[n - 1] {
            Happening::Waited => woken(events, happenings, n - 1).push(
                events[n - 1].waiting@[0].event,
            ),
            _ => woken(events, happenings, n - 1),
        }
    }
}

/// The events that came in or had waited for their time among the first `n` happenings, in
/// their order.
pub open spec fn arrived<E>(
    events: Seq<EventLoop<E>>,
    happenings: Seq<Happening<E>>,
    n: int,
) -> Seq<E>
    decreases n,
{
    if n <= 0 {
        Seq::empty()
    } else {
        match happenings[n - 1] {
            Happening::Incoming(event) => arrived(events, happenings, n - 1).push(event),
            Happening::Waited => arrived(events, happenings, n - 1).push(
                events[n - 1].waiting@[0].event,
            ),
            _ => arrived(events, happenings, n - 1),
        }
    }
}

/// The events whose handling began with the first `n` orders, in their order.
pub open spec fn begun<E>(orders: Seq<Orders<E>>, n: int) -> Seq<E>
    decreases n,
{
    if n <= 0 {
        Seq::empty()
    } else {
        match orders[n - 1].handle {
            Some(event) => begun(orders, n - 1).push(event),
            None => begun(orders, n - 1),
        }
    }
}

/// The events whose handling ended among the first `n` happenings, in their order.
pub open spec fn handled<E>(happenings: Seq<Happening<E>>, n: int) -> Seq<E>
    decreases n,
{
    if n <= 0 {
        Seq::empty()
    } else {
        match happenings[n - 1] {
            Happening::Handled { event, .. } => handled(happenings, n - 1).push(event),
            _ => handled(happenings, n - 1),
        }
    }
}

/// The events whose handling failed with too many requests among the first `n` happenings, in
/// their order.
pub open spec fn limited<E>(happenings: Seq<Happening<E>>, n: int) -> Seq<E>
    decreases n,
{
    if n <= 0 {
        Seq::empty()
    } else {
        match happenings[n - 1] {
            Happening::Handled { event, outcome } if is_retried(outcome) => limited(
                happenings,
                n - 1,
            ).push(event),
            _ => limited(happenings, n - 1),
        }
    }
}

/// The events that wait.
pub open spec fn waiting_events<E>(waiting: Seq<TimedEvent<E>>) -> Seq<E> {
    waiting.map_values(|timed: TimedEvent<E>| timed.event)
}

/// Events are handled in the order in which they arrive, each once for each time that it
/// arrives: those whose handling has begun, and after them those in the queue, are those that
/// have arrived. While nothing is being handled all have been.
pub proof fn events_are_handled_in_order<E>(
    events: Seq<EventLoop<E>>,
    happenings: Seq<Happening<E>>,
    orders: Seq<Orders<E>>,
    n: int,
)
    requires
        is_loop(events, happenings, orders),
        0 <= n <= happenings.len(),
    ensures
        begun(orders, n) + events[n].queue@ == arrived(events, happenings, n),
        !events[n].handling ==> begun(orders, n) == arrived(events, happenings, n),
    decreases n,
{
    if n > 0 {
        events_are_handled_in_order(events, happenings, orders, n - 1);
        let happening = happenings[n - 1];
        let before = events[n - 1].queue@;
        if let Happening::Handled { .. } = happening {
            if before.len() > 0 {
                assert(before =~= seq![before[0]] + before.drop_first());
            }
        }
        assert(begun(orders, n) + events[n].queue@ =~= arrived(events, happenings, n));
    }
    if !events[n].handling {
        assert(begun(orders, n) + events[n].queue@ =~= begun(orders, n));
    }
}

/// One event is handled at a time: whatever was begun has ended, in the same order, but for the
/// one that is being handled.
pub proof fn one_event_is_handled_at_a_time<E>(
    events: Seq<EventLoop<E>>,
    happenings: Seq<Happening<E>>,
    orders: Seq<Orders<E>>,
    n: int,
)
    requires
        is_loop(events, happenings, orders),
        0 <= n <= happenings.len(),
    ensures
        events[n].wf(),
        begun(orders, n) == if events[n].handling {
            handled(happenings, n).push(begun(orders, n).last())
        } else {
            handled(happenings, n)
        },
    decreases n,
{
    if n > 0 {
        one_event_is_handled_at_a_time(events, happenings, orders, n - 1);
        let happening = happenings[n - 1];
        assert(begun(orders, n) =~= if events[n].handling {
            handled(happenings, n).push(begun(orders, n).last())
        } else {
            handled(happenings, n)
        });
    }
}

/// Exactly the events that failed with too many requests are handled again, in the order in
/// which they failed, once each time: those that have arrived again, and after them those that
/// wait, are those that have failed so.
pub proof fn limited_events_are_retried<E>(
    events: Seq<EventLoop<E>>,
    happenings: Seq<Happening<E>>,
    orders: Seq<Orders<E>>,
    n: int,
)
    requires
        is_loop(events, happenings, orders),
        0 <= n <= happenings.len(),
    ensures
        woken(events, happenings, n) + waiting_events(events[n].waiting@) == limited(
            happenings,
            n,
        ),
    decreases n,
{
    if n > 0 {
        limited_events_are_retried(events, happenings, orders, n - 1);
        let happening = happenings[n - 1];
        let before = events[n - 1].waiting@;
        assert(woken(events, happenings, n) + waiting_events(events[n].waiting@) =~= limited(
            happenings,
            n,
        ));
    }
}

/// Where no handling fails with too many requests, every event that came in is handled once,
/// one at a time and in the order in which it came, whatever else the handling of others fails
/// with.
pub proof fn each_event_is_handled_once<E>(
    events: Seq<EventLoop<E>>,
    happenings: Seq<Happening<E>>,
    orders: Seq<Orders<E>>,
    n: int,
)
    requires
        is_loop(events, happenings, orders),
        0 <= n <= happenings.len(),
        limited(happenings, n).len() == 0,
    ensures
        begun(orders, n) + events[n].queue@ == incoming(happenings, n),
        !events[n].handling ==> handled(happenings, n) == incoming(happenings, n),
{
    events_are_handled_in_order(events, happenings, orders, n);
    one_event_is_handled_at_a_time(events, happenings, orders, n);
    arrivals_are_incoming(events, happenings, orders, n);
}

proof fn arrivals_are_incoming<E>(
    events: Seq<EventLoop<E>>,
    happenings: Seq<Happening<E>>,
    orders: Seq<Orders<E>>,
    n: int,
)
    requires
        is_loop(events, happenings, orders),
        0 <= n <= happenings.len(),
        limited(happenings, n).len() == 0,
    ensures
        arrived(events, happenings, n) == incoming(happenings, n),
    decreases n,
{
    if n > 0 {
        arrivals_are_incoming(events, happenings, orders, n - 1);
        limited_events_are_retried(events, happenings, orders, n - 1);
        let happening = happenings[n - 1];
        assert(woken(events, happenings, n - 1) + waiting_events(events[n - 1].waiting@)
            =~= Seq::empty());
        assert(waiting_events(events[n - 1].waiting@).len() == 0);
    }
}

/// Whatever the handling of an event ends with, the loop goes on, and the next event is
/// handled.
pub proof fn failures_do_not_end_the_loop<E>(
    events: EventLoop<E>,
    event: E,
    outcome: Result<(), HandlerError>,
    next: EventLoop<E>,
    orders: Orders<E>,
)
    requires
        events.steps(Happening::Handled { event, outcome }, next, orders),
    ensures
        !next.stopped,
        !orders.stop,
        events.queue@.len() > 0 ==> orders.handle == Some(events.queue@[0]),
{
}

// ---------------------------------------------------------------------------
// Stopping
// ---------------------------------------------------------------------------

/// What woke the main loop.
#[derive(Clone, Copy, Debug, PartialEq, Eq, Structural)]
pub enum Wake {
    /// The user asked to stop, or that could not be listened for.
    Interrupt { heard: bool },
    /// The gateway sent an event.
    Event,
    /// The gateway failed.
    GatewayFailure { fatal: bool },
}

/// Whether the main loop stops: when the user asked for it, and when the gateway failed for
/// good.
pub fn should_break(wake: Wake) -> (res: bool)
    ensures
        res == (wake == (Wake::Interrupt { heard: true }) || wake == (Wake::GatewayFailure {
            fatal: true,
        })),
{
    match wake {
        Wake::Interrupt { heard } => heard,
        Wake::Event => false,
        Wake::GatewayFailure { fatal } => fatal,
    }
}

} // verus!
