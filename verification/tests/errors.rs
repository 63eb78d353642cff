use guild_mirror::errors::{
    ClientError, DatabaseError, Failure, HandlerError, MappingsError,
};
use guild_mirror::event_handler::{
    retry_after, should_break, EventLoop, Happening, Wake, RETRY_SECONDS,
};
use guild_mirror::timed_event::TimedEvent;
use std::time::Duration;

fn text(detail: &str) -> String {
    detail.to_string()
}

fn client(status: Option<u16>) -> ClientError {
    ClientError { status, detail: text("d") }
}

#[test]
fn handler_errors_are_told() {
    let told = vec![
        (Failure::ClientSend(client(None)), "Client request failed. d"),
        (Failure::ClientSerde(text("d")), "Client deserializing server response failed. d"),
        (Failure::ClientValidation(text("d")), "Client request validation failed. d"),
        (
            Failure::ClientChannelValidation(text("d")),
            "Could not validate channel when creating. d",
        ),
        (
            Failure::ClientMessageValidation(text("d")),
            "Could not validate message when creating. d",
        ),
        (Failure::ReqwestError(text("d")), "Reqwest error. d"),
        (Failure::Pool(text("d")), "Couldn't fetch database pool. d"),
        (Failure::Interact(text("d")), "Pool interaction failed. d"),
        (
            Failure::Database(DatabaseError::Query(text("d"))),
            "Database action failed. Query did not execute properly. d",
        ),
    ];
    for (failure, expected) in told {
        assert_eq!(HandlerError::from_failure(failure).to_string(), expected);
    }
    let nested = HandlerError::Mapping(MappingsError::ClientSerde(text("d")));
    assert_eq!(
        nested.to_string(),
        "An error occurred while mapping channels. Deserializing server response failed. d"
    );
}

#[test]
fn mapping_errors_are_told() {
    let told = vec![
        (Failure::ClientSend(client(None)), "Client request failed. d"),
        (Failure::ClientSerde(text("d")), "Deserializing server response failed. d"),
        (Failure::Pool(text("d")), "Couldn't fetch database pool. d"),
        (Failure::Interact(text("d")), "Pool interaction failed. d"),
        (
            Failure::Database(DatabaseError::Serialize(text("d"))),
            "Database action failed. Failed serializing data. d",
        ),
        (
            Failure::ClientChannelValidation(text("d")),
            "Could not validate channel when creating. d",
        ),
    ];
    for (failure, expected) in told {
        assert!(failure.may_concern_mappings());
        assert_eq!(MappingsError::from_failure(failure).to_string(), expected);
    }
}

#[test]
fn some_failures_belong_to_events_alone() {
    assert!(!Failure::ClientValidation(text("d")).may_concern_mappings());
    assert!(!Failure::ClientMessageValidation(text("d")).may_concern_mappings());
    assert!(!Failure::ReqwestError(text("d")).may_concern_mappings());
}

#[test]
fn only_404_is_not_found() {
    assert!(Failure::ClientSend(client(Some(404))).is_not_found());
    assert!(!Failure::ClientSend(client(Some(403))).is_not_found());
    assert!(!Failure::ClientSend(client(None)).is_not_found());
    assert!(!Failure::Pool(text("404")).is_not_found());
}

#[test]
fn only_rate_limits_are_tried_again() {
    assert_eq!(RETRY_SECONDS, 30);
    assert_eq!(retry_after(&HandlerError::ClientSend(client(Some(429)))), Some(30));
    assert_eq!(retry_after(&HandlerError::ClientSend(client(Some(500)))), None);
    assert_eq!(retry_after(&HandlerError::ClientSend(client(None))), None);
    assert_eq!(retry_after(&HandlerError::Pool(text("d"))), None);
    let nested = HandlerError::Mapping(MappingsError::ClientSend(client(Some(429))));
    assert_eq!(retry_after(&nested), None);
}

/// Lets something happen to a loop, and tells what is handled next and how long is waited.
fn happens(
    events: EventLoop<u8>,
    happening: Happening<u8>,
) -> (EventLoop<u8>, Option<u8>, Option<Duration>) {
    assert!(events.is_expected(&happening));
    let (next, orders) = events.step(happening);
    assert!(!orders.stop);
    (next, orders.handle, orders.wait)
}

fn limit(event: u8) -> Happening<u8> {
    let outcome = Err(HandlerError::ClientSend(client(Some(429))));
    Happening::Handled { event, outcome }
}

#[test]
fn events_are_handled_one_by_one_in_their_order() {
    let events = EventLoop::new(Duration::from_secs(30));
    let (events, handle, _) = happens(events, Happening::Incoming(1));
    assert_eq!(handle, Some(1));
    let (events, handle, _) = happens(events, Happening::Incoming(2));
    assert_eq!(handle, None);
    let (events, handle, _) = happens(events, Happening::Incoming(3));
    assert_eq!(handle, None);
    let (events, handle, wait) =
        happens(events, Happening::Handled { event: 1, outcome: Ok(()) });
    assert_eq!((handle, wait), (Some(2), None));
    // A failure does not keep the next event from being handled.
    let failed = Happening::Handled { event: 2, outcome: Err(HandlerError::Pool(text("d"))) };
    let (events, handle, wait) = happens(events, failed);
    assert_eq!((handle, wait), (Some(3), None));
    let (events, handle, _) = happens(events, Happening::Handled { event: 3, outcome: Ok(()) });
    assert_eq!(handle, None);
    assert!(!events.handling && events.queue.is_empty() && events.waiting.is_empty());
    let (_, handle, _) = happens(events, Happening::Incoming(4));
    assert_eq!(handle, Some(4));
}

#[test]
fn limited_events_wait_one_by_one_and_are_handled_again() {
    let retry = Duration::from_secs(30);
    let (events, _, _) = happens(EventLoop::new(retry), Happening::Incoming(1));
    let (events, _, _) = happens(events, Happening::Incoming(2));
    let (events, handle, wait) = happens(events, limit(1));
    assert_eq!((handle, wait), (Some(2), Some(retry)));
    // The second one waits after the first one.
    let (events, handle, wait) = happens(events, limit(2));
    assert_eq!((handle, wait), (None, None));
    let (events, handle, wait) = happens(events, Happening::Waited);
    assert_eq!((handle, wait), (Some(1), Some(retry)));
    let (events, handle, wait) = happens(events, Happening::Waited);
    assert_eq!((handle, wait), (None, None));
    assert_eq!(events.queue, vec![2]);
    let (events, handle, _) = happens(events, Happening::Handled { event: 1, outcome: Ok(()) });
    assert_eq!(handle, Some(2));
    assert!(!events.is_expected(&Happening::Waited));
}

#[test]
fn closed_loop_expects_nothing_more() {
    let events = EventLoop::new(Duration::from_secs(30));
    assert!(!events.is_expected(&limit(1)));
    let (events, orders) = events.step(Happening::Closed);
    assert!(orders.stop && orders.handle.is_none() && orders.wait.is_none());
    assert!(!events.is_expected(&Happening::Incoming(1)));
}

#[test]
fn timed_event_tells_what_it_holds() {
    let timed = TimedEvent::new(7, Duration::from_secs(30));
    assert_eq!(*timed.event(), 7);
    assert_eq!(timed.wait_duration(), Duration::from_secs(30));
}

#[test]
fn main_loop_stops_on_request_or_for_good() {
    assert!(should_break(Wake::Interrupt { heard: true }));
    assert!(!should_break(Wake::Interrupt { heard: false }));
    assert!(!should_break(Wake::Event));
    assert!(should_break(Wake::GatewayFailure { fatal: true }));
    assert!(!should_break(Wake::GatewayFailure { fatal: false }));
}
