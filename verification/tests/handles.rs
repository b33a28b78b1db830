use gqlmapi_rs::handles::{JoinOutcome, ListenStep, MAPIGraphQL, ParsedQuery, Service, Subscription};
use gqlmapi_rs::protocol::{Request, RoundTrip, ServiceCommand, Submission};

fn listening(subscription_id: i32) -> Subscription {
    Subscription {
        subscription_id,
        thread_id: 2,
        query_id: 8,
        operation_name: "Watch".to_string(),
        variables: "{\"id\":1}".to_string(),
    }
}

#[test]
fn query_is_discarded_once() {
    let mut query = ParsedQuery { thread_id: 2, query_id: 8 };
    let first = query.discard_query();
    assert_eq!(
        first,
        Some(Request { command: ServiceCommand::DiscardQuery { query_id: 8 }, wake: 2 })
    );
    assert_eq!(query.query_discarded(&Submission::Sent), Ok(()));
    assert_eq!(query.query_id, 0);
    assert_eq!(query.discard_query(), None);
    assert_eq!(query.query_discarded(&Submission::Sent), Ok(()));
    assert_eq!(query, ParsedQuery { thread_id: 2, query_id: 0 });
}

#[test]
fn query_that_could_not_be_discarded_stays_registered() {
    let mut query = ParsedQuery { thread_id: 2, query_id: 8 };
    assert_eq!(
        query.query_discarded(&Submission::SendFailed("sending on a closed channel".to_string())),
        Err("Error sending message: sending on a closed channel".to_string())
    );
    assert_eq!(query.query_id, 8);
    assert_eq!(
        query.query_discarded(&Submission::LockFailed("poisoned".to_string())),
        Err("Error locking mutex: poisoned".to_string())
    );
    assert!(query.discard_query().is_some());
}

#[test]
fn unregistered_query_asks_for_nothing() {
    assert_eq!(ParsedQuery { thread_id: 2, query_id: 0 }.discard_query(), None);
}

#[test]
fn subscription_is_unsubscribed_once() {
    let mut subscription = listening(5);
    assert_eq!(
        subscription.unsubscribe(),
        Some(Request { command: ServiceCommand::Unsubscribe { subscription_id: 5 }, wake: 2 })
    );
    assert_eq!(subscription.unsubscribed(&Submission::Sent), Ok(()));
    assert_eq!(subscription, listening(0));
    assert_eq!(subscription.unsubscribe(), None);
}

#[test]
fn subscription_that_could_not_be_unsubscribed_keeps_listening() {
    let mut subscription = listening(5);
    assert_eq!(
        subscription.unsubscribed(&Submission::SendFailed("closed".to_string())),
        Err("Error sending message: closed".to_string())
    );
    assert_eq!(subscription, listening(5));
}

#[test]
fn listening_again_unsubscribes_first() {
    let mut subscription = listening(5);
    assert_eq!(
        subscription.listen(),
        ListenStep::Unsubscribe(Request {
            command: ServiceCommand::Unsubscribe { subscription_id: 5 },
            wake: 2
        })
    );
    subscription.unsubscribed(&Submission::Sent).unwrap();
    assert_eq!(
        subscription.listen(),
        ListenStep::Subscribe(Request {
            command: ServiceCommand::Subscribe {
                query_id: 8,
                operation_name: "Watch".to_string(),
                variables: "{\"id\":1}".to_string()
            },
            wake: 2
        })
    );
    assert_eq!(subscription.subscribed(&RoundTrip::Replied(Ok(6))), Ok(()));
    assert_eq!(subscription, listening(6));
}

#[test]
fn failed_subscribe_leaves_the_subscription_free() {
    let mut subscription = listening(0);
    assert_eq!(
        subscription.subscribed(&RoundTrip::Replied(Err("Unknown operation".to_string()))),
        Err("Unknown operation".to_string())
    );
    assert_eq!(
        subscription
            .subscribed(&RoundTrip::ReceiveFailed("receiving on a closed channel".to_string())),
        Err("Error receiving message: receiving on a closed channel".to_string())
    );
    assert_eq!(
        subscription.subscribed(&RoundTrip::SendFailed("closed".to_string())),
        Err("Error sending message: closed".to_string())
    );
    assert_eq!(
        subscription.subscribed(&RoundTrip::LockFailed("poisoned".to_string())),
        Err("Error locking mutex: poisoned".to_string())
    );
    assert_eq!(subscription, listening(0));
}

#[test]
fn handle_comes_only_with_an_identifier() {
    let gqlmapi = MAPIGraphQL::new(4);
    assert_eq!(
        gqlmapi.query_parsed(&RoundTrip::Replied(Ok(3))),
        Ok(ParsedQuery { thread_id: 4, query_id: 3 })
    );
    assert_eq!(
        gqlmapi.query_parsed(&RoundTrip::Replied(Err("Syntax Error".to_string()))),
        Err("Syntax Error".to_string())
    );
    assert_eq!(
        gqlmapi.query_parsed(&RoundTrip::ReceiveFailed("gone".to_string())),
        Err("Error receiving message: gone".to_string())
    );
}

#[test]
fn subscribe_makes_a_free_subscription() {
    let gqlmapi = MAPIGraphQL::new(4);
    let query = ParsedQuery { thread_id: 4, query_id: 3 };
    assert_eq!(
        gqlmapi.subscribe(&query, "Op", "{\"a\":1}"),
        Subscription {
            subscription_id: 0,
            thread_id: 4,
            query_id: 3,
            operation_name: "Op".to_string(),
            variables: "{\"a\":1}".to_string()
        }
    );
}

#[test]
fn stop_waits_for_the_worker_once() {
    let mut service = Service::new(12);
    assert_eq!(service.kick_pump(), 12);
    assert_eq!(service.stop(), Request { command: ServiceCommand::Stop, wake: 12 });
    assert_eq!(
        service.stop_sent(&Submission::SendFailed("closed".to_string())),
        Err("Error sending message: closed".to_string())
    );
    assert_eq!(service, Service { thread_id: 12, worker_attached: true });
    assert_eq!(service.stop_sent(&Submission::Sent), Ok(true));
    assert_eq!(service.stop_sent(&Submission::Sent), Ok(false));
    assert_eq!(service, Service { thread_id: 12, worker_attached: false });
}

#[test]
fn join_reports_panic_and_the_workers_own_result() {
    assert_eq!(Service::worker_joined(JoinOutcome::Finished(Ok(()))), Ok(()));
    assert_eq!(
        Service::worker_joined(JoinOutcome::Finished(Err("Cancelled".to_string()))),
        Err("Cancelled".to_string())
    );
    assert_eq!(
        Service::worker_joined(JoinOutcome::Panicked),
        Err("Error joining the worker".to_string())
    );
}
