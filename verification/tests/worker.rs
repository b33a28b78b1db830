use gqlmapi_rs::context::{CompleteContext, Delivery, NextContext};
use gqlmapi_rs::protocol::ServiceCommand;
use gqlmapi_rs::worker::{wait_with_pump, EngineCall, PumpEvent, PumpStep, Worker, WorkerPhase};

#[test]
fn worker_starts_the_engine_once() {
    let mut worker = Worker::new(true, 9);
    assert_eq!(worker.phase, WorkerPhase::Created);
    assert!(!worker.is_running());
    assert_eq!(worker.start(), Some(EngineCall::StartService { use_default_profile: true }));
    assert!(worker.is_running());
    assert_eq!(worker.start(), None);
    assert_eq!(
        worker,
        Worker { phase: WorkerPhase::Running, use_default_profile: true, thread_id: 9 }
    );
    let mut other = Worker::new(false, 1);
    assert_eq!(other.start(), Some(EngineCall::StartService { use_default_profile: false }));
}

#[test]
fn worker_that_has_not_started_drops_commands() {
    let mut worker = Worker::new(true, 9);
    assert_eq!(worker.handle(ServiceCommand::DiscardQuery { query_id: 1 }), None);
    assert_eq!(worker.handle(ServiceCommand::Stop), None);
    assert_eq!(worker.phase, WorkerPhase::Created);
}

#[test]
fn running_worker_makes_one_call_per_command() {
    let mut worker = Worker::new(true, 9);
    worker.start();
    assert_eq!(
        worker.handle(ServiceCommand::ParsedQuery { query: "query { a }".to_string() }),
        Some(EngineCall::ParseQuery { query: "query { a }".to_string() })
    );
    assert_eq!(
        worker.handle(ServiceCommand::DiscardQuery { query_id: 4 }),
        Some(EngineCall::DiscardQuery { query_id: 4 })
    );
    assert_eq!(
        worker.handle(ServiceCommand::Subscribe {
            query_id: 4,
            operation_name: "op".to_string(),
            variables: "{}".to_string()
        }),
        Some(EngineCall::Subscribe {
            query_id: 4,
            operation_name: "op".to_string(),
            variables: "{}".to_string(),
            next_context: NextContext { thread_id: 9 },
            complete_context: CompleteContext { thread_id: 9 },
        })
    );
    assert_eq!(
        worker.handle(ServiceCommand::Unsubscribe { subscription_id: 6 }),
        Some(EngineCall::Unsubscribe { subscription_id: 6 })
    );
    assert!(worker.is_running());
}

#[test]
fn stop_is_the_last_call() {
    let mut worker = Worker::new(true, 9);
    worker.start();
    assert_eq!(worker.handle(ServiceCommand::Stop), Some(EngineCall::StopService));
    assert_eq!(worker.phase, WorkerPhase::Stopped);
    assert_eq!(worker.handle(ServiceCommand::DiscardQuery { query_id: 1 }), None);
    assert_eq!(worker.handle(ServiceCommand::Stop), None);
    assert_eq!(worker.start(), None);
    assert_eq!(worker.phase, WorkerPhase::Stopped);
}

#[test]
fn only_parse_and_subscribe_are_answered() {
    assert!(EngineCall::ParseQuery { query: String::new() }.answers());
    assert!(EngineCall::Subscribe {
        query_id: 1,
        operation_name: String::new(),
        variables: String::new(),
        next_context: NextContext { thread_id: 1 },
        complete_context: CompleteContext { thread_id: 1 },
    }
    .answers());
    assert!(!EngineCall::StartService { use_default_profile: true }.answers());
    assert!(!EngineCall::StopService.answers());
    assert!(!EngineCall::DiscardQuery { query_id: 1 }.answers());
    assert!(!EngineCall::Unsubscribe { subscription_id: 1 }.answers());
}

#[test]
fn pump_hands_a_command_on() {
    assert_eq!(
        wait_with_pump(PumpEvent::Command(ServiceCommand::Stop)),
        PumpStep::Deliver(ServiceCommand::Stop)
    );
    assert_eq!(wait_with_pump(PumpEvent::Command(7u8)), PumpStep::Deliver(7u8));
}

#[test]
fn pump_dispatches_other_messages() {
    assert_eq!(
        wait_with_pump::<u8>(PumpEvent::Message { status: 1, error_code: 0 }),
        PumpStep::Dispatch
    );
    assert_eq!(
        wait_with_pump::<u8>(PumpEvent::Message { status: -2, error_code: 5 }),
        PumpStep::Dispatch
    );
    assert_eq!(
        wait_with_pump::<u8>(PumpEvent::Message { status: i32::MAX, error_code: 0 }),
        PumpStep::Dispatch
    );
}

#[test]
fn pump_failure_names_the_error_code() {
    assert_eq!(
        wait_with_pump::<u8>(PumpEvent::Message { status: -1, error_code: -2147024891 }),
        PumpStep::Fail("GetMessageA error: -2147024891".to_string())
    );
    assert_eq!(
        wait_with_pump::<u8>(PumpEvent::Message { status: -1, error_code: 0 }),
        PumpStep::Fail("GetMessageA error: 0".to_string())
    );
}

#[test]
fn pump_quit_message_cancels_the_wait() {
    assert_eq!(
        wait_with_pump::<u8>(PumpEvent::Message { status: 0, error_code: 123 }),
        PumpStep::Fail("Cancelled".to_string())
    );
}

#[test]
fn payload_is_forwarded_and_the_worker_woken() {
    let context = NextContext { thread_id: 21 };
    let (context, delivery) = context.next("{\"data\":null}".to_string());
    assert_eq!(context, NextContext { thread_id: 21 });
    assert_eq!(delivery, Delivery { payload: "{\"data\":null}".to_string(), wake: 21 });
    let (_, second) = context.next(String::new());
    assert_eq!(second, Delivery { payload: String::new(), wake: 21 });
    assert_eq!(CompleteContext { thread_id: 22 }.complete(), 22);
}

#[test]
fn undelivered_answer_does_not_stop_the_worker() {
    let mut worker = Worker::new(true, 9);
    assert!(!worker.reply_sent(true));
    worker.start();
    assert!(worker.reply_sent(true));
    assert!(worker.reply_sent(false));
    assert!(worker.is_running());
    worker.handle(ServiceCommand::Stop);
    assert!(!worker.reply_sent(true));
    assert!(!worker.reply_sent(false));
}
