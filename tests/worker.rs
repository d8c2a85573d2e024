use sereal::worker::{LinkState, Worker, WorkerAction, WorkerEvent, RETRY_INTERVAL_MS};

#[test]
fn opens_retries_and_reads() {
    let mut worker = Worker::new();
    assert_eq!(worker.link(), LinkState::Untried);
    assert!(matches!(worker.step(true, WorkerEvent::Started), WorkerAction::Open));
    assert!(matches!(worker.step(true, WorkerEvent::OpenFailed), WorkerAction::Wait(500)));
    assert_eq!(RETRY_INTERVAL_MS, 500);
    assert_eq!(worker.link(), LinkState::Unavailable);
    assert!(matches!(worker.step(true, WorkerEvent::Waited), WorkerAction::Open));
    assert!(matches!(worker.step(true, WorkerEvent::OpenSucceeded), WorkerAction::Poll));
    assert_eq!(worker.link(), LinkState::Open);
    assert!(matches!(worker.step(true, WorkerEvent::Polled(0)), WorkerAction::Poll));
    assert!(matches!(worker.step(true, WorkerEvent::Polled(3)), WorkerAction::Read(3)));
    match worker.step(true, WorkerEvent::ReadSucceeded(b"hi\n".to_vec())) {
        WorkerAction::Deliver(text) => assert_eq!(text, "hi\n"),
        other => panic!("unexpected {:?}", other),
    }
    assert!(matches!(worker.step(true, WorkerEvent::Delivered), WorkerAction::Poll));
    assert!(matches!(worker.step(true, WorkerEvent::ReadTimedOut), WorkerAction::Poll));
    assert_eq!(worker.link(), LinkState::Open);
}

#[test]
fn invalid_bytes_are_replaced() {
    let mut worker = Worker::new();
    match worker.step(true, WorkerEvent::ReadSucceeded(vec![b'o', b'k', 0xff])) {
        WorkerAction::Deliver(text) => assert_eq!(text, "ok\u{FFFD}"),
        other => panic!("unexpected {:?}", other),
    }
}

#[test]
fn read_failure_then_reopen() {
    let mut worker = Worker::new();
    worker.step(true, WorkerEvent::Started);
    worker.step(true, WorkerEvent::OpenSucceeded);
    assert!(worker.link().is_physical_connected());
    assert!(worker.link().is_activate(true));
    assert!(matches!(worker.step(true, WorkerEvent::ReadFailed), WorkerAction::Open));
    assert!(!worker.link().is_physical_connected());
    assert!(worker.link().is_activate(true));
    assert!(matches!(worker.step(true, WorkerEvent::OpenSucceeded), WorkerAction::Poll));
    assert!(worker.link().is_physical_connected());
}

#[test]
fn poll_failure_marks_lost() {
    let mut worker = Worker::new();
    worker.step(true, WorkerEvent::OpenSucceeded);
    assert!(matches!(worker.step(true, WorkerEvent::PollFailed), WorkerAction::Open));
    assert_eq!(worker.link(), LinkState::Unavailable);
}

#[test]
fn stops_when_asked_or_when_receiver_is_gone() {
    let mut worker = Worker::new();
    worker.step(true, WorkerEvent::OpenSucceeded);
    assert!(matches!(worker.step(false, WorkerEvent::Polled(5)), WorkerAction::Exit));
    assert_eq!(worker.link(), LinkState::Open);
    assert!(matches!(worker.step(true, WorkerEvent::ReceiverGone), WorkerAction::Exit));
    let fresh = Worker::new();
    assert!(!fresh.link().is_activate(true));
    assert!(!LinkState::Open.is_activate(false));
}
