use ditto_demo::fetch::{FetchAction, FetchEvent, FetchMonitor, FetchPhase, FetchViolation};

fn progress(d: u64, t: u64) -> FetchEvent {
    FetchEvent::Progress { downloaded_bytes: d, total_bytes: t }
}

#[test]
fn new_monitor_is_idle() {
    let m = FetchMonitor::new();
    assert_eq!(m.phase, FetchPhase::Idle);
    assert!(!m.is_finished());
}

#[test]
fn progress_then_completed_is_delivered() {
    let mut m = FetchMonitor::new();
    assert_eq!(m.on_event(progress(0, 100)), FetchAction::Deliver(progress(0, 100)));
    assert_eq!(m.on_event(progress(40, 100)), FetchAction::Deliver(progress(40, 100)));
    assert_eq!(m.phase, FetchPhase::Fetching);
    assert_eq!(m.downloaded_bytes, 40);
    let done = FetchEvent::Completed { total_bytes: 100 };
    assert_eq!(m.on_event(done), FetchAction::Deliver(done));
    assert!(m.is_finished());
    assert_eq!(m.phase, FetchPhase::Completed);
    assert_eq!(m.downloaded_bytes, 100);
    assert_eq!(m.total_bytes, 100);
}

#[test]
fn regressing_progress_is_rejected() {
    let mut m = FetchMonitor::new();
    m.on_event(progress(50, 100));
    assert_eq!(m.on_event(progress(30, 100)), FetchAction::Reject(FetchViolation::Regressed));
    assert_eq!(m.downloaded_bytes, 50);
}

#[test]
fn equal_progress_is_delivered() {
    let mut m = FetchMonitor::new();
    m.on_event(progress(50, 100));
    assert_eq!(m.on_event(progress(50, 100)), FetchAction::Deliver(progress(50, 100)));
}

#[test]
fn overrun_progress_is_rejected() {
    let mut m = FetchMonitor::new();
    assert_eq!(m.on_event(progress(101, 100)), FetchAction::Reject(FetchViolation::Overrun));
    assert_eq!(m.phase, FetchPhase::Idle);
}

#[test]
fn changed_total_is_rejected() {
    let mut m = FetchMonitor::new();
    m.on_event(progress(10, 100));
    assert_eq!(m.on_event(progress(20, 200)), FetchAction::Reject(FetchViolation::TotalChanged));
    assert_eq!(
        m.on_event(FetchEvent::Completed { total_bytes: 120 }),
        FetchAction::Reject(FetchViolation::TotalChanged)
    );
    assert!(!m.is_finished());
}

#[test]
fn nothing_after_completed() {
    let mut m = FetchMonitor::new();
    m.on_event(FetchEvent::Completed { total_bytes: 5 });
    assert_eq!(m.on_event(progress(5, 5)), FetchAction::Reject(FetchViolation::AfterTerminal));
    assert_eq!(m.on_event(FetchEvent::Deleted), FetchAction::Reject(FetchViolation::AfterTerminal));
    assert_eq!(m.phase, FetchPhase::Completed);
}

#[test]
fn deleted_is_a_terminal_event() {
    let mut m = FetchMonitor::new();
    m.on_event(progress(3, 9));
    assert_eq!(m.on_event(FetchEvent::Deleted), FetchAction::Deliver(FetchEvent::Deleted));
    assert_eq!(m.phase, FetchPhase::Deleted);
    assert_eq!(
        m.on_event(FetchEvent::Completed { total_bytes: 9 }),
        FetchAction::Reject(FetchViolation::AfterTerminal)
    );
}

#[test]
fn completed_without_progress_is_delivered() {
    let mut m = FetchMonitor::new();
    let done = FetchEvent::Completed { total_bytes: 0 };
    assert_eq!(m.on_event(done), FetchAction::Deliver(done));
    assert!(m.is_finished());
}

#[test]
fn delivered_stream_is_ordered_with_one_terminal() {
    let events = vec![
        progress(0, 10),
        progress(6, 10),
        progress(4, 10),
        progress(11, 10),
        progress(10, 10),
        FetchEvent::Completed { total_bytes: 10 },
        progress(10, 10),
        FetchEvent::Deleted,
        FetchEvent::Completed { total_bytes: 10 },
    ];
    let mut m = FetchMonitor::new();
    let out = m.deliver_all(&events);
    assert_eq!(
        out,
        vec![
            progress(0, 10),
            progress(6, 10),
            progress(10, 10),
            FetchEvent::Completed { total_bytes: 10 }
        ]
    );
    assert!(m.is_finished());
}

#[test]
fn photo_download_completes_with_its_length() {
    let n: u64 = 48_213;
    let events = vec![progress(0, n), progress(16_384, n), progress(n, n), FetchEvent::Completed { total_bytes: n }];
    let mut m = FetchMonitor::new();
    let out = m.deliver_all(&events);
    assert_eq!(out.len(), 4);
    assert_eq!(out[3], FetchEvent::Completed { total_bytes: n });
    assert_eq!(m.downloaded_bytes, n);
    assert_eq!(m.total_bytes, n);
}

#[test]
fn largest_sizes_are_handled() {
    let mut m = FetchMonitor::new();
    let out = m.deliver_all(&vec![progress(u64::MAX, u64::MAX), FetchEvent::Completed { total_bytes: u64::MAX }]);
    assert_eq!(out.len(), 2);
    assert_eq!(m.downloaded_bytes, u64::MAX);
}

#[test]
fn empty_stream_delivers_nothing() {
    let mut m = FetchMonitor::new();
    assert!(m.deliver_all(&Vec::new()).is_empty());
    assert_eq!(m, FetchMonitor::new());
}
