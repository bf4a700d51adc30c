use ditto_demo::observer::{FirstResultGate, GatePhase, ObserverEvent};

#[test]
fn first_non_empty_result_fires() {
    let mut g = FirstResultGate::new();
    assert!(!g.on_results(0));
    assert_eq!(g.phase, GatePhase::Waiting);
    assert!(g.on_results(2));
    assert!(g.has_fired());
}

#[test]
fn nothing_taken_after_firing() {
    let mut g = FirstResultGate::new();
    assert!(g.on_results(1));
    assert!(!g.on_results(1));
    assert!(!g.on_results(5));
    assert!(g.has_fired());
}

#[test]
fn cancel_after_fire_stops_deliveries() {
    let mut g = FirstResultGate::new();
    assert!(g.on_results(1));
    g.cancel();
    assert_eq!(g.phase, GatePhase::Cancelled);
    assert!(!g.on_results(3));
    assert!(!g.on_event(ObserverEvent::Results { item_count: 1 }));
}

#[test]
fn cancel_before_any_result() {
    let mut g = FirstResultGate::new();
    assert!(!g.on_event(ObserverEvent::Cancel));
    assert!(!g.on_results(1));
    assert!(!g.has_fired());
}

#[test]
fn sequence_takes_exactly_one() {
    let mut g = FirstResultGate::new();
    let evs = [0usize, 0, 3, 1, 0, 7];
    let taken: usize = evs
        .iter()
        .filter(|&&c| g.on_event(ObserverEvent::Results { item_count: c }))
        .count();
    assert_eq!(taken, 1);
}
