use pegasus::bus::{ProgressBus, Received, BUS_CAPACITY};
use pegasus::event::{ProgressEvent, Stage};

fn event(n: u64) -> ProgressEvent {
    ProgressEvent::new("job", "url", Stage::Downloading, n, &format!("event {}", n))
}

fn progress_of(r: Received) -> u64 {
    match r {
        Received::Event(e) => e.progress,
        Received::Lagged(n) => panic!("lagged by {}", n),
        Received::Empty => panic!("empty"),
    }
}

#[test]
fn publish_without_subscribers_is_silent() {
    let mut bus = ProgressBus::new();
    bus.publish(event(1));
    assert_eq!(bus.published(), 1);
}

#[test]
fn two_subscribers_receive_the_same_sequence() {
    let mut bus = ProgressBus::new();
    let mut a = bus.subscribe();
    let mut b = bus.subscribe();
    for n in 0..20 {
        bus.publish(event(n));
    }
    let mut seen_a = Vec::new();
    let mut seen_b = Vec::new();
    for _ in 0..20 {
        seen_a.push(progress_of(bus.try_receive(&mut a)));
        seen_b.push(progress_of(bus.try_receive(&mut b)));
    }
    assert_eq!(seen_a, (0..20).collect::<Vec<u64>>());
    assert_eq!(seen_a, seen_b);
    assert!(matches!(bus.try_receive(&mut a), Received::Empty));
    assert!(matches!(bus.try_receive(&mut b), Received::Empty));
}

#[test]
fn late_subscriber_sees_only_later_events() {
    let mut bus = ProgressBus::new();
    for n in 0..5 {
        bus.publish(event(n));
    }
    let mut late = bus.subscribe();
    assert!(matches!(bus.try_receive(&mut late), Received::Empty));
    for n in 5..8 {
        bus.publish(event(n));
    }
    for n in 5..8 {
        assert_eq!(progress_of(bus.try_receive(&mut late)), n);
    }
    assert!(matches!(bus.try_receive(&mut late), Received::Empty));
}

#[test]
fn slow_subscriber_is_told_of_overrun() {
    let mut bus = ProgressBus::new();
    let mut slow = bus.subscribe();
    for n in 0..150 {
        bus.publish(event(n));
    }
    match bus.try_receive(&mut slow) {
        Received::Lagged(missed) => assert_eq!(missed, 50),
        _ => panic!("expected an overrun report"),
    }
    for n in 50..150 {
        assert_eq!(progress_of(bus.try_receive(&mut slow)), n);
    }
    assert!(matches!(bus.try_receive(&mut slow), Received::Empty));
}

#[test]
fn capacity_events_are_kept_without_loss() {
    let mut bus = ProgressBus::new();
    let mut sub = bus.subscribe();
    for n in 0..BUS_CAPACITY as u64 {
        bus.publish(event(n));
    }
    for n in 0..BUS_CAPACITY as u64 {
        assert_eq!(progress_of(bus.try_receive(&mut sub)), n);
    }
}

#[test]
fn subscribers_do_not_interfere() {
    let mut bus = ProgressBus::new();
    let mut fast = bus.subscribe();
    let mut slow = bus.subscribe();
    for n in 0..120 {
        bus.publish(event(n));
        assert_eq!(progress_of(bus.try_receive(&mut fast)), n);
    }
    assert!(matches!(bus.try_receive(&mut slow), Received::Lagged(20)));
    assert_eq!(progress_of(bus.try_receive(&mut slow)), 20);
}

#[test]
fn received_event_keeps_its_fields() {
    let mut bus = ProgressBus::new();
    let mut sub = bus.subscribe();
    bus.publish(ProgressEvent::new("id-1", "http://x", Stage::Warning, 0, "ERROR: boom"));
    match bus.try_receive(&mut sub) {
        Received::Event(e) => {
            assert_eq!(e.job_id, "id-1");
            assert_eq!(e.url, "http://x");
            assert_eq!(e.stage, Stage::Warning);
            assert_eq!(e.message, "ERROR: boom");
        }
        _ => panic!("expected an event"),
    }
}

#[test]
fn late_subscriber_behind_capacity_gets_no_history() {
    let mut bus = ProgressBus::new();
    for n in 0..1000 {
        bus.publish(event(n));
    }
    let mut late = bus.subscribe();
    for n in 1000..1150 {
        bus.publish(event(n));
    }
    assert!(matches!(bus.try_receive(&mut late), Received::Lagged(50)));
    for n in 1050..1150 {
        assert_eq!(progress_of(bus.try_receive(&mut late)), n);
    }
}
