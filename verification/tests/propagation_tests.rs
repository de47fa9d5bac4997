use order_propagation::packet::PacketId;
use order_propagation::propagation::Propagation;
use std::time::Duration;

#[test]
fn a_run_ends_at_its_threshold() {
    let mut run = Propagation::new(PacketId::new(4), 3);
    assert_eq!(run.received_count(), 0);
    assert!(!run.on_report(PacketId::new(4), Duration::from_millis(1)));
    assert!(!run.on_report(PacketId::new(4), Duration::from_millis(2)));
    assert_eq!(run.received_count(), 2);
    assert!(run.on_report(PacketId::new(4), Duration::from_millis(5)));
    assert_eq!(run.received_count(), 3);
    assert_eq!(
        run.into_latencies(),
        vec![Duration::from_millis(1), Duration::from_millis(2), Duration::from_millis(5)]
    );
}

#[test]
fn reports_for_other_packets_are_ignored() {
    let mut run = Propagation::new(PacketId::new(1), 1);
    assert!(!run.on_report(PacketId::new(0), Duration::from_millis(1)));
    assert!(!run.on_report(PacketId::new(2), Duration::from_millis(2)));
    assert_eq!(run.received_count(), 0);
    assert!(run.on_report(PacketId::new(1), Duration::from_millis(3)));
    assert_eq!(run.into_latencies(), vec![Duration::from_millis(3)]);
}

#[test]
fn a_threshold_of_zero_still_waits_for_one_report() {
    let mut run = Propagation::new(PacketId::new(1), 0);
    assert!(!run.on_report(PacketId::new(9), Duration::ZERO));
    assert!(run.on_report(PacketId::new(1), Duration::ZERO));
    assert_eq!(run.received_count(), 1);
}

#[test]
fn reports_past_the_threshold_still_count() {
    let mut run = Propagation::new(PacketId::new(1), 1);
    assert!(run.on_report(PacketId::new(1), Duration::from_secs(1)));
    assert!(run.on_report(PacketId::new(1), Duration::from_secs(2)));
    assert_eq!(run.received_count(), 2);
}
