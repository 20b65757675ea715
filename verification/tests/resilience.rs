use vidodo::ipc::RuntimeHealth;
use vidodo::resilience::{DegradeNotice, ResilienceMonitor};

fn ms(v: f64) -> u64 {
    v.to_bits()
}

/// Degrades each healthy runtime whose last heartbeat is at least the
/// threshold before `now_ms`, as the caller's clock finds them.
fn check(monitor: &mut ResilienceMonitor, now_ms: f64) -> Vec<DegradeNotice> {
    let threshold = f64::from_bits(monitor.hang_threshold_ms_bits());
    let mut notices = Vec::new();
    for (name, last) in monitor.hang_candidates() {
        let silent = now_ms - f64::from_bits(last);
        if silent >= threshold {
            let reason = format!("runtime '{}' unresponsive for {:.0}ms (threshold: {:.0}ms)", name, silent, threshold);
            if let Some(n) = monitor.mark_hung(&name, ms(now_ms), reason) {
                notices.push(n);
            }
        }
    }
    notices
}

#[test]
fn hang_detected_within_threshold() {
    let mut monitor = ResilienceMonitor::new(ms(500.0));
    monitor.register("audio", ms(0.0));
    monitor.register("visual", ms(0.0));

    let notices = check(&mut monitor, 400.0);
    assert!(notices.is_empty());

    let notices = check(&mut monitor, 500.0);
    assert_eq!(notices.len(), 2);
    assert!(notices.iter().all(|n| n.health == RuntimeHealth::Degraded));
}

#[test]
fn heartbeat_prevents_degrade() {
    let mut monitor = ResilienceMonitor::new(ms(500.0));
    monitor.register("audio", ms(0.0));
    monitor.heartbeat("audio", ms(300.0));

    let notices = check(&mut monitor, 700.0);
    assert!(notices.is_empty());

    let notices = check(&mut monitor, 801.0);
    assert_eq!(notices.len(), 1);
    assert_eq!(notices[0].runtime_name, "audio");
}

#[test]
fn panic_detected_and_others_unaffected() {
    let mut monitor = ResilienceMonitor::new(ms(500.0));
    monitor.register("audio", ms(0.0));
    monitor.register("visual", ms(0.0));

    let notice = monitor.mark_panicked("audio", ms(100.0));
    assert!(notice.is_some());
    assert_eq!(notice.unwrap().health, RuntimeHealth::Panicked);

    assert_eq!(monitor.health("audio"), Some(RuntimeHealth::Panicked));
    assert_eq!(monitor.health("visual"), Some(RuntimeHealth::Healthy));

    monitor.heartbeat("visual", ms(200.0));
    let notices = check(&mut monitor, 600.0);
    assert!(notices.is_empty());
}

#[test]
fn heartbeat_recovers_degraded_runtime() {
    let mut monitor = ResilienceMonitor::new(ms(500.0));
    monitor.register("audio", ms(0.0));

    let notices = check(&mut monitor, 600.0);
    assert_eq!(notices.len(), 1);
    assert_eq!(monitor.health("audio"), Some(RuntimeHealth::Degraded));

    monitor.heartbeat("audio", ms(700.0));
    assert_eq!(monitor.health("audio"), Some(RuntimeHealth::Healthy));

    let notices = check(&mut monitor, 900.0);
    assert!(notices.is_empty());
}

#[test]
fn degrade_not_re_emitted_for_already_degraded() {
    let mut monitor = ResilienceMonitor::new(ms(500.0));
    monitor.register("audio", ms(0.0));

    let notices = check(&mut monitor, 600.0);
    assert_eq!(notices.len(), 1);

    let notices = check(&mut monitor, 1200.0);
    assert!(notices.is_empty());
}

#[test]
fn panic_notice_names_the_thread_and_counts_add_up() {
    let mut monitor = ResilienceMonitor::new(ms(500.0));
    monitor.register("audio", ms(0.0));
    monitor.register("visual", ms(0.0));
    monitor.register("lighting", ms(0.0));
    let notice = monitor.mark_panicked("audio", ms(100.0)).unwrap();
    assert_eq!(notice.reason, "runtime thread 'audio' panicked");
    assert_eq!(notice.detected_at_ms_bits, ms(100.0));
    assert!(monitor.mark_panicked("nobody", ms(100.0)).is_none());
    monitor.heartbeat("lighting", ms(450.0));
    let notices = check(&mut monitor, 500.0);
    assert_eq!(notices.len(), 1);
    assert_eq!(notices[0].reason, "runtime 'visual' unresponsive for 500ms (threshold: 500ms)");
    assert_eq!(monitor.runtime_count(), 3);
    assert_eq!(monitor.count_in_state(RuntimeHealth::Healthy), 1);
    assert_eq!(monitor.count_in_state(RuntimeHealth::Degraded), 1);
    assert_eq!(monitor.count_in_state(RuntimeHealth::Panicked), 1);
    assert!(monitor.health("nobody").is_none());
}
