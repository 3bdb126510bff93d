use auto_audio_recorder::trigger_monitor::{TriggerEvent, TriggerMonitor, TriggerState};

#[test]
fn a_monitor_begins_inactive() {
    let monitor = TriggerMonitor::new();
    assert_eq!(monitor.state(), TriggerState::Inactive);
    assert!(!monitor.is_active());
}

#[test]
fn five_positive_polls_give_one_activation() {
    let mut monitor = TriggerMonitor::new();
    let mut activations = 0;
    let mut others = 0;
    for _ in 0..5 {
        match monitor.poll(true) {
            Some(TriggerEvent::Activated) => activations += 1,
            Some(TriggerEvent::Deactivated) => others += 1,
            None => {}
        }
    }
    assert_eq!(activations, 1);
    assert_eq!(others, 0);
    assert_eq!(monitor.state(), TriggerState::Active);
    assert!(monitor.is_active());
}

#[test]
fn each_change_is_reported_once() {
    let mut monitor = TriggerMonitor::new();
    assert_eq!(monitor.poll(false), None);
    assert_eq!(monitor.poll(true), Some(TriggerEvent::Activated));
    assert_eq!(monitor.poll(true), None);
    assert_eq!(monitor.poll(false), Some(TriggerEvent::Deactivated));
    assert_eq!(monitor.poll(false), None);
    assert_eq!(monitor.poll(true), Some(TriggerEvent::Activated));
    assert_eq!(monitor.poll(false), Some(TriggerEvent::Deactivated));
    assert_eq!(monitor.state(), TriggerState::Inactive);
}
