use eruption::dbus::{DbusClientError, OrgEruptionConfigBrightnessChanged};
use eruption::events::{notify_observers, register_observer, Event, EventClass, ObserverRegistry};

#[test]
fn registration_order_is_kept() {
    let mut reg = ObserverRegistry::new();
    register_observer(&mut reg, EventClass::Keyboard, 5);
    register_observer(&mut reg, EventClass::Keyboard, 3);
    register_observer(&mut reg, EventClass::Keyboard, 9);
    assert_eq!(reg.keyboard_observers, vec![5, 3, 9]);
}

#[test]
fn every_observer_is_notified_exactly_once_in_order() {
    let mut reg = ObserverRegistry::new();
    register_observer(&mut reg, EventClass::Keyboard, 1);
    register_observer(&mut reg, EventClass::Keyboard, 2);
    let calls = notify_observers(&reg, Event::KeyUp(42));
    assert_eq!(calls.len(), 2);
    assert_eq!(calls[0].observer, 1);
    assert_eq!(calls[1].observer, 2);
    assert!(calls.iter().all(|c| c.event == Event::KeyUp(42)));
}

#[test]
fn no_observers_means_no_calls() {
    let reg = ObserverRegistry::new();
    assert!(notify_observers(&reg, Event::KeyDown(1)).is_empty());
}

#[test]
fn control_plane_payloads_carry_their_values() {
    let err = DbusClientError::MethodFailed { description: "timeout".to_string() };
    assert_eq!(err.description(), "timeout");
    let err = DbusClientError::AuthError { description: "denied".to_string() };
    assert_eq!(err.description(), "denied");
    let signal = OrgEruptionConfigBrightnessChanged { brightness: 80 };
    assert_eq!(signal.brightness, 80);
}
