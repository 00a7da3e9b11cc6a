use caseta_listener::dispatcher::DeviceAction;
use caseta_listener::gesture::{route_button_event, ButtonState, RemoteHistory, RouteDecision};
use caseta_listener::remote_config::{ButtonAction, ButtonId};

fn pressed(button: ButtonId, now: u64) -> RemoteHistory {
    let mut h = RemoteHistory::new(button, now);
    h.increment(button, &ButtonAction::Press);
    h
}

#[test]
fn single_press_is_recognised() {
    let mut h = pressed(ButtonId::Up, 0);
    h.increment(ButtonId::Up, &ButtonAction::Release);
    assert_eq!(h.button_state, Some(ButtonState::FirstPressAndFirstRelease));
    let out = h.tick(true, 500);
    assert_eq!(out.action, Some(DeviceAction::SinglePressComplete));
    assert!(out.stop);
    assert!(h.finished);
}

#[test]
fn long_press_is_recognised() {
    let mut h = pressed(ButtonId::Down, 0);
    let out = h.tick(true, 500);
    assert_eq!(out.action, None);
    assert!(!out.stop);
    let out = h.tick(false, 1000);
    assert_eq!(out.action, Some(DeviceAction::LongPressOngoing));
    assert!(!out.stop);
    let out = h.tick(false, 1500);
    assert_eq!(out.action, Some(DeviceAction::LongPressOngoing));
    h.increment(ButtonId::Down, &ButtonAction::Release);
    assert_eq!(h.button_state, Some(ButtonState::FirstPressAndFirstRelease));
    let out = h.tick(false, 2500);
    assert_eq!(out.action, Some(DeviceAction::LongPressComplete));
    assert!(out.stop);
}

#[test]
fn double_press_is_recognised() {
    let mut h = pressed(ButtonId::Favorite, 0);
    h.increment(ButtonId::Favorite, &ButtonAction::Release);
    h.increment(ButtonId::Favorite, &ButtonAction::Press);
    assert_eq!(h.button_state, Some(ButtonState::SecondPressAwaitingRelease));
    h.increment(ButtonId::Favorite, &ButtonAction::Release);
    assert_eq!(h.button_state, Some(ButtonState::SecondPressAndSecondRelease));
    h.increment(ButtonId::Favorite, &ButtonAction::Press);
    assert_eq!(h.button_state, Some(ButtonState::SecondPressAndSecondRelease));
    let out = h.tick(true, 500);
    assert_eq!(out.action, Some(DeviceAction::DoublePressComplete));
    assert!(out.stop);
}

#[test]
fn double_press_waits_for_second_release() {
    let mut h = pressed(ButtonId::Up, 0);
    h.increment(ButtonId::Up, &ButtonAction::Release);
    h.increment(ButtonId::Up, &ButtonAction::Press);
    let out = h.tick(true, 500);
    assert_eq!(out.action, None);
    let out = h.tick(false, 1000);
    assert_eq!(out.action, None);
    h.increment(ButtonId::Up, &ButtonAction::Release);
    let out = h.tick(false, 1500);
    assert_eq!(out.action, Some(DeviceAction::DoublePressComplete));
}

#[test]
fn other_buttons_and_stray_releases_are_ignored() {
    let mut h = pressed(ButtonId::PowerOn, 0);
    h.increment(ButtonId::PowerOff, &ButtonAction::Release);
    assert_eq!(h.button_state, Some(ButtonState::FirstPressAwaitingRelease));
    h.increment(ButtonId::PowerOn, &ButtonAction::Press);
    assert_eq!(h.button_state, Some(ButtonState::FirstPressAwaitingRelease));
    let mut fresh = RemoteHistory::new(ButtonId::Up, 0);
    fresh.increment(ButtonId::Up, &ButtonAction::Release);
    assert_eq!(fresh.button_state, None);
}

#[test]
fn gesture_ends_at_the_deadline() {
    let mut h = pressed(ButtonId::Up, 1000);
    assert!(!h.is_finished(5999));
    assert!(h.is_finished(6000));
    let out = h.tick(false, 5999);
    assert_eq!(out.action, Some(DeviceAction::LongPressOngoing));
    assert!(!out.stop);
    let out = h.tick(false, 6000);
    assert_eq!(out.action, Some(DeviceAction::LongPressOngoing));
    assert!(out.stop);
    assert!(h.finished);
}

#[test]
fn finished_gesture_emits_nothing() {
    let mut h = pressed(ButtonId::Up, 0);
    h.increment(ButtonId::Up, &ButtonAction::Release);
    assert_eq!(h.tick(true, 500).action, Some(DeviceAction::SinglePressComplete));
    let out = h.tick(false, 1000);
    assert_eq!(out.action, None);
    assert!(out.stop);
}

#[test]
fn next_button_state_steps() {
    assert_eq!(
        ButtonState::FirstPressAwaitingRelease.next_button_state(),
        ButtonState::FirstPressAndFirstRelease
    );
    assert_eq!(
        ButtonState::SecondPressAndSecondRelease.next_button_state(),
        ButtonState::SecondPressAndSecondRelease
    );
}

#[test]
fn router_decisions() {
    assert_eq!(route_button_event(false, true, ButtonAction::Press), RouteDecision::IgnoreUnconfigured);
    assert_eq!(route_button_event(true, true, ButtonAction::Release), RouteDecision::Ingest);
    assert_eq!(route_button_event(true, false, ButtonAction::Release), RouteDecision::DropRelease);
    assert_eq!(route_button_event(true, false, ButtonAction::Press), RouteDecision::StartTracking);
}

#[test]
fn names_of_states_and_actions() {
    assert_eq!(ButtonState::SecondPressAwaitingRelease.name(), "SecondPressAwaitingRelease");
    assert_eq!(ButtonAction::Press.name(), "Press");
    assert_eq!(ButtonId::PowerOff.name(), "PowerOff");
}
