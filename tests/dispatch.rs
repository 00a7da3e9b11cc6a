use caseta_listener::dispatcher::{
    build_cache_entry, get_bounded_next_higher_brightness_val,
    get_bounded_next_lower_brightness_val, get_next_scene, get_previous_scene, hue_scene_ids,
    plan_action, DeviceAction, DeviceActionDispatcher, DeviceActionMessage, DispatchError,
    LightingCommand,
};
use caseta_listener::hue_model::{
    GroupedLight, HueReference, HueResponse, LightGroupDimming, LightGroupOn,
};
use caseta_listener::remote_config::{ButtonId, CasetaRemote, RemoteConfiguration};
use caseta_listener::room_state::{consistent_state, new_cache, CurrentRoomState};
use caseta_listener::topology::{build_topology, ConfigurationError, Device, HomeConfiguration, Room, Scene};

fn five() -> CasetaRemote {
    CasetaRemote::FiveButtonPico { id: 7, name: "Office Pico".to_string() }
}

fn two() -> CasetaRemote {
    CasetaRemote::TwoButtonPico { id: 3, name: "Fireplace Pico".to_string() }
}

fn scene(name: &str, id: u128) -> Scene {
    Scene {
        name: name.to_string(),
        devices: vec![Device::HueScene { id, name: format!("{}_hue", name) }],
    }
}

fn room(scene_count: u128) -> Room {
    Room {
        name: "Living Room".to_string(),
        room_id: 11,
        grouped_light_room_id: 22,
        scenes: (0..scene_count).map(|i| scene(&format!("scene{}", i), 100 + i)).collect(),
        remotes: vec![7, 3],
    }
}

fn lit(brightness: u32, scene: Option<usize>) -> CurrentRoomState {
    CurrentRoomState::new(scene, Some(brightness), true)
}

fn off() -> CurrentRoomState {
    CurrentRoomState::new(None, None, false)
}

fn msg(action: DeviceAction, button: ButtonId) -> DeviceActionMessage {
    DeviceActionMessage::new(action, 7, button)
}

fn light(on: bool, brightness: u32) -> GroupedLight {
    GroupedLight {
        id: 22,
        on: LightGroupOn::new(on),
        dimming: LightGroupDimming::new(brightness),
        owner: HueReference::Room(11),
    }
}

#[test]
fn single_press_up_steps_brightness() {
    let r = plan_action(&msg(DeviceAction::SinglePressComplete, ButtonId::Up), &five(), &room(2), &lit(4230, None));
    assert_eq!(
        r,
        Ok(LightingCommand::UpdateBrightness { brightness: 4500, next: lit(4500, None) })
    );
}

#[test]
fn long_press_down_steps_each_tick() {
    let r = plan_action(&msg(DeviceAction::LongPressOngoing, ButtonId::Down), &five(), &room(2), &lit(5000, None));
    assert_eq!(r, Ok(LightingCommand::UpdateBrightness { brightness: 4500, next: lit(4500, None) }));
    let r = plan_action(&msg(DeviceAction::LongPressOngoing, ButtonId::Down), &five(), &room(2), &lit(4500, None));
    assert_eq!(r, Ok(LightingCommand::UpdateBrightness { brightness: 4000, next: lit(4000, None) }));
    let r = plan_action(&msg(DeviceAction::LongPressComplete, ButtonId::Down), &five(), &room(2), &lit(4000, None));
    assert_eq!(r, Ok(LightingCommand::NoEffect));
}

#[test]
fn double_press_steps_twice() {
    let r = plan_action(&msg(DeviceAction::DoublePressComplete, ButtonId::Up), &five(), &room(2), &lit(4230, Some(1)));
    assert_eq!(r, Ok(LightingCommand::UpdateBrightness { brightness: 5000, next: lit(5000, Some(1)) }));
    let r = plan_action(&msg(DeviceAction::DoublePressComplete, ButtonId::Down), &five(), &room(2), &lit(4230, None));
    assert_eq!(r, Ok(LightingCommand::UpdateBrightness { brightness: 3000, next: lit(3000, None) }));
}

#[test]
fn brightness_on_an_off_room_does_nothing() {
    let r = plan_action(&msg(DeviceAction::SinglePressComplete, ButtonId::Up), &five(), &room(2), &off());
    assert_eq!(r, Ok(LightingCommand::NoEffect));
}

#[test]
fn brightness_steps_are_bounded() {
    assert_eq!(get_bounded_next_higher_brightness_val(4230), 4500);
    assert_eq!(get_bounded_next_higher_brightness_val(4500), 5000);
    assert_eq!(get_bounded_next_higher_brightness_val(9600), 10000);
    assert_eq!(get_bounded_next_higher_brightness_val(10000), 10000);
    assert_eq!(get_bounded_next_higher_brightness_val(u32::MAX), 10000);
    assert_eq!(get_bounded_next_lower_brightness_val(4230), 3500);
    assert_eq!(get_bounded_next_lower_brightness_val(1000), 500);
    assert_eq!(get_bounded_next_lower_brightness_val(999), 100);
    assert_eq!(get_bounded_next_lower_brightness_val(300), 100);
    assert_eq!(get_bounded_next_lower_brightness_val(100), 100);
    assert_eq!(get_bounded_next_lower_brightness_val(10000), 9500);
    assert_eq!(get_bounded_next_lower_brightness_val(11000), 10000);
    assert_eq!(get_bounded_next_lower_brightness_val(u32::MAX), 10000);
    for v in (500..=9500).step_by(500) {
        assert_eq!(get_bounded_next_lower_brightness_val(get_bounded_next_higher_brightness_val(v)), v);
    }
    for v in (500..=10000).step_by(500) {
        assert_eq!(get_bounded_next_higher_brightness_val(get_bounded_next_lower_brightness_val(v)), v);
    }
}

#[test]
fn double_press_favorite_goes_back_a_scene() {
    let r = plan_action(&msg(DeviceAction::DoublePressComplete, ButtonId::Favorite), &five(), &room(2), &lit(7000, Some(0)));
    assert_eq!(
        r,
        Ok(LightingCommand::RecallScene { scene: 1, brightness: 7000, next: lit(7000, Some(1)) })
    );
}

#[test]
fn favorite_presses_cycle_through_scenes() {
    let start = lit(6000, Some(1));
    let mut state = start;
    for _ in 0..3 {
        match plan_action(&msg(DeviceAction::SinglePressComplete, ButtonId::Favorite), &five(), &room(3), &state) {
            Ok(LightingCommand::RecallScene { next, .. }) => state = next,
            other => panic!("unexpected {:?}", other),
        }
    }
    assert_eq!(state, start);
    let r = plan_action(&msg(DeviceAction::SinglePressComplete, ButtonId::Favorite), &five(), &room(3), &lit(6000, None));
    assert_eq!(r, Ok(LightingCommand::RecallScene { scene: 1, brightness: 6000, next: lit(6000, Some(1)) }));
    let r = plan_action(&msg(DeviceAction::LongPressComplete, ButtonId::Favorite), &five(), &room(3), &lit(6000, Some(2)));
    assert_eq!(r, Ok(LightingCommand::RecallScene { scene: 0, brightness: 6000, next: lit(6000, Some(0)) }));
    let r = plan_action(&msg(DeviceAction::LongPressOngoing, ButtonId::Favorite), &five(), &room(3), &lit(6000, Some(2)));
    assert_eq!(r, Ok(LightingCommand::NoEffect));
    assert_eq!(get_next_scene(2, 3), 0);
    assert_eq!(get_previous_scene(0, 3), 2);
    assert_eq!(get_previous_scene(2, 3), 1);
}

#[test]
fn favorite_errors() {
    let r = plan_action(&msg(DeviceAction::SinglePressComplete, ButtonId::Favorite), &five(), &room(0), &lit(6000, None));
    assert_eq!(r, Err(DispatchError::NoScenes));
    let r = plan_action(&msg(DeviceAction::SinglePressComplete, ButtonId::Favorite), &five(), &room(2), &lit(6000, Some(5)));
    assert_eq!(r, Err(DispatchError::UnknownScene(5)));
    let broken = CurrentRoomState::new(None, None, true);
    let r = plan_action(&msg(DeviceAction::SinglePressComplete, ButtonId::Favorite), &five(), &room(2), &broken);
    assert_eq!(r, Err(DispatchError::BrightnessMissing));
    let r = plan_action(&msg(DeviceAction::SinglePressComplete, ButtonId::Up), &five(), &room(2), &broken);
    assert_eq!(r, Err(DispatchError::BrightnessMissing));
    let r = plan_action(&msg(DeviceAction::SinglePressComplete, ButtonId::Favorite), &five(), &room(2), &off());
    assert_eq!(r, Ok(LightingCommand::NoEffect));
}

#[test]
fn power_on_turns_on_an_off_room() {
    let r = plan_action(&msg(DeviceAction::SinglePressComplete, ButtonId::PowerOn), &five(), &room(2), &off());
    assert_eq!(r, Ok(LightingCommand::TurnOn));
    let response = HueResponse::<GroupedLight> { data: vec![light(true, 6150)], errors: vec![] };
    let state = build_cache_entry(Some(1), &response);
    assert_eq!(state, Some(CurrentRoomState::new(Some(1), Some(6150), true)));
    let again = plan_action(&msg(DeviceAction::SinglePressComplete, ButtonId::PowerOn), &five(), &room(2), &state.unwrap());
    assert_eq!(again, Ok(LightingCommand::NoEffect));
    let r = plan_action(&msg(DeviceAction::DoublePressComplete, ButtonId::PowerOn), &five(), &room(2), &off());
    assert_eq!(r, Ok(LightingCommand::NoEffect));
}

#[test]
fn cache_entry_from_light_report() {
    let off_light = HueResponse::<GroupedLight> { data: vec![light(false, 5000)], errors: vec![] };
    assert_eq!(build_cache_entry(None, &off_light), Some(off()));
    let empty = HueResponse::<GroupedLight> { data: vec![], errors: vec![] };
    assert_eq!(build_cache_entry(None, &empty), None);
}

#[test]
fn power_off_is_idempotent() {
    let r = plan_action(&msg(DeviceAction::LongPressComplete, ButtonId::PowerOff), &five(), &room(2), &lit(5000, Some(1)));
    let next = CurrentRoomState::new(Some(1), None, false);
    assert_eq!(r, Ok(LightingCommand::TurnOff { next }));
    let again = plan_action(&msg(DeviceAction::SinglePressComplete, ButtonId::PowerOff), &five(), &room(2), &next);
    assert_eq!(again, Ok(LightingCommand::TurnOff { next }));
    let r = plan_action(&msg(DeviceAction::LongPressOngoing, ButtonId::PowerOff), &five(), &room(2), &next);
    assert_eq!(r, Ok(LightingCommand::NoEffect));
}

#[test]
fn two_button_remote_has_only_power_buttons() {
    let r = plan_action(&msg(DeviceAction::SinglePressComplete, ButtonId::Up), &two(), &room(2), &lit(5000, None));
    assert_eq!(r, Err(DispatchError::UnsupportedButton(ButtonId::Up)));
    let r = plan_action(&msg(DeviceAction::SinglePressComplete, ButtonId::Favorite), &two(), &room(2), &lit(5000, None));
    assert_eq!(r, Err(DispatchError::UnsupportedButton(ButtonId::Favorite)));
    let r = plan_action(&msg(DeviceAction::SinglePressComplete, ButtonId::PowerOn), &two(), &room(2), &off());
    assert_eq!(r, Ok(LightingCommand::TurnOn));
}

#[test]
fn only_hue_scenes_are_recalled() {
    let s = Scene {
        name: "white_warmth".to_string(),
        devices: vec![
            Device::HueScene { id: 1, name: "a".to_string() },
            Device::WemoOutlet { name: "Fireplace".to_string(), on: true },
            Device::NanoleafLightPanels { name: "Shapes".to_string(), on: true, effect: "cozy red".to_string() },
            Device::HueScene { id: 2, name: "b".to_string() },
        ],
    };
    assert_eq!(hue_scene_ids(&s), vec![1, 2]);
}

#[test]
fn topology_ties_remotes_to_rooms() {
    let remotes = RemoteConfiguration { remotes: vec![five(), two()] };
    let home = HomeConfiguration { rooms: vec![room(2)] };
    let topology = build_topology(remotes, home).expect("a valid configuration");
    let (remote, r) = topology.get(7).expect("remote 7 is configured");
    assert_eq!(remote.id(), 7);
    assert_eq!(r.name, "Living Room");
    assert!(topology.get(3).is_some());
    assert!(topology.get(9).is_none());
}

#[test]
fn later_entries_win_in_topology() {
    let remotes = RemoteConfiguration {
        remotes: vec![five(), CasetaRemote::TwoButtonPico { id: 7, name: "Other".to_string() }],
    };
    let mut second = room(1);
    second.name = "Kitchen".to_string();
    second.remotes = vec![7];
    let mut first = room(2);
    first.remotes = vec![7];
    let home = HomeConfiguration { rooms: vec![first, second] };
    let topology = build_topology(remotes, home).expect("a valid configuration");
    let (remote, r) = topology.get(7).unwrap();
    assert!(matches!(remote, CasetaRemote::TwoButtonPico { .. }));
    assert_eq!(r.name, "Kitchen");
}

#[test]
fn unknown_remote_in_room_is_a_configuration_error() {
    let remotes = RemoteConfiguration { remotes: vec![five()] };
    let home = HomeConfiguration { rooms: vec![room(2)] };
    assert!(matches!(build_topology(remotes, home), Err(ConfigurationError::UnknownRemote(3))));
}

#[test]
fn dispatcher_uses_topology_and_cache() {
    let remotes = RemoteConfiguration { remotes: vec![five(), two()] };
    let home = HomeConfiguration { rooms: vec![room(2)] };
    let topology = build_topology(remotes, home).unwrap();
    let dispatcher = DeviceActionDispatcher::new(topology, new_cache());
    let (_, r) = dispatcher.get_room_configuration(7).unwrap();
    assert_eq!(dispatcher.get_current_state(r), None);
    dispatcher.cache_current_state(r.room_id, lit(4500, Some(1)));
    assert_eq!(dispatcher.get_current_state(r), Some(lit(4500, Some(1))));
    let unknown = DeviceActionMessage::new(DeviceAction::SinglePressComplete, 9, ButtonId::Up);
    assert_eq!(dispatcher.handle_button_press(&unknown, &off()), Err(DispatchError::UnknownRemote(9)));
    let up = msg(DeviceAction::SinglePressComplete, ButtonId::Up);
    assert_eq!(
        dispatcher.handle_button_press(&up, &lit(4230, None)),
        Ok(LightingCommand::UpdateBrightness { brightness: 4500, next: lit(4500, None) })
    );
}

#[test]
fn cache_reads_drop_inconsistent_states() {
    assert_eq!(consistent_state(Some(lit(4500, Some(1)))), Some(lit(4500, Some(1))));
    assert_eq!(consistent_state(Some(off())), Some(off()));
    assert_eq!(consistent_state(Some(CurrentRoomState::new(None, None, true))), None);
    assert_eq!(consistent_state(Some(CurrentRoomState::new(None, Some(100), false))), None);
    assert_eq!(consistent_state(None), None);
}
