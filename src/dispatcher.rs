//! Gestures and what each one does to a room's lights.
use vstd::prelude::*;
use crate::gesture::is_terminal;
use crate::hue_model::{GroupedLight, HueResponse};
use crate::remote_config::{ButtonId, CasetaRemote, RemoteId};
use crate::room_state::{CurrentRoomState, RoomStateCache};
use crate::topology::{Device, Room, Scene, Topology};

verus! {

/// A gesture recognised on one button of a remote.
#[derive(Debug, Clone, Copy, PartialEq, Eq, Structural)]
pub enum DeviceAction {
    SinglePressComplete,
    DoublePressComplete,
    LongPressStart,
    LongPressOngoing,
    LongPressComplete,
}

/// A gesture together with the remote and button it was made on.
#[derive(Debug, Clone, Copy, PartialEq, Eq, Structural)]
pub struct DeviceActionMessage {
    pub device_action: DeviceAction,
    pub remote_id: RemoteId,
    pub button_id: ButtonId,
}

impl DeviceActionMessage {
    pub fn new(device_action: DeviceAction, remote_id: RemoteId, button_id: ButtonId) -> (r: Self)
        ensures
            r.device_action == device_action,
            r.remote_id == remote_id,
            r.button_id == button_id,
    {
        DeviceActionMessage { device_action, remote_id, button_id }
    }
}

/// Step of a brightness change, in hundredths of a percent.
pub const BRIGHTNESS_UPDATE_AMOUNT: u32 = 500;

/// Highest brightness, in hundredths of a percent.
pub const MAXIMUM_BRIGHTNESS: u32 = 10000;

/// Lowest brightness of a room that is on, in hundredths of a percent.
pub const MINIMUM_BRIGHTNESS: u32 = 100;

/// The next multiple of the step above `v`, at most the maximum.
pub open spec fn brightness_up(v: int) -> int {
    let next = BRIGHTNESS_UPDATE_AMOUNT * (v / BRIGHTNESS_UPDATE_AMOUNT as int + 1);
    if next < MAXIMUM_BRIGHTNESS {
        next
    } else {
        MAXIMUM_BRIGHTNESS as int
    }
}

/// The multiple of the step below the one that `v` reaches, between the
/// minimum and the maximum.
pub open spec fn brightness_down(v: int) -> int {
    let next = BRIGHTNESS_UPDATE_AMOUNT * (v / BRIGHTNESS_UPDATE_AMOUNT as int - 1);
    if next <= MINIMUM_BRIGHTNESS {
        MINIMUM_BRIGHTNESS as int
    } else if next >= MAXIMUM_BRIGHTNESS {
        MAXIMUM_BRIGHTNESS as int
    } else {
        next
    }
}

/// What the dispatcher asks of the lighting API for one gesture, with the room
/// state to record once the API has done it.
#[derive(Debug, Clone, Copy, PartialEq, Eq, Structural)]
pub enum LightingCommand {
    /// Nothing to do.
    NoEffect,
    /// Turn the room's lights on; the state to record is read back from the API.
    TurnOn,
    /// Turn the room's lights off.
    TurnOff { next: CurrentRoomState },
    /// Set the brightness of the room's lights.
    UpdateBrightness { brightness: u32, next: CurrentRoomState },
    /// Recall the scene at index `scene` of the room at `brightness`.
    RecallScene { scene: usize, brightness: u32, next: CurrentRoomState },
}

/// Why a gesture is dropped.
#[derive(Debug, Clone, Copy, PartialEq, Eq, Structural)]
pub enum DispatchError {
    /// The topology does not know the remote.
    UnknownRemote(RemoteId),
    /// The remote's kind has no such button.
    UnsupportedButton(ButtonId),
    /// The room is on but its brightness is not known.
    BrightnessMissing,
    /// The room has no scenes.
    NoScenes,
    /// The active scene is not a scene of the room.
    UnknownScene(usize),
}

/// The scene index that a favorite-button gesture selects, from the active
/// scene `i` of `n`; `None` where the gesture selects none.
pub open spec fn favorite_target(action: DeviceAction, i: int, n: int) -> Option<int> {
    match action {
        DeviceAction::SinglePressComplete => Some((i + 1) % n),
        DeviceAction::DoublePressComplete => Some((i - 1) % n),
        DeviceAction::LongPressComplete => Some(0),
        _ => None,
    }
}

/// What a gesture on `button` does to a room in `state` with `scene_count`
/// scenes; `two_button` says whether the remote is a two-button one.
pub open spec fn plan_spec(
    action: DeviceAction,
    button: ButtonId,
    two_button: bool,
    scene_count: nat,
    state: CurrentRoomState,
) -> Result<LightingCommand, DispatchError> {
    if two_button && button != ButtonId::PowerOn && button != ButtonId::PowerOff {
        Err(DispatchError::UnsupportedButton(button))
    } else {
        match button {
            ButtonId::PowerOn => if action == DeviceAction::SinglePressComplete && !state.on {
                Ok(LightingCommand::TurnOn)
            } else {
                Ok(LightingCommand::NoEffect)
            },
            ButtonId::PowerOff => if is_terminal(action) {
                Ok(
                    LightingCommand::TurnOff {
                        next: CurrentRoomState { scene: state.scene, brightness: None, on: false },
                    },
                )
            } else {
                Ok(LightingCommand::NoEffect)
            },
            ButtonId::Up | ButtonId::Down => if !state.on {
                Ok(LightingCommand::NoEffect)
            } else {
                match state.brightness {
                    None => Err(DispatchError::BrightnessMissing),
                    Some(b) => {
                        let step = |v: int|
                            if button == ButtonId::Up {
                                brightness_up(v)
                            } else {
                                brightness_down(v)
                            };
                        let target = match action {
                            DeviceAction::LongPressComplete => None,
                            DeviceAction::DoublePressComplete => Some(step(step(b as int))),
                            _ => Some(step(b as int)),
                        };
                        match target {
                            None => Ok(LightingCommand::NoEffect),
                            Some(t) => Ok(
                                LightingCommand::UpdateBrightness {
                                    brightness: t as u32,
                                    next: CurrentRoomState { brightness: Some(t as u32), ..state },
                                },
                            ),
                        }
                    },
                }
            },
            ButtonId::Favorite => if !state.on {
                Ok(LightingCommand::NoEffect)
            } else {
                match state.brightness {
                    None => Err(DispatchError::BrightnessMissing),
                    Some(b) => if favorite_target(action, 0, 1) is None {
                        Ok(LightingCommand::NoEffect)
                    } else if scene_count == 0 {
                        Err(DispatchError::NoScenes)
                    } else {
                        let i: int = match state.scene {
                            Some(i) => i as int,
                            None => 0,
                        };
                        if i >= scene_count {
                            Err(DispatchError::UnknownScene(i as usize))
                        } else {
                            let t = favorite_target(action, i, scene_count as int)->0;
                            Ok(
                                LightingCommand::RecallScene {
                                    scene: t as usize,
                                    brightness: b,
                                    next: CurrentRoomState { scene: Some(t as usize), ..state },
                                },
                            )
                        }
                    },
                }
            },
        }
    }
}

/// The state of a room from what the lighting API reports of its lights.
pub open spec fn state_from_light(scene: Option<usize>, light: GroupedLight) -> CurrentRoomState {
    CurrentRoomState {
        scene,
        brightness: if light.on.on {
            Some(light.dimming.brightness)
        } else {
            None
        },
        on: light.on.on,
    }
}

/// The identifiers of the lighting API's scenes among `devices`, in order.
pub open spec fn hue_scene_ids_of(devices: Seq<Device>) -> Seq<u128>
    decreases devices.len(),
{
    if devices.len() == 0 {
        seq![]
    } else {
        hue_scene_ids_of(devices.drop_last()) + match devices.last() {
            Device::HueScene { id, .. } => seq![id],
            _ => seq![],
        }
    }
}

/// The next multiple of the step above `current_value`, at most the maximum.
pub fn get_bounded_next_higher_brightness_val(current_value: u32) -> (r: u32)
    ensures
        r as int == brightness_up(current_value as int),
{
    let quotient = current_value / BRIGHTNESS_UPDATE_AMOUNT;
    if quotient >= 19 {
        MAXIMUM_BRIGHTNESS
    } else {
        BRIGHTNESS_UPDATE_AMOUNT * (quotient + 1)
    }
}

/// The multiple of the step below the one `current_value` reaches, between the
/// minimum and the maximum.
pub fn get_bounded_next_lower_brightness_val(current_value: u32) -> (r: u32)
    ensures
        r as int == brightness_down(current_value as int),
{
    let quotient = current_value / BRIGHTNESS_UPDATE_AMOUNT;
    if quotient <= 1 {
        MINIMUM_BRIGHTNESS
    } else if quotient >= 21 {
        MAXIMUM_BRIGHTNESS
    } else {
        assert(BRIGHTNESS_UPDATE_AMOUNT * quotient <= current_value);
        BRIGHTNESS_UPDATE_AMOUNT * (quotient - 1)
    }
}

/// The scene after scene `current` of `scene_count`, back to the first after the last.
pub fn get_next_scene(current: usize, scene_count: usize) -> (r: usize)
    requires
        current < scene_count,
    ensures
        r as int == (current + 1) % (scene_count as int),
{
    (current + 1) % scene_count
}

/// The scene before scene `current` of `scene_count`, back to the last before the first.
pub fn get_previous_scene(current: usize, scene_count: usize) -> (r: usize)
    requires
        current < scene_count,
    ensures
        r as int == (current - 1) % (scene_count as int),
{
    if current == 0 {
        proof {
            vstd::arithmetic::div_mod::lemma_mod_add_multiples_vanish(-1, scene_count as int);
            vstd::arithmetic::div_mod::lemma_small_mod(
                (scene_count - 1) as nat,
                scene_count as nat,
            );
        }
        scene_count - 1
    } else {
        proof {
            vstd::arithmetic::div_mod::lemma_small_mod((current - 1) as nat, scene_count as nat);
        }
        current - 1
    }
}

/// The first scene.
pub fn get_first_scene() -> (r: usize)
    ensures
        r == 0,
{
    0
}

/// What a gesture does to a room in `state`: the remote's kind decides which
/// buttons count, and the room's scenes are the ones a favorite press cycles.
pub fn plan_action(
    message: &DeviceActionMessage,
    remote: &CasetaRemote,
    room: &Room,
    state: &CurrentRoomState,
) -> (r: Result<LightingCommand, DispatchError>)
    ensures
        r == plan_spec(
            message.device_action,
            message.button_id,
            remote is TwoButtonPico,
            room.scenes@.len(),
            *state,
        ),
{
    let action = message.device_action;
    let button = message.button_id;
    let two_button = match remote {
        CasetaRemote::TwoButtonPico { .. } => true,
        CasetaRemote::FiveButtonPico { .. } => false,
    };
    if two_button && button != ButtonId::PowerOn && button != ButtonId::PowerOff {
        return Err(DispatchError::UnsupportedButton(button));
    }
    match button {
        ButtonId::PowerOn => {
            if action == DeviceAction::SinglePressComplete && !state.on {
                Ok(LightingCommand::TurnOn)
            } else {
                Ok(LightingCommand::NoEffect)
            }
        },
        ButtonId::PowerOff => match action {
            DeviceAction::SinglePressComplete
            | DeviceAction::DoublePressComplete
            | DeviceAction::LongPressComplete => Ok(
                LightingCommand::TurnOff {
                    next: CurrentRoomState::new(state.scene, None, false),
                },
            ),
            DeviceAction::LongPressStart | DeviceAction::LongPressOngoing => Ok(
                LightingCommand::NoEffect,
            ),
        },
        ButtonId::Up | ButtonId::Down => {
            if !state.on {
                return Ok(LightingCommand::NoEffect);
            }
            let current = match state.brightness {
                None => return Err(DispatchError::BrightnessMissing),
                Some(b) => b,
            };
            let up = button == ButtonId::Up;
            let target = match action {
                DeviceAction::LongPressComplete => return Ok(LightingCommand::NoEffect),
                DeviceAction::DoublePressComplete => {
                    if up {
                        let once = get_bounded_next_higher_brightness_val(current);
                        get_bounded_next_higher_brightness_val(once)
                    } else {
                        let once = get_bounded_next_lower_brightness_val(current);
                        get_bounded_next_lower_brightness_val(once)
                    }
                },
                _ => {
                    if up {
                        get_bounded_next_higher_brightness_val(current)
                    } else {
                        get_bounded_next_lower_brightness_val(current)
                    }
                },
            };
            Ok(
                LightingCommand::UpdateBrightness {
                    brightness: target,
                    next: CurrentRoomState::new(state.scene, Some(target), state.on),
                },
            )
        },
        ButtonId::Favorite => {
            if !state.on {
                return Ok(LightingCommand::NoEffect);
            }
            let brightness = match state.brightness {
                None => return Err(DispatchError::BrightnessMissing),
                Some(b) => b,
            };
            match action {
                DeviceAction::LongPressStart | DeviceAction::LongPressOngoing => {
                    return Ok(LightingCommand::NoEffect);
                },
                _ => {},
            }
            let scene_count = room.scenes.len();
            if scene_count == 0 {
                return Err(DispatchError::NoScenes);
            }
            let current = match state.scene {
                Some(i) => i,
                None => 0,
            };
            if current >= scene_count {
                return Err(DispatchError::UnknownScene(current));
            }
            let target = match action {
                DeviceAction::SinglePressComplete => get_next_scene(current, scene_count),
                DeviceAction::DoublePressComplete => get_previous_scene(current, scene_count),
                _ => get_first_scene(),
            };
            Ok(
                LightingCommand::RecallScene {
                    scene: target,
                    brightness,
                    next: CurrentRoomState::new(Some(target), state.brightness, state.on),
                },
            )
        },
    }
}

/// The state of a room from the lighting API's report of its lights, with
/// `scene` as the active scene; `None` when the report holds no lights.
pub fn build_cache_entry(scene: Option<usize>, grouped_light_response: &HueResponse<GroupedLight>) -> (r:
    Option<CurrentRoomState>)
    ensures
        grouped_light_response.data@.len() == 0 ==> r is None,
        grouped_light_response.data@.len() > 0 ==> r == Some(
            state_from_light(scene, grouped_light_response.data@[0]),
        ),
        r matches Some(s) ==> s.wf(),
{
    if grouped_light_response.data.len() == 0 {
        return None;
    }
    let light = &grouped_light_response.data[0];
    let brightness = if light.on.on {
        Some(light.dimming.brightness)
    } else {
        None
    };
    Some(CurrentRoomState::new(scene, brightness, light.on.on))
}

/// The identifiers of the lighting API's scenes that `scene` recalls, in order;
/// its other devices are not acted on.
pub fn hue_scene_ids(scene: &Scene) -> (r: Vec<u128>)
    ensures
        r@ == hue_scene_ids_of(scene.devices@),
{
    let devices = &scene.devices;
    let mut ids: Vec<u128> = Vec::new();
    let mut k: usize = 0;
    while k < devices.len()
        invariant
            k <= devices@.len(),
            ids@ == hue_scene_ids_of(devices@.subrange(0, k as int)),
        decreases devices@.len() - k,
    {
        let ghost before = devices@.subrange(0, k as int);
        assert(devices@.subrange(0, k + 1).drop_last() =~= before);
        assert(devices@.subrange(0, k + 1).last() == devices@[k as int]);
        match &devices[k] {
            Device::HueScene { id, .. } => {
                ids.push(*id);
            },
            _ => {},
        }
        assert(ids@ =~= hue_scene_ids_of(devices@.subrange(0, k + 1)));
        k = k + 1;
    }
    assert(devices@.subrange(0, k as int) =~= devices@);
    ids
}

/// A brightness step stays within bounds, and lands on a multiple of the step
/// unless it stops at a bound.
pub proof fn lemma_brightness_step_bounds(v: int)
    requires
        MINIMUM_BRIGHTNESS <= v <= MAXIMUM_BRIGHTNESS,
    ensures
        MINIMUM_BRIGHTNESS <= brightness_up(v) <= MAXIMUM_BRIGHTNESS,
        MINIMUM_BRIGHTNESS <= brightness_down(v) <= MAXIMUM_BRIGHTNESS,
        MINIMUM_BRIGHTNESS < brightness_up(v) < MAXIMUM_BRIGHTNESS ==> brightness_up(v)
            % BRIGHTNESS_UPDATE_AMOUNT as int == 0,
        MINIMUM_BRIGHTNESS < brightness_down(v) < MAXIMUM_BRIGHTNESS ==> brightness_down(v)
            % BRIGHTNESS_UPDATE_AMOUNT as int == 0,
{
    let q = v / 500;
    assert(0 <= q <= 20);
    assert((500 * (q + 1)) % 500 == 0);
    assert((500 * (q - 1)) % 500 == 0);
}

/// On multiples of the step away from the bounds, a step up and a step down
/// undo each other.
pub proof fn lemma_brightness_steps_inverse(v: int)
    requires
        v % BRIGHTNESS_UPDATE_AMOUNT as int == 0,
    ensures
        BRIGHTNESS_UPDATE_AMOUNT <= v <= MAXIMUM_BRIGHTNESS - BRIGHTNESS_UPDATE_AMOUNT ==> brightness_down(
            brightness_up(v),
        ) == v,
        BRIGHTNESS_UPDATE_AMOUNT <= v <= MAXIMUM_BRIGHTNESS ==> brightness_up(brightness_down(v))
            == v,
{
    let q = v / 500;
    assert(v == 500 * q);
    assert((500 * (q + 1)) / 500 == q + 1);
    assert((500 * (q - 1)) / 500 == q - 1);
    assert(100int / 500 == 0);
}

/// Turning a room off clears its brightness, and turning it off again records
/// the same state.
pub proof fn lemma_turn_off_idempotent(
    action: DeviceAction,
    two_button: bool,
    scene_count: nat,
    state: CurrentRoomState,
)
    requires
        is_terminal(action),
    ensures
        plan_spec(action, ButtonId::PowerOff, two_button, scene_count, state) matches Ok(
            LightingCommand::TurnOff { next },
        ) && !next.on && next.brightness is None && next.scene == state.scene && plan_spec(
            action,
            ButtonId::PowerOff,
            two_button,
            scene_count,
            next,
        ) == Ok::<LightingCommand, DispatchError>(LightingCommand::TurnOff { next }),
{
}

/// Turning a room on records what the lighting API reports: on, at the reported
/// brightness, with the scene kept; a second press of the on button then does
/// nothing.
pub proof fn lemma_turn_on_idempotent(
    two_button: bool,
    scene_count: nat,
    state: CurrentRoomState,
    reported: GroupedLight,
)
    requires
        reported.on.on,
    ensures
        state_from_light(state.scene, reported) == (CurrentRoomState {
            scene: state.scene,
            brightness: Some(reported.dimming.brightness),
            on: true,
        }),
        plan_spec(
            DeviceAction::SinglePressComplete,
            ButtonId::PowerOn,
            two_button,
            scene_count,
            state_from_light(state.scene, reported),
        ) == Ok::<LightingCommand, DispatchError>(LightingCommand::NoEffect),
{
}

/// The state after `k` single presses of the favorite button of a five-button
/// remote, from `state`, in a room with `scene_count` scenes.
pub open spec fn after_favorite_presses(state: CurrentRoomState, scene_count: nat, k: nat) -> CurrentRoomState
    decreases k,
{
    if k == 0 {
        state
    } else {
        let before = after_favorite_presses(state, scene_count, (k - 1) as nat);
        match plan_spec(
            DeviceAction::SinglePressComplete,
            ButtonId::Favorite,
            false,
            scene_count,
            before,
        ) {
            Ok(LightingCommand::RecallScene { next, .. }) => next,
            _ => before,
        }
    }
}

proof fn lemma_favorite_presses_rotate(state: CurrentRoomState, scene_count: nat, k: nat)
    requires
        state.on,
        state.brightness is Some,
        state.scene matches Some(i) && i < scene_count,
        scene_count <= usize::MAX,
    ensures
        after_favorite_presses(state, scene_count, k) == (CurrentRoomState {
            scene: Some(((state.scene->0 + k) % (scene_count as int)) as usize),
            ..state
        }),
    decreases k,
{
    let i = state.scene->0 as int;
    let n = scene_count as int;
    if k == 0 {
        vstd::arithmetic::div_mod::lemma_small_mod(i as nat, n as nat);
    } else {
        lemma_favorite_presses_rotate(state, scene_count, (k - 1) as nat);
        let x = (i + k - 1) % n;
        assert(0 <= x < n) by {
            vstd::arithmetic::div_mod::lemma_mod_bound(i + k - 1, n);
        }
        assert((x + 1) % n == (i + k) % n) by {
            vstd::arithmetic::div_mod::lemma_add_mod_noop(i + k - 1, 1, n);
            vstd::arithmetic::div_mod::lemma_add_mod_noop(x, 1, n);
            vstd::arithmetic::div_mod::lemma_mod_twice(i + k - 1, n);
        }
        assert(0 <= (i + k) % n < n) by {
            vstd::arithmetic::div_mod::lemma_mod_bound(i + k, n);
        }
    }
}

/// Cycling through the scenes: as many single presses of the favorite button as
/// the room has scenes bring a lit room back to its scene, with brightness and
/// power unchanged.
pub proof fn lemma_favorite_cycle_returns(state: CurrentRoomState, scene_count: nat)
    requires
        state.on,
        state.brightness is Some,
        state.scene matches Some(i) && i < scene_count,
        scene_count <= usize::MAX,
    ensures
        after_favorite_presses(state, scene_count, scene_count) == state,
{
    lemma_favorite_presses_rotate(state, scene_count, scene_count);
    let i = state.scene->0 as int;
    let n = scene_count as int;
    vstd::arithmetic::div_mod::lemma_mod_add_multiples_vanish(i, n);
    vstd::arithmetic::div_mod::lemma_small_mod(i as nat, n as nat);
}

/// Decides what each gesture does: knows which room each remote controls and
/// the last known state of each room.
pub struct DeviceActionDispatcher {
    topology: Topology,
    current_scene_cache: RoomStateCache,
}

impl DeviceActionDispatcher {
    pub closed spec fn wf(self) -> bool {
        self.topology.wf()
    }

    /// The remote and room that remote `id` stands for.
    pub closed spec fn entry(self, id: RemoteId) -> Option<(CasetaRemote, Room)> {
        self.topology.entry(id)
    }

    pub fn new(topology: Topology, current_scene_cache: RoomStateCache) -> (r: Self)
        requires
            topology.wf(),
        ensures
            r.wf(),
            forall|id: RemoteId| #[trigger] r.entry(id) == topology.entry(id),
    {
        DeviceActionDispatcher { topology, current_scene_cache }
    }

    /// The remote with identifier `remote_id` and the room it controls.
    pub fn get_room_configuration(&self, remote_id: RemoteId) -> (r: Option<(&CasetaRemote, &Room)>)
        requires
            self.wf(),
        ensures
            r is Some <==> self.entry(remote_id) is Some,
            r matches Some((remote, room)) ==> self.entry(remote_id) == Some((*remote, *room)),
    {
        self.topology.get(remote_id)
    }

    /// The last known state of `room`, if it is still held.
    pub fn get_current_state(&self, room: &Room) -> (r: Option<CurrentRoomState>)
        ensures
            r matches Some(s) ==> s.wf(),
    {
        self.current_scene_cache.get(room.room_id)
    }

    /// Records the state of a room.
    pub fn cache_current_state(&self, room_id: u128, current_room_state: CurrentRoomState)
        requires
            current_room_state.wf(),
    {
        self.current_scene_cache.insert(room_id, current_room_state)
    }

    /// What a gesture does to the room of its remote, in `state`.
    pub fn handle_button_press(&self, message: &DeviceActionMessage, state: &CurrentRoomState) -> (r:
        Result<LightingCommand, DispatchError>)
        requires
            self.wf(),
        ensures
            match self.entry(message.remote_id) {
                None => r == Err::<LightingCommand, DispatchError>(
                    DispatchError::UnknownRemote(message.remote_id),
                ),
                Some((remote, room)) => r == plan_spec(
                    message.device_action,
                    message.button_id,
                    remote is TwoButtonPico,
                    room.scenes@.len(),
                    *state,
                ),
            },
    {
        match self.topology.get(message.remote_id) {
            None => Err(DispatchError::UnknownRemote(message.remote_id)),
            Some((remote, room)) => plan_action(message, remote, room, state),
        }
    }
}

} // verus!
