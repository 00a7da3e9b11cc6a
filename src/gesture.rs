//! Recognition of gestures from the press and release events of one remote.
//!
//! The hub misreports a second button pressed while another is held as extra
//! presses of the held button, so a gesture follows only the button that
//! started it, and walks a small state machine rather than counting events.
use vstd::prelude::*;
use crate::dispatcher::DeviceAction;
use crate::remote_config::{ButtonAction, ButtonId};

verus! {

/// Time after which a gesture is over whatever was seen, in milliseconds.
pub const MAXIMUM_TRACKING_MILLIS: u64 = 5000;

/// Where a gesture stands.
#[derive(Debug, Clone, Copy, PartialEq, Eq, Structural)]
pub enum ButtonState {
    FirstPressAwaitingRelease,
    FirstPressAndFirstRelease,
    SecondPressAwaitingRelease,
    SecondPressAndSecondRelease,
}

impl ButtonState {
    pub open spec fn spec_next(self) -> ButtonState {
        match self {
            ButtonState::FirstPressAwaitingRelease => ButtonState::FirstPressAndFirstRelease,
            ButtonState::FirstPressAndFirstRelease => ButtonState::SecondPressAwaitingRelease,
            ButtonState::SecondPressAwaitingRelease => ButtonState::SecondPressAndSecondRelease,
            ButtonState::SecondPressAndSecondRelease => ButtonState::SecondPressAndSecondRelease,
        }
    }

    /// The state one step further along; many rapid presses count as a double press.
    pub fn next_button_state(&self) -> (r: ButtonState)
        ensures
            r == self.spec_next(),
    {
        match self {
            ButtonState::FirstPressAwaitingRelease => ButtonState::FirstPressAndFirstRelease,
            ButtonState::FirstPressAndFirstRelease => ButtonState::SecondPressAwaitingRelease,
            ButtonState::SecondPressAwaitingRelease => ButtonState::SecondPressAndSecondRelease,
            ButtonState::SecondPressAndSecondRelease => ButtonState::SecondPressAndSecondRelease,
        }
    }

    /// The state's name.
    pub fn name(&self) -> (r: &'static str)
        ensures
            r@ == match *self {
                ButtonState::FirstPressAwaitingRelease => "FirstPressAwaitingRelease"@,
                ButtonState::FirstPressAndFirstRelease => "FirstPressAndFirstRelease"@,
                ButtonState::SecondPressAwaitingRelease => "SecondPressAwaitingRelease"@,
                ButtonState::SecondPressAndSecondRelease => "SecondPressAndSecondRelease"@,
            },
    {
        match self {
            ButtonState::FirstPressAwaitingRelease => "FirstPressAwaitingRelease",
            ButtonState::FirstPressAndFirstRelease => "FirstPressAndFirstRelease",
            ButtonState::SecondPressAwaitingRelease => "SecondPressAwaitingRelease",
            ButtonState::SecondPressAndSecondRelease => "SecondPressAndSecondRelease",
        }
    }
}

/// The state after an event on the gesture's own button.
pub open spec fn ingest(state: Option<ButtonState>, action: ButtonAction) -> Option<ButtonState> {
    match (state, action) {
        (None, ButtonAction::Press) => Some(ButtonState::FirstPressAwaitingRelease),
        (None, ButtonAction::Release) => None,
        (Some(ButtonState::FirstPressAwaitingRelease), ButtonAction::Release) => Some(
            ButtonState::FirstPressAndFirstRelease,
        ),
        (Some(ButtonState::FirstPressAndFirstRelease), ButtonAction::Press) => Some(
            ButtonState::SecondPressAwaitingRelease,
        ),
        (Some(ButtonState::SecondPressAwaitingRelease), ButtonAction::Release) => Some(
            ButtonState::SecondPressAndSecondRelease,
        ),
        (s, _) => s,
    }
}

/// What a tick of the recognizer emits for a state: `first_window` is the tick
/// at the end of the double-click window, the others come every half second.
pub open spec fn tick_emission(state: Option<ButtonState>, first_window: bool) -> Option<
    DeviceAction,
> {
    match state {
        Some(ButtonState::FirstPressAwaitingRelease) => if first_window {
            None
        } else {
            Some(DeviceAction::LongPressOngoing)
        },
        Some(ButtonState::FirstPressAndFirstRelease) => if first_window {
            Some(DeviceAction::SinglePressComplete)
        } else {
            Some(DeviceAction::LongPressComplete)
        },
        Some(ButtonState::SecondPressAwaitingRelease) => None,
        Some(ButtonState::SecondPressAndSecondRelease) => Some(DeviceAction::DoublePressComplete),
        None => None,
    }
}

/// The gestures that end a gesture.
pub open spec fn is_terminal(a: DeviceAction) -> bool {
    a == DeviceAction::SinglePressComplete || a == DeviceAction::DoublePressComplete || a
        == DeviceAction::LongPressComplete
}

/// Milliseconds from `start` to `now`, none when `now` is earlier.
pub open spec fn elapsed(start: u64, now: u64) -> nat {
    if now >= start {
        (now - start) as nat
    } else {
        0
    }
}

/// The gesture in progress on one remote.
#[derive(Debug, Clone, Copy, PartialEq, Eq, Structural)]
pub struct RemoteHistory {
    pub button_id: ButtonId,
    pub button_state: Option<ButtonState>,
    pub finished: bool,
    pub tracking_started_at: u64,
}

/// What one tick of the recognizer does.
#[derive(Debug, Clone, Copy, PartialEq, Eq, Structural)]
pub struct TickOutcome {
    /// The gesture to hand to the dispatcher, if any.
    pub action: Option<DeviceAction>,
    /// Whether the recognizer stops after this tick.
    pub stop: bool,
}

impl RemoteHistory {
    pub open spec fn spec_is_finished(self, now: u64) -> bool {
        self.finished || elapsed(self.tracking_started_at, now) >= MAXIMUM_TRACKING_MILLIS
    }

    /// The history after an event; events on other buttons leave it as it is.
    pub open spec fn spec_increment(self, button_id: ButtonId, action: ButtonAction) -> Self {
        if button_id == self.button_id {
            RemoteHistory { button_state: ingest(self.button_state, action), ..self }
        } else {
            self
        }
    }

    /// The history after a tick at time `now`, and what the tick emits. A
    /// finished history stays as it is and emits nothing.
    pub open spec fn spec_tick(self, first_window: bool, now: u64) -> (Self, Option<DeviceAction>) {
        if self.finished {
            (self, None)
        } else {
            let emitted = tick_emission(self.button_state, first_window);
            let done = (emitted is Some && is_terminal(emitted->0)) || elapsed(
                self.tracking_started_at,
                now,
            ) >= MAXIMUM_TRACKING_MILLIS;
            (RemoteHistory { finished: done, ..self }, emitted)
        }
    }

    /// A history that watches `button_id` from time `now`, with no event seen yet.
    pub fn new(button_id: ButtonId, now: u64) -> (r: RemoteHistory)
        ensures
            r.button_id == button_id,
            r.button_state is None,
            !r.finished,
            r.tracking_started_at == now,
    {
        RemoteHistory { button_id, button_state: None, finished: false, tracking_started_at: now }
    }

    /// Applies an event: only the watched button moves the state, and only
    /// along the transitions of a single or double press.
    pub fn increment(&mut self, button_id: ButtonId, button_action: &ButtonAction)
        ensures
            *final(self) == old(self).spec_increment(button_id, *button_action),
    {
        if button_id != self.button_id {
            return;
        }
        match self.button_state {
            None => {
                if let ButtonAction::Press = button_action {
                    self.button_state = Some(ButtonState::FirstPressAwaitingRelease);
                }
            },
            Some(current) => {
                match (current, button_action) {
                    (ButtonState::FirstPressAwaitingRelease, ButtonAction::Release)
                    | (ButtonState::FirstPressAndFirstRelease, ButtonAction::Press)
                    | (ButtonState::SecondPressAwaitingRelease, ButtonAction::Release) => {
                        self.button_state = Some(current.next_button_state());
                    },
                    _ => {},
                }
            },
        }
    }

    /// Whether the gesture is over at time `now`: marked finished, or tracked
    /// for the maximum time.
    pub fn is_finished(&self, now: u64) -> (r: bool)
        ensures
            r == self.spec_is_finished(now),
    {
        let elapsed_millis: u64 = if now >= self.tracking_started_at {
            now - self.tracking_started_at
        } else {
            0
        };
        self.finished || elapsed_millis >= MAXIMUM_TRACKING_MILLIS
    }

    /// One tick of the recognizer at time `now`: emits the gesture the state
    /// shows, marks the history finished after a gesture that ends it or once
    /// the maximum time is over, and says whether the recognizer stops.
    pub fn tick(&mut self, first_window: bool, now: u64) -> (r: TickOutcome)
        ensures
            (*final(self), r.action) == old(self).spec_tick(first_window, now),
            r.stop == final(self).finished,
    {
        if self.finished {
            return TickOutcome { action: None, stop: true };
        }
        let action = match self.button_state {
            Some(ButtonState::FirstPressAwaitingRelease) => if first_window {
                None
            } else {
                Some(DeviceAction::LongPressOngoing)
            },
            Some(ButtonState::FirstPressAndFirstRelease) => if first_window {
                Some(DeviceAction::SinglePressComplete)
            } else {
                Some(DeviceAction::LongPressComplete)
            },
            Some(ButtonState::SecondPressAwaitingRelease) => None,
            Some(ButtonState::SecondPressAndSecondRelease) => Some(
                DeviceAction::DoublePressComplete,
            ),
            None => None,
        };
        let terminal = match action {
            Some(DeviceAction::SinglePressComplete) | Some(DeviceAction::DoublePressComplete) | Some(
                DeviceAction::LongPressComplete,
            ) => true,
            _ => false,
        };
        self.finished = terminal || self.is_finished(now);
        TickOutcome { action, stop: self.finished }
    }
}

/// What the router does with a button event.
#[derive(Debug, Clone, Copy, PartialEq, Eq, Structural)]
pub enum RouteDecision {
    /// The remote is not in the topology.
    IgnoreUnconfigured,
    /// No gesture is in progress and the event is a release: a stray release.
    DropRelease,
    /// A gesture is in progress: the event goes to its history.
    Ingest,
    /// No gesture is in progress and the event is a press: a new gesture starts
    /// on the pressed button.
    StartTracking,
}

/// What the router does with a button event on a remote: `configured` says
/// whether the topology knows the remote, `active` whether a gesture is in
/// progress on it (an entry that is not finished).
pub fn route_button_event(configured: bool, active: bool, button_action: ButtonAction) -> (r:
    RouteDecision)
    ensures
        !configured ==> r == RouteDecision::IgnoreUnconfigured,
        configured && active ==> r == RouteDecision::Ingest,
        configured && !active && button_action == ButtonAction::Release ==> r
            == RouteDecision::DropRelease,
        configured && !active && button_action == ButtonAction::Press ==> r
            == RouteDecision::StartTracking,
{
    if !configured {
        RouteDecision::IgnoreUnconfigured
    } else if active {
        RouteDecision::Ingest
    } else {
        match button_action {
            ButtonAction::Release => RouteDecision::DropRelease,
            ButtonAction::Press => RouteDecision::StartTracking,
        }
    }
}

/// An event that a gesture's history sees: a button event routed to it, or a
/// tick of its recognizer.
#[derive(Debug, Clone, Copy, PartialEq, Eq, Structural)]
pub enum RecognizerEvent {
    Button(ButtonId, ButtonAction),
    Tick(bool, u64),
}

/// The history after one event, and what the event makes the recognizer emit.
pub open spec fn step(h: RemoteHistory, e: RecognizerEvent) -> (RemoteHistory, Option<DeviceAction>) {
    match e {
        RecognizerEvent::Button(b, a) => (h.spec_increment(b, a), None),
        RecognizerEvent::Tick(first_window, now) => h.spec_tick(first_window, now),
    }
}

/// The gestures emitted, in order, while a history sees `events`.
pub open spec fn emissions(h: RemoteHistory, events: Seq<RecognizerEvent>) -> Seq<DeviceAction>
    decreases events.len(),
{
    if events.len() == 0 {
        seq![]
    } else {
        let (next, emitted) = step(h, events[0]);
        let head = match emitted {
            Some(a) => seq![a],
            None => seq![],
        };
        head + emissions(next, events.drop_first())
    }
}

/// A gesture ends at most once: whatever events a history sees, a gesture that
/// ends it (single, double or long press complete) is the last thing emitted,
/// only long-press-ongoing gestures come before it, and a finished history
/// emits nothing.
pub proof fn lemma_one_terminal_per_gesture(h: RemoteHistory, events: Seq<RecognizerEvent>)
    ensures
        h.finished ==> emissions(h, events).len() == 0,
        forall|k: int|
            0 <= k < emissions(h, events).len() && is_terminal(#[trigger] emissions(h, events)[k])
                ==> k == emissions(h, events).len() - 1,
        forall|k: int|
            0 <= k < emissions(h, events).len() ==> (is_terminal(#[trigger] emissions(h, events)[k])
                || emissions(h, events)[k] == DeviceAction::LongPressOngoing),
    decreases events.len(),
{
    if events.len() > 0 {
        let (next, emitted) = step(h, events[0]);
        let rest = emissions(next, events.drop_first());
        lemma_one_terminal_per_gesture(next, events.drop_first());
        let head: Seq<DeviceAction> = match emitted {
            Some(a) => seq![a],
            None => seq![],
        };
        let em = emissions(h, events);
        assert(em == head + rest);
        if emitted is Some && is_terminal(emitted->0) {
            assert(next.finished);
            assert(rest.len() == 0);
        }
        assert forall|k: int| 0 <= k < em.len() && is_terminal(#[trigger] em[k]) implies k == em.len()
            - 1 by {
            if k >= head.len() {
                assert(em[k] == rest[k - head.len()]);
            }
        }
        assert forall|k: int| 0 <= k < em.len() implies (is_terminal(#[trigger] em[k]) || em[k]
            == DeviceAction::LongPressOngoing) by {
            if k >= head.len() {
                assert(em[k] == rest[k - head.len()]);
            }
        }
    }
}

/// A gesture is over once the maximum tracking time has passed: the history
/// counts as finished, and a tick then marks it finished and stops.
pub proof fn lemma_deadline_ends_gesture(h: RemoteHistory, first_window: bool, now: u64)
    requires
        elapsed(h.tracking_started_at, now) >= MAXIMUM_TRACKING_MILLIS,
    ensures
        h.spec_is_finished(now),
        h.spec_tick(first_window, now).0.finished,
{
}

} // verus!
