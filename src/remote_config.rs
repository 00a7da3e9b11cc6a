//! Remotes, their buttons and the actions the hub reports for them.
use vstd::prelude::*;

verus! {

/// Identifier of a remote, assigned by the hub.
pub type RemoteId = u8;

/// A button of a remote.
#[derive(Debug, Clone, Copy, PartialEq, Eq, Hash, Structural)]
pub enum ButtonId {
    PowerOn,
    Up,
    Favorite,
    Down,
    PowerOff,
}

/// What happened to a button.
#[derive(Debug, Clone, Copy, PartialEq, Eq, Hash, Structural)]
pub enum ButtonAction {
    Press,
    Release,
}

/// The button that a wire code names, if any.
pub open spec fn button_of_code(code: u8) -> Option<ButtonId> {
    match code {
        2 => Some(ButtonId::PowerOn),
        5 => Some(ButtonId::Up),
        3 => Some(ButtonId::Favorite),
        6 => Some(ButtonId::Down),
        4 => Some(ButtonId::PowerOff),
        _ => None,
    }
}

/// The wire code of a button.
pub open spec fn code_of_button(b: ButtonId) -> u8 {
    match b {
        ButtonId::PowerOn => 2,
        ButtonId::Up => 5,
        ButtonId::Favorite => 3,
        ButtonId::Down => 6,
        ButtonId::PowerOff => 4,
    }
}

/// The action that a wire code names, if any.
pub open spec fn action_of_code(code: u8) -> Option<ButtonAction> {
    match code {
        3 => Some(ButtonAction::Press),
        4 => Some(ButtonAction::Release),
        _ => None,
    }
}

/// The wire code of an action.
pub open spec fn code_of_action(a: ButtonAction) -> u8 {
    match a {
        ButtonAction::Press => 3,
        ButtonAction::Release => 4,
    }
}

impl ButtonId {
    /// The button with wire code `code`, or `None` for a code that names no button.
    pub fn from_code(code: u8) -> (r: Option<ButtonId>)
        ensures
            r == button_of_code(code),
    {
        match code {
            2 => Some(ButtonId::PowerOn),
            5 => Some(ButtonId::Up),
            3 => Some(ButtonId::Favorite),
            6 => Some(ButtonId::Down),
            4 => Some(ButtonId::PowerOff),
            _ => None,
        }
    }

    /// The wire code of this button.
    pub fn code(&self) -> (r: u8)
        ensures
            r == code_of_button(*self),
            button_of_code(r) == Some(*self),
    {
        match self {
            ButtonId::PowerOn => 2,
            ButtonId::Up => 5,
            ButtonId::Favorite => 3,
            ButtonId::Down => 6,
            ButtonId::PowerOff => 4,
        }
    }

    /// The button's name.
    pub fn name(&self) -> (r: &'static str)
        ensures
            r@ == match *self {
                ButtonId::PowerOn => "PowerOn"@,
                ButtonId::Up => "Up"@,
                ButtonId::Favorite => "Favorite"@,
                ButtonId::Down => "Down"@,
                ButtonId::PowerOff => "PowerOff"@,
            },
    {
        match self {
            ButtonId::PowerOn => "PowerOn",
            ButtonId::Up => "Up",
            ButtonId::Favorite => "Favorite",
            ButtonId::Down => "Down",
            ButtonId::PowerOff => "PowerOff",
        }
    }
}

impl TryFrom<u8> for ButtonId {
    type Error = u8;

    /// The button with wire code `id`; the code itself when it names none.
    fn try_from(id: u8) -> (r: Result<ButtonId, u8>) {
        match ButtonId::from_code(id) {
            Some(b) => Ok(b),
            None => Err(id),
        }
    }
}

impl vstd::std_specs::convert::TryFromSpecImpl<u8> for ButtonId {
    open spec fn obeys_try_from_spec() -> bool {
        true
    }

    open spec fn try_from_spec(id: u8) -> Result<ButtonId, u8> {
        match button_of_code(id) {
            Some(b) => Ok(b),
            None => Err(id),
        }
    }
}

impl ButtonAction {
    /// The action with wire code `code`, or `None` for a code that names no action.
    pub fn from_code(code: u8) -> (r: Option<ButtonAction>)
        ensures
            r == action_of_code(code),
    {
        match code {
            3 => Some(ButtonAction::Press),
            4 => Some(ButtonAction::Release),
            _ => None,
        }
    }

    /// The wire code of this action.
    pub fn code(&self) -> (r: u8)
        ensures
            r == code_of_action(*self),
            action_of_code(r) == Some(*self),
    {
        match self {
            ButtonAction::Press => 3,
            ButtonAction::Release => 4,
        }
    }

    /// The action's name.
    pub fn name(&self) -> (r: &'static str)
        ensures
            r@ == match *self {
                ButtonAction::Press => "Press"@,
                ButtonAction::Release => "Release"@,
            },
    {
        match self {
            ButtonAction::Press => "Press",
            ButtonAction::Release => "Release",
        }
    }
}

impl TryFrom<u8> for ButtonAction {
    type Error = u8;

    /// The action with wire code `id`; the code itself when it names none.
    fn try_from(id: u8) -> (r: Result<ButtonAction, u8>) {
        match ButtonAction::from_code(id) {
            Some(a) => Ok(a),
            None => Err(id),
        }
    }
}

impl vstd::std_specs::convert::TryFromSpecImpl<u8> for ButtonAction {
    open spec fn obeys_try_from_spec() -> bool {
        true
    }

    open spec fn try_from_spec(id: u8) -> Result<ButtonAction, u8> {
        match action_of_code(id) {
            Some(a) => Ok(a),
            None => Err(id),
        }
    }
}

/// A configured remote: the kind decides which of its buttons are in use.
#[derive(Debug, Clone)]
pub enum CasetaRemote {
    TwoButtonPico { id: RemoteId, name: String },
    FiveButtonPico { id: RemoteId, name: String },
}

impl CasetaRemote {
    pub open spec fn spec_id(&self) -> RemoteId {
        match self {
            CasetaRemote::TwoButtonPico { id, .. } => *id,
            CasetaRemote::FiveButtonPico { id, .. } => *id,
        }
    }

    /// The remote's identifier.
    pub fn id(&self) -> (r: RemoteId)
        ensures
            r == self.spec_id(),
    {
        match self {
            CasetaRemote::TwoButtonPico { id, .. } => *id,
            CasetaRemote::FiveButtonPico { id, .. } => *id,
        }
    }
}

/// The remotes known to the hub.
#[derive(Debug)]
pub struct RemoteConfiguration {
    pub remotes: Vec<CasetaRemote>,
}

} // verus!
