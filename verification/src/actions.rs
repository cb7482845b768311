//! The input vocabulary shared by recording, replay and the menu screens.
use vstd::prelude::*;

verus! {

/// A logical, bindable game action.
#[derive(Clone, Copy, Debug, PartialEq, Eq, Structural)]
pub enum GameAction {
    Wait,
    Pickup,
    Drop,
    Open,
    Examine,
    UseItem,
    Confirm,
    Cancel,
    Filter,
    NavigateUp,
    NavigateDown,
    NavigateLeft,
    NavigateRight,
    NavigatePageUp,
    NavigatePageDown,
    NavigateHome,
    NavigateEnd,
    NavigateNextTab,
    NavigatePrevTab,
    HotkeyPress(char),
    Custom(u32),
}

/// Where an action came from.
#[derive(Clone, Copy, Debug, PartialEq, Eq, Structural)]
pub enum ActionSource {
    Keyboard,
    Mouse,
    Script,
}

/// One action as the input layer delivers it to the game.
#[derive(Clone, Copy, Debug, PartialEq, Eq, Structural)]
pub struct InputAction {
    pub action: GameAction,
    pub source: ActionSource,
}

impl InputAction {
    pub fn new(action: GameAction, source: ActionSource) -> (r: InputAction)
        ensures
            r.action == action,
            r.source == source,
    {
        InputAction { action, source }
    }
}

} // verus!
