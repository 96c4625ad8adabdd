use vstd::prelude::*;

verus! {

/// Actions that global hotkeys ask for.
#[derive(Debug, Clone, Copy, PartialEq, Eq, Structural)]
pub enum HotkeyAction {
    EStop,
    Disable,
    Enable,
    AStop,
    RescanJoysticks,
}

/// Keys that the hotkeys tell apart.
#[derive(Debug, Clone, Copy, PartialEq, Eq, Structural)]
pub enum HotKey {
    Space,
    LeftBracket,
    RightBracket,
    BackSlash,
    /// Any other key.
    Other,
}

/// Which keys of the enable chord `[` `]` `\` are held down.
#[derive(Debug, Clone, Copy, PartialEq, Eq, Structural)]
pub struct HotkeyState {
    pub left_bracket: bool,
    pub right_bracket: bool,
    pub back_slash: bool,
}

impl HotkeyState {
    /// The held keys after `key` goes down (`down`) or up.
    pub open spec fn spec_with(self, key: HotKey, down: bool) -> HotkeyState {
        match key {
            HotKey::LeftBracket => HotkeyState { left_bracket: down, ..self },
            HotKey::RightBracket => HotkeyState { right_bracket: down, ..self },
            HotKey::BackSlash => HotkeyState { back_slash: down, ..self },
            _ => self,
        }
    }

    /// What a key press asks for, with `held` the chord after the press:
    /// space e-stops, the full chord enables, any other key disables.
    pub open spec fn spec_action(held: HotkeyState, key: HotKey) -> HotkeyAction {
        match key {
            HotKey::Space => HotkeyAction::EStop,
            HotKey::Other => HotkeyAction::Disable,
            _ => if held.left_bracket && held.right_bracket && held.back_slash {
                HotkeyAction::Enable
            } else {
                HotkeyAction::Disable
            },
        }
    }

    /// No key held.
    pub fn new() -> (r: HotkeyState)
        ensures
            r == (HotkeyState { left_bracket: false, right_bracket: false, back_slash: false }),
    {
        HotkeyState { left_bracket: false, right_bracket: false, back_slash: false }
    }

    fn set(&mut self, key: HotKey, down: bool)
        ensures
            *final(self) == old(self).spec_with(key, down),
    {
        match key {
            HotKey::LeftBracket => self.left_bracket = down,
            HotKey::RightBracket => self.right_bracket = down,
            HotKey::BackSlash => self.back_slash = down,
            _ => {},
        }
    }

    /// A key went down: note it and return the action it asks for.
    pub fn key_pressed(&mut self, key: HotKey) -> (r: HotkeyAction)
        ensures
            *final(self) == old(self).spec_with(key, true),
            r == HotkeyState::spec_action(*final(self), key),
    {
        self.set(key, true);
        match key {
            HotKey::Space => HotkeyAction::EStop,
            HotKey::Other => HotkeyAction::Disable,
            _ => if self.left_bracket && self.right_bracket && self.back_slash {
                HotkeyAction::Enable
            } else {
                HotkeyAction::Disable
            },
        }
    }

    /// A key went up.
    pub fn key_released(&mut self, key: HotKey)
        ensures
            *final(self) == old(self).spec_with(key, false),
    {
        self.set(key, false);
    }
}

} // verus!
