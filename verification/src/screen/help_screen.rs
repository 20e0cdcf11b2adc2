//! The static help screen. Its textual layout is a rendering concern; the
//! core only knows that any dismissal key pops it.

use crate::screen::GhostAction;
use crate::screen::Key;
use crate::screen::ScreenAction;
use crate::screen::ScreenEvent;
use vstd::prelude::*;

verus! {

/// A screen of static content: no backing data, no state.
pub struct HelpScreen {}

impl HelpScreen {
    /// Builds the help screen.
    pub fn new() -> (s: HelpScreen)
        ensures
            s == (HelpScreen {  }),
    {
        HelpScreen {  }
    }

    /// What one key does to the help screen: its dismissal key pops it,
    /// every other key changes nothing.
    pub open spec fn spec_step(self, key: Key) -> (HelpScreen, GhostAction) {
        if key == Key::Char('?') {
            (self, GhostAction::Emit(ScreenEvent::PopScreen))
        } else {
            (self, GhostAction::Nothing)
        }
    }

    /// Consumes one key event as `spec_step` says.
    pub fn handle_key_event(&mut self, key: Key) -> (r: Option<ScreenAction>)
        ensures
            (*final(self), crate::screen::action_view(r)) == Self::spec_step(*old(self), key),
    {
        match key {
            Key::Char('?') => Some(ScreenAction::Emit(ScreenEvent::PopScreen)),
            _ => None,
        }
    }
}

} // verus!
