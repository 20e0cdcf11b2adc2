//! One interactive layer of the navigation stack: the key surface it
//! consumes, the control events it can emit, and the closed set of screen
//! kinds the navigator dispatches over.

pub mod help_screen;
pub mod send_workspace_screen;
pub mod table_screen;

use crate::hypr::Hypr;
use crate::screen::help_screen::HelpScreen;
use crate::screen::send_workspace_screen::SendWorkspaceScreen;
use crate::screen::table_screen::TableScreen;
use vstd::prelude::*;

verus! {

/// The keys the core consumes. Decoding terminal input into this shape is
/// the surrounding layer's concern.
#[derive(Debug, PartialEq, Eq, Clone, Copy)]
pub enum Key {
    Up,
    Down,
    Enter,
    Esc,
    Tab,
    Char(char),
    Other,
}

/// The digit a direct-shortcut key names, if any.
pub open spec fn digit_val(key: Key) -> Option<int> {
    match key {
        Key::Char(c) => if c == '0' {
            Some(0int)
        } else if c == '1' {
            Some(1int)
        } else if c == '2' {
            Some(2int)
        } else if c == '3' {
            Some(3int)
        } else if c == '4' {
            Some(4int)
        } else if c == '5' {
            Some(5int)
        } else if c == '6' {
            Some(6int)
        } else if c == '7' {
            Some(7int)
        } else if c == '8' {
            Some(8int)
        } else if c == '9' {
            Some(9int)
        } else {
            None
        },
        _ => None,
    }
}

/// Whether the key moves a table cursor towards the end.
pub open spec fn is_down_key(key: Key) -> bool {
    key == Key::Down || key == Key::Char('j')
}

/// Whether the key moves a table cursor towards the start.
pub open spec fn is_up_key(key: Key) -> bool {
    key == Key::Up || key == Key::Char('k')
}

/// The signal a screen returns to request a stack transition.
pub enum ScreenEvent {
    /// The task the interface existed to perform is done: terminate.
    Close,
    /// Push the given screen; it becomes the sole recipient of input.
    AddScreen(Screen),
    /// Remove the top screen; from depth one this terminates.
    PopScreen,
    /// As `PopScreen`, but the newly exposed screen must be refreshed from a
    /// fresh snapshot before it is drawn again.
    PopAndRefresh,
}

/// What a screen asks its caller to do in response to one key. Stack
/// transitions are pure; the other two name work only the I/O layer can
/// perform.
pub enum ScreenAction {
    /// Apply this stack transition.
    Emit(ScreenEvent),
    /// Send these commands, in order, over the control socket; when every
    /// send succeeds, the session is over and `Close` is to be applied.
    Dispatch(Vec<String>),
    /// Fetch a fresh snapshot and push a send-to-workspace screen scoped to
    /// the client with this stable handle.
    OpenSendWorkspace(String),
}

/// The mathematical shadow of `Option<ScreenAction>`: command text and
/// handles as character sequences.
pub enum GhostAction {
    Nothing,
    Emit(ScreenEvent),
    Dispatch(Seq<Seq<char>>),
    OpenSend(Seq<char>),
}

/// Maps what a key handler returned to its mathematical shadow.
pub open spec fn action_view(a: Option<ScreenAction>) -> GhostAction {
    match a {
        None => GhostAction::Nothing,
        Some(ScreenAction::Emit(e)) => GhostAction::Emit(e),
        Some(ScreenAction::Dispatch(cmds)) => GhostAction::Dispatch(
            cmds@.map_values(|c: String| c@),
        ),
        Some(ScreenAction::OpenSendWorkspace(a)) => GhostAction::OpenSend(a@),
    }
}

/// A control event is well formed when any screen it carries is.
pub open spec fn event_wf(e: ScreenEvent) -> bool {
    match e {
        ScreenEvent::AddScreen(s) => s.wf(),
        _ => true,
    }
}

/// Every control event a screen emits is well formed: the only screen ever
/// pushed by a key handler is the stateless help screen.
pub proof fn lemma_emitted_event_wf(s: Screen, key: Key)
    ensures
        screen_step(s, key).1 matches GhostAction::Emit(e) ==> event_wf(e),
{
    match s {
        Screen::Table(t) => {},
        Screen::SendWorkspace(w) => {},
        Screen::Help(h) => {},
    }
}

/// The closed set of screens. Only these three kinds exist, so the
/// navigator dispatches over a tagged variant rather than an open trait.
pub enum Screen {
    Table(TableScreen),
    SendWorkspace(SendWorkspaceScreen),
    Help(HelpScreen),
}

/// What one key does to one screen: the new screen state and the action
/// handed back to the navigator.
pub open spec fn screen_step(s: Screen, key: Key) -> (Screen, GhostAction) {
    match s {
        Screen::Table(t) => {
            let (t2, a) = TableScreen::spec_step(t, key);
            (Screen::Table(t2), a)
        },
        Screen::SendWorkspace(w) => {
            let (w2, a) = SendWorkspaceScreen::spec_step(w, key);
            (Screen::SendWorkspace(w2), a)
        },
        Screen::Help(h) => {
            let (h2, a) = HelpScreen::spec_step(h, key);
            (Screen::Help(h2), a)
        },
    }
}

/// What a refresh from snapshot `snap` does to one screen.
pub open spec fn screen_refreshed(s: Screen, snap: Hypr) -> Screen {
    match s {
        Screen::Table(t) => Screen::Table(t.spec_refreshed(snap)),
        Screen::SendWorkspace(w) => Screen::SendWorkspace(w.spec_refreshed(snap.workspaces)),
        Screen::Help(h) => Screen::Help(h),
    }
}

impl Screen {
    /// Every screen kind keeps its tables well formed.
    pub open spec fn wf(&self) -> bool {
        match self {
            Screen::Table(t) => t.wf(),
            Screen::SendWorkspace(w) => w.wf(),
            Screen::Help(_) => true,
        }
    }

    /// Consumes exactly one key event and returns at most one action; a key
    /// this screen does not recognize changes nothing and returns none.
    pub fn handle_key_event(&mut self, key: Key) -> (r: Option<ScreenAction>)
        requires
            old(self).wf(),
        ensures
            final(self).wf(),
            (*final(self), action_view(r)) == screen_step(*old(self), key),
    {
        match self {
            Screen::Table(t) => t.handle_key_event(key),
            Screen::SendWorkspace(w) => w.handle_key_event(key),
            Screen::Help(h) => h.handle_key_event(key),
        }
    }

    /// Rebuilds the screen's tables wholesale from a fresh snapshot; a
    /// screen without live backing data is left alone.
    pub fn refresh(&mut self, snap: Hypr)
        requires
            old(self).wf(),
        ensures
            final(self).wf(),
            *final(self) == screen_refreshed(*old(self), snap),
    {
        match self {
            Screen::Table(t) => t.refresh(snap),
            Screen::SendWorkspace(w) => w.refresh(snap.workspaces),
            Screen::Help(_) => {},
        }
    }
}

} // verus!
