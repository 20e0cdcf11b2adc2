//! The navigator: a stack of screens, of which only the topmost one is
//! active, driven by key events and the control events the screens emit.
//! The loop around it renders, performs the effects named here, and stops
//! once `exit` holds.

pub mod client_table;
pub mod workspace_table;

use crate::hypr::Hypr;
use crate::screen::event_wf;
use crate::screen::lemma_emitted_event_wf;
use crate::screen::screen_refreshed;
use crate::screen::screen_step;
use crate::screen::table_screen::TableScreen;
use crate::screen::GhostAction;
use crate::screen::Key;
use crate::screen::Screen;
use crate::screen::ScreenAction;
use crate::screen::ScreenEvent;
use vstd::prelude::*;

verus! {

/// Work that only the I/O layer around the navigator can perform; the
/// navigator hands it out and the loop carries it out.
pub enum Effect {
    /// Send these commands in order; when every send succeeds, apply
    /// `ScreenEvent::Close` to end the session. A failed send applies no
    /// transition at all.
    Dispatch(Vec<String>),
    /// Fetch a fresh snapshot and, when that succeeds, push a
    /// send-to-workspace screen scoped to the client with this handle.
    OpenSendWorkspace(String),
    /// Fetch a fresh snapshot and hand it to `refresh_top`; a failed fetch
    /// leaves the exposed screen on its stale data.
    Refresh,
}

/// The mathematical shadow of `Option<Effect>`.
pub enum GhostEffect {
    Nothing,
    Dispatch(Seq<Seq<char>>),
    OpenSend(Seq<char>),
    Refresh,
}

/// Maps a returned effect to its mathematical shadow.
pub open spec fn effect_view(e: Option<Effect>) -> GhostEffect {
    match e {
        None => GhostEffect::Nothing,
        Some(Effect::Dispatch(cmds)) => GhostEffect::Dispatch(cmds@.map_values(|c: String| c@)),
        Some(Effect::OpenSendWorkspace(a)) => GhostEffect::OpenSend(a@),
        Some(Effect::Refresh) => GhostEffect::Refresh,
    }
}

/// The application state: the screen stack, top last, and the flag that
/// ends the loop.
pub struct App {
    pub exit: bool,
    pub screens: Vec<Screen>,
}

/// What one control event does to the stack and the exit flag: `Close`
/// terminates outright; `AddScreen` pushes; the two pops remove the top
/// screen and terminate when the stack thereby becomes empty.
pub open spec fn nav_step(screens: Seq<Screen>, exit: bool, e: ScreenEvent) -> (Seq<Screen>, bool) {
    match e {
        ScreenEvent::Close => (screens, true),
        ScreenEvent::AddScreen(s) => (screens.push(s), exit),
        ScreenEvent::PopScreen => if screens.len() == 0 {
            (screens, true)
        } else {
            (screens.drop_last(), exit || screens.len() == 1)
        },
        ScreenEvent::PopAndRefresh => if screens.len() == 0 {
            (screens, true)
        } else {
            (screens.drop_last(), exit || screens.len() == 1)
        },
    }
}

/// A whole run of control events, applied in order.
pub open spec fn nav_run(screens: Seq<Screen>, exit: bool, events: Seq<ScreenEvent>) -> (
    Seq<Screen>,
    bool,
)
    decreases events.len(),
{
    if events.len() == 0 {
        (screens, exit)
    } else {
        let (s2, x2) = nav_step(screens, exit, events[0]);
        nav_run(s2, x2, events.drop_first())
    }
}

/// The stack never goes empty behind the application's back: whatever
/// sequence of control events runs from a state with at least one screen
/// (or one already terminated), the result again has at least one screen or
/// has terminated. Together with `lemma_pop_from_depth_one_terminates` this
/// is the stack-safety law: only a pop issued at depth one empties the
/// stack, and that pop terminates the application.
pub proof fn lemma_nav_preserves_live(screens: Seq<Screen>, exit: bool, events: Seq<ScreenEvent>)
    requires
        screens.len() >= 1 || exit,
    ensures
        nav_run(screens, exit, events).0.len() >= 1 || nav_run(screens, exit, events).1,
    decreases events.len(),
{
    if events.len() > 0 {
        let (s2, x2) = nav_step(screens, exit, events[0]);
        lemma_nav_preserves_live(s2, x2, events.drop_first());
    }
}

/// Whether a run of stack events, from a not-yet-terminated state, at some
/// point issues a pop while the stack stands at depth one.
pub open spec fn pops_from_depth_one(screens: Seq<Screen>, events: Seq<ScreenEvent>) -> bool
    decreases events.len(),
{
    if events.len() == 0 {
        false
    } else {
        ||| (events[0] is PopScreen && screens.len() == 1)
        ||| pops_from_depth_one(nav_step(screens, false, events[0]).0, events.drop_first())
    }
}

/// The other half of the stack-safety law: a run of pushes and pops from a
/// non-empty stack that never pops at depth one leaves the stack non-empty
/// and the application running.
pub proof fn lemma_stack_alive_until_final_pop(screens: Seq<Screen>, events: Seq<ScreenEvent>)
    requires
        screens.len() >= 1,
        forall|k: int|
            0 <= k < events.len() ==> (#[trigger] events[k] is AddScreen || events[k]
                is PopScreen),
        !pops_from_depth_one(screens, events),
    ensures
        nav_run(screens, false, events).0.len() >= 1,
        !nav_run(screens, false, events).1,
    decreases events.len(),
{
    if events.len() > 0 {
        let e = events[0];
        let (s2, x2) = nav_step(screens, false, e);
        assert(events.drop_first().len() == events.len() - 1);
        assert(forall|k: int|
            0 <= k < events.drop_first().len() ==> (#[trigger] events.drop_first()[k]
                is AddScreen || events.drop_first()[k] is PopScreen));
        lemma_stack_alive_until_final_pop(s2, events.drop_first());
    }
}

/// A pop issued from depth one empties the stack and terminates the
/// application.
pub proof fn lemma_pop_from_depth_one_terminates(screens: Seq<Screen>, exit: bool)
    requires
        screens.len() == 1,
    ensures
        nav_step(screens, exit, ScreenEvent::PopScreen).0.len() == 0,
        nav_step(screens, exit, ScreenEvent::PopScreen).1,
{
}

/// Whether this key ends the session from anywhere.
pub open spec fn is_quit_key(key: Key) -> bool {
    key == Key::Char('q') || key == Key::Char('Q')
}

/// What one key does to the whole application: the quit keys terminate;
/// otherwise the top screen consumes the key, a stack transition it emits
/// is applied at once, and any remaining work is handed out as an effect.
/// With no screen left, keys do nothing.
pub open spec fn key_step(screens: Seq<Screen>, exit: bool, key: Key) -> (
    Seq<Screen>,
    bool,
    GhostEffect,
) {
    if is_quit_key(key) {
        (screens, true, GhostEffect::Nothing)
    } else if screens.len() == 0 {
        (screens, exit, GhostEffect::Nothing)
    } else {
        let (top2, act) = screen_step(screens.last(), key);
        let screens2 = screens.update(screens.len() - 1, top2);
        match act {
            GhostAction::Nothing => (screens2, exit, GhostEffect::Nothing),
            GhostAction::Emit(e) => {
                let (s3, x3) = nav_step(screens2, exit, e);
                (
                    s3,
                    x3,
                    if e is PopAndRefresh && screens2.len() > 1 {
                        GhostEffect::Refresh
                    } else {
                        GhostEffect::Nothing
                    },
                )
            },
            GhostAction::Dispatch(cmds) => (screens2, exit, GhostEffect::Dispatch(cmds)),
            GhostAction::OpenSend(a) => (screens2, exit, GhostEffect::OpenSend(a)),
        }
    }
}

impl App {
    /// Every screen on the stack is well formed.
    pub open spec fn wf(&self) -> bool {
        forall|i: int| 0 <= i < self.screens@.len() ==> (#[trigger] self.screens@[i]).wf()
    }

    /// Builds the application over a first snapshot: not yet exited, with
    /// the root table screen as the only stack element.
    pub fn new(snapshot: Hypr) -> (a: App)
        ensures
            a.wf(),
            !a.exit,
            a.screens@ =~= seq![Screen::Table(TableScreen::spec_new(snapshot))],
    {
        let table_screen = TableScreen::new(snapshot);
        let mut screens: Vec<Screen> = Vec::new();
        screens.push(Screen::Table(table_screen));
        App { exit: false, screens }
    }

    /// Ends the session; the stack is left as it is.
    pub fn exit(&mut self)
        ensures
            final(self).exit,
            final(self).screens == old(self).screens,
    {
        self.exit = true;
    }

    /// Applies one control event to the stack, as `nav_step` says. The
    /// result says whether the caller must now fetch a snapshot and hand it
    /// to `refresh_top` before drawing again.
    pub fn handle_screen_event(&mut self, screen_event: ScreenEvent) -> (needs_refresh: bool)
        requires
            old(self).wf(),
            event_wf(screen_event),
        ensures
            final(self).wf(),
            (final(self).screens@, final(self).exit) == nav_step(
                old(self).screens@,
                old(self).exit,
                screen_event,
            ),
            needs_refresh == (screen_event is PopAndRefresh && old(self).screens@.len() > 1),
    {
        match screen_event {
            ScreenEvent::Close => {
                self.exit = true;
                false
            },
            ScreenEvent::AddScreen(screen) => {
                self.screens.push(screen);
                false
            },
            ScreenEvent::PopScreen => {
                match self.screens.pop() {
                    Some(_) => {
                        if self.screens.len() == 0 {
                            self.exit = true;
                        }
                    },
                    None => {
                        self.exit = true;
                    },
                }
                false
            },
            ScreenEvent::PopAndRefresh => {
                match self.screens.pop() {
                    Some(_) => {
                        if self.screens.len() == 0 {
                            self.exit = true;
                        }
                    },
                    None => {
                        self.exit = true;
                    },
                }
                self.screens.len() > 0
            },
        }
    }

    /// Consumes one key event for the whole application, as `key_step`
    /// says: quit keys end the session, every other key goes to the top
    /// screen, whose emitted stack transition is applied at once; dispatch
    /// and fetch work is returned for the I/O layer to perform.
    pub fn handle_key_event(&mut self, key: Key) -> (eff: Option<Effect>)
        requires
            old(self).wf(),
        ensures
            final(self).wf(),
            (final(self).screens@, final(self).exit, effect_view(eff)) == key_step(
                old(self).screens@,
                old(self).exit,
                key,
            ),
    {
        match key {
            Key::Char('q') => {
                self.exit = true;
                None
            },
            Key::Char('Q') => {
                self.exit = true;
                None
            },
            _ => {
                match self.screens.pop() {
                    Some(top) => {
                        let mut top = top;
                        let action = top.handle_key_event(key);
                        proof {
                            lemma_emitted_event_wf(old(self).screens@.last(), key);
                        }
                        self.screens.push(top);
                        proof {
                            assert(self.screens@ =~= old(self).screens@.update(
                                old(self).screens@.len() - 1,
                                screen_step(old(self).screens@.last(), key).0,
                            ));
                        }
                        match action {
                            None => None,
                            Some(ScreenAction::Emit(e)) => {
                                let needs_refresh = self.handle_screen_event(e);
                                if needs_refresh {
                                    Some(Effect::Refresh)
                                } else {
                                    None
                                }
                            },
                            Some(ScreenAction::Dispatch(cmds)) => Some(Effect::Dispatch(cmds)),
                            Some(ScreenAction::OpenSendWorkspace(a)) => Some(
                                Effect::OpenSendWorkspace(a),
                            ),
                        }
                    },
                    None => None,
                }
            },
        }
    }

    /// Hands a fresh snapshot to the exposed top screen, which rebuilds its
    /// tables wholesale; with no screen left nothing changes.
    pub fn refresh_top(&mut self, snapshot: Hypr)
        requires
            old(self).wf(),
        ensures
            final(self).wf(),
            final(self).exit == old(self).exit,
            old(self).screens@.len() == 0 ==> final(self).screens@ == old(self).screens@,
            old(self).screens@.len() > 0 ==> final(self).screens@ =~= old(self).screens@.update(
                old(self).screens@.len() - 1,
                screen_refreshed(old(self).screens@.last(), snapshot),
            ),
    {
        match self.screens.pop() {
            Some(top) => {
                let mut top = top;
                top.refresh(snapshot);
                self.screens.push(top);
            },
            None => {},
        }
    }
}

} // verus!
