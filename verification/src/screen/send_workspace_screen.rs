//! The send-to-workspace screen: a workspace table scoped to one captured
//! client handle. Choosing a workspace asks for that client to be moved
//! there.

use crate::app::workspace_table::WorkspaceTable;
use crate::hypr::spec_move_cmd;
use crate::hypr::Workspace;
use crate::screen::action_view;
use crate::screen::digit_val;
use crate::screen::is_down_key;
use crate::screen::is_up_key;
use crate::screen::GhostAction;
use crate::screen::Key;
use crate::screen::ScreenAction;
use crate::screen::ScreenEvent;
use crate::screen::Screen;
use crate::screen::help_screen::HelpScreen;
use crate::selection::opt_int;
use vstd::prelude::*;

verus! {

/// Holds only a workspace table and the stable handle of the client that
/// is to be sent.
pub struct SendWorkspaceScreen {
    pub workspace_table: WorkspaceTable,
    pub client_address: String,
}

impl SendWorkspaceScreen {
    /// The screen is well formed when its table is.
    pub open spec fn wf(&self) -> bool {
        self.workspace_table.wf()
    }

    /// Builds the screen around the captured client handle and a fresh
    /// workspace list.
    pub fn new(client_address: String, workspaces: Vec<Workspace>) -> (s: SendWorkspaceScreen)
        ensures
            s.wf(),
            s.client_address == client_address,
            s.workspace_table.workspaces == workspaces,
            opt_int(s.workspace_table.selected) == crate::selection::sel_init(
                workspaces@.len() as int,
            ),
    {
        SendWorkspaceScreen { workspace_table: WorkspaceTable::new(workspaces), client_address }
    }

    /// What one key does to this screen. Navigation moves the cursor;
    /// escape pops back; the help key pushes the help screen; choosing a
    /// workspace (activation or a digit shortcut) asks for one move
    /// command, which on success ends the session.
    pub open spec fn spec_step(self, key: Key) -> (SendWorkspaceScreen, GhostAction) {
        if is_down_key(key) {
            (
                SendWorkspaceScreen {
                    workspace_table: self.workspace_table.spec_down(),
                    client_address: self.client_address,
                },
                GhostAction::Nothing,
            )
        } else if is_up_key(key) {
            (
                SendWorkspaceScreen {
                    workspace_table: self.workspace_table.spec_up(),
                    client_address: self.client_address,
                },
                GhostAction::Nothing,
            )
        } else if key == Key::Esc {
            (self, GhostAction::Emit(ScreenEvent::PopScreen))
        } else if key == Key::Char('?') {
            (self, GhostAction::Emit(ScreenEvent::AddScreen(Screen::Help(HelpScreen {  }))))
        } else if key == Key::Enter {
            match self.workspace_table.selected {
                Some(i) => (
                    self,
                    GhostAction::Dispatch(
                        seq![
                            spec_move_cmd(
                                self.workspace_table.workspaces@[i as int].id as int,
                                self.client_address@,
                            ),
                        ],
                    ),
                ),
                None => (self, GhostAction::Nothing),
            }
        } else {
            match digit_val(key) {
                Some(d) => (
                    self,
                    GhostAction::Dispatch(seq![spec_move_cmd(d, self.client_address@)]),
                ),
                None => (self, GhostAction::Nothing),
            }
        }
    }

    /// Consumes one key event as `spec_step` says.
    pub fn handle_key_event(&mut self, key: Key) -> (r: Option<ScreenAction>)
        requires
            old(self).wf(),
        ensures
            final(self).wf(),
            (*final(self), action_view(r)) == Self::spec_step(*old(self), key),
    {
        match key {
            Key::Down => {
                self.workspace_table.move_down();
                None
            },
            Key::Char('j') => {
                self.workspace_table.move_down();
                None
            },
            Key::Up => {
                self.workspace_table.move_up();
                None
            },
            Key::Char('k') => {
                self.workspace_table.move_up();
                None
            },
            Key::Esc => Some(ScreenAction::Emit(ScreenEvent::PopScreen)),
            Key::Char('?') => Some(
                ScreenAction::Emit(ScreenEvent::AddScreen(Screen::Help(HelpScreen {  }))),
            ),
            Key::Enter => {
                match self.workspace_table.selected_workspace() {
                    Some(id) => Some(self.move_command(id)),
                    None => None,
                }
            },
            Key::Char('0') => Some(self.move_command(0)),
            Key::Char('1') => Some(self.move_command(1)),
            Key::Char('2') => Some(self.move_command(2)),
            Key::Char('3') => Some(self.move_command(3)),
            Key::Char('4') => Some(self.move_command(4)),
            Key::Char('5') => Some(self.move_command(5)),
            Key::Char('6') => Some(self.move_command(6)),
            Key::Char('7') => Some(self.move_command(7)),
            Key::Char('8') => Some(self.move_command(8)),
            Key::Char('9') => Some(self.move_command(9)),
            _ => None,
        }
    }

    /// The dispatch that sends the captured client to workspace `id`.
    fn move_command(&self, id: u32) -> (r: ScreenAction)
        ensures
            action_view(Some(r)) == GhostAction::Dispatch(
                seq![spec_move_cmd(id as int, self.client_address@)],
            ),
    {
        let cmd = crate::hypr::send_to_workspace(id, self.client_address.clone());
        let mut cmds: Vec<String> = Vec::new();
        cmds.push(cmd);
        proof {
            assert(cmds@.map_values(|c: String| c@) =~= seq![
                spec_move_cmd(id as int, self.client_address@),
            ]);
        }
        ScreenAction::Dispatch(cmds)
    }

    /// Rebuilds the workspace table wholesale from a fresh workspace list;
    /// the captured client handle stays.
    pub open spec fn spec_refreshed(self, workspaces: Vec<Workspace>) -> SendWorkspaceScreen {
        SendWorkspaceScreen {
            workspace_table: WorkspaceTable {
                workspaces,
                selected: crate::selection::from_int(
                    crate::selection::sel_init(workspaces@.len() as int),
                ),
            },
            client_address: self.client_address,
        }
    }

    /// Replaces the table's backing data as `spec_refreshed` says.
    pub fn refresh(&mut self, workspaces: Vec<Workspace>)
        requires
            old(self).wf(),
        ensures
            final(self).wf(),
            *final(self) == old(self).spec_refreshed(workspaces),
    {
        self.workspace_table = WorkspaceTable::new(workspaces);
    }
}

} // verus!
