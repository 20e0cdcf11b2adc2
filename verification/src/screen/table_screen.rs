//! The root screen: a client table and a workspace table, exactly one of
//! which has focus. Activation switches the compositor to the selected
//! workspace, which on success is the terminal action of the session.

use crate::app::client_table::ClientTable;
use crate::app::workspace_table::WorkspaceTable;
use crate::hypr::spec_focus_cmd;
use crate::hypr::spec_switch_cmd;
use crate::hypr::Hypr;
use crate::screen::action_view;
use crate::screen::help_screen::HelpScreen;
use crate::screen::digit_val;
use crate::screen::is_down_key;
use crate::screen::is_up_key;
use crate::screen::GhostAction;
use crate::screen::Key;
use crate::screen::Screen;
use crate::screen::ScreenAction;
use crate::screen::ScreenEvent;
use crate::selection::from_int;
use crate::selection::sel_init;
use vstd::prelude::*;

verus! {

/// Which of the two tables has focus.
#[derive(Debug, PartialEq, Eq, Clone, Copy)]
pub enum SelectedTable {
    Clients,
    Workspaces,
}

/// The root screen, always present at the bottom of the stack.
pub struct TableScreen {
    pub client_table: ClientTable,
    pub workspace_table: WorkspaceTable,
    pub current_table: SelectedTable,
}

impl TableScreen {
    /// Both tables stay well formed.
    pub open spec fn wf(&self) -> bool {
        self.client_table.wf() && self.workspace_table.wf()
    }

    /// A fresh root screen over a snapshot: tables built from its lists,
    /// focus starting on the client table.
    pub open spec fn spec_new(snap: Hypr) -> TableScreen {
        TableScreen {
            client_table: ClientTable {
                clients: snap.clients,
                selected: from_int(sel_init(snap.clients@.len() as int)),
            },
            workspace_table: WorkspaceTable {
                workspaces: snap.workspaces,
                selected: from_int(sel_init(snap.workspaces@.len() as int)),
            },
            current_table: SelectedTable::Clients,
        }
    }

    /// Builds the root screen from a snapshot.
    pub fn new(snapshot: Hypr) -> (s: TableScreen)
        ensures
            s.wf(),
            s == Self::spec_new(snapshot),
    {
        let Hypr { workspaces, clients } = snapshot;
        TableScreen {
            client_table: ClientTable::new(clients),
            workspace_table: WorkspaceTable::new(workspaces),
            current_table: SelectedTable::Clients,
        }
    }

    /// The screen with the focused table replaced.
    pub open spec fn with_tables(self, ct: ClientTable, wt: WorkspaceTable) -> TableScreen {
        TableScreen { client_table: ct, workspace_table: wt, current_table: self.current_table }
    }

    /// The other table gets focus; everything else stays.
    pub open spec fn spec_toggled(self) -> TableScreen {
        TableScreen {
            client_table: self.client_table,
            workspace_table: self.workspace_table,
            current_table: match self.current_table {
                SelectedTable::Clients => SelectedTable::Workspaces,
                SelectedTable::Workspaces => SelectedTable::Clients,
            },
        }
    }

    /// What activation asks for: switch to the workspace the selection
    /// names. From the client table the selected client's own workspace is
    /// the target and the client is refocused there afterwards; from the
    /// workspace table the selected workspace alone. With nothing selected,
    /// nothing happens.
    pub open spec fn spec_activate(self) -> GhostAction {
        match self.current_table {
            SelectedTable::Clients => match self.client_table.selected {
                Some(i) => GhostAction::Dispatch(
                    seq![
                        spec_switch_cmd(
                            self.client_table.clients@[i as int].workspace.id as int,
                        ),
                        spec_focus_cmd(self.client_table.clients@[i as int].address@),
                    ],
                ),
                None => GhostAction::Nothing,
            },
            SelectedTable::Workspaces => match self.workspace_table.selected {
                Some(i) => GhostAction::Dispatch(
                    seq![
                        spec_switch_cmd(self.workspace_table.workspaces@[i as int].id as int),
                    ],
                ),
                None => GhostAction::Nothing,
            },
        }
    }

    /// What one key does to the root screen. Navigation moves the focused
    /// table's cursor; the toggle key moves focus; activation or a digit
    /// shortcut asks for a workspace switch, which on success ends the
    /// session; one key opens the send-to-workspace screen for the selected
    /// client; one pushes help. Unrecognized keys change nothing.
    pub open spec fn spec_step(self, key: Key) -> (TableScreen, GhostAction) {
        if is_down_key(key) {
            (
                match self.current_table {
                    SelectedTable::Clients => self.with_tables(
                        self.client_table.spec_down(),
                        self.workspace_table,
                    ),
                    SelectedTable::Workspaces => self.with_tables(
                        self.client_table,
                        self.workspace_table.spec_down(),
                    ),
                },
                GhostAction::Nothing,
            )
        } else if is_up_key(key) {
            (
                match self.current_table {
                    SelectedTable::Clients => self.with_tables(
                        self.client_table.spec_up(),
                        self.workspace_table,
                    ),
                    SelectedTable::Workspaces => self.with_tables(
                        self.client_table,
                        self.workspace_table.spec_up(),
                    ),
                },
                GhostAction::Nothing,
            )
        } else if key == Key::Enter {
            (self, self.spec_activate())
        } else if key == Key::Char('?') {
            (self, GhostAction::Emit(ScreenEvent::AddScreen(Screen::Help(HelpScreen {  }))))
        } else if key == Key::Char('s') {
            match self.client_table.selected {
                Some(i) => (
                    self,
                    GhostAction::OpenSend(self.client_table.clients@[i as int].address@),
                ),
                None => (self, GhostAction::Nothing),
            }
        } else if key == Key::Tab {
            (self.spec_toggled(), GhostAction::Nothing)
        } else {
            match digit_val(key) {
                Some(d) => (self, GhostAction::Dispatch(seq![spec_switch_cmd(d)])),
                None => (self, GhostAction::Nothing),
            }
        }
    }

    /// Consumes one key event as `spec_step` says.
    pub fn handle_key_event(&mut self, key: Key) -> (r: Option<ScreenAction>)
        requires
            old(self).wf(),
        ensures
            final(self).wf(),
            (*final(self), action_view(r)) == Self::spec_step(*old(self), key),
    {
        match key {
            Key::Down => {
                self.table_move_down();
                None
            },
            Key::Char('j') => {
                self.table_move_down();
                None
            },
            Key::Up => {
                self.table_move_up();
                None
            },
            Key::Char('k') => {
                self.table_move_up();
                None
            },
            Key::Enter => self.switch_to_selected_workspace(),
            Key::Char('0') => Some(self.switch_command(0)),
            Key::Char('1') => Some(self.switch_command(1)),
            Key::Char('2') => Some(self.switch_command(2)),
            Key::Char('3') => Some(self.switch_command(3)),
            Key::Char('4') => Some(self.switch_command(4)),
            Key::Char('5') => Some(self.switch_command(5)),
            Key::Char('6') => Some(self.switch_command(6)),
            Key::Char('7') => Some(self.switch_command(7)),
            Key::Char('8') => Some(self.switch_command(8)),
            Key::Char('9') => Some(self.switch_command(9)),
            Key::Char('?') => Some(
                ScreenAction::Emit(ScreenEvent::AddScreen(Screen::Help(HelpScreen {  }))),
            ),
            Key::Char('s') => self.send_selected_client_to_workspace(),
            Key::Tab => self.next_border_screen(),
            _ => None,
        }
    }

    /// Moves focus to the other table.
    fn next_border_screen(&mut self) -> (r: Option<ScreenAction>)
        ensures
            *final(self) == old(self).spec_toggled(),
            r is None,
    {
        match self.current_table {
            SelectedTable::Clients => self.current_table = SelectedTable::Workspaces,
            SelectedTable::Workspaces => self.current_table = SelectedTable::Clients,
        };
        None
    }

    /// Moves the focused table's cursor towards the end.
    fn table_move_down(&mut self)
        requires
            old(self).wf(),
        ensures
            final(self).wf(),
            *final(self) == (match old(self).current_table {
                SelectedTable::Clients => old(self).with_tables(
                    old(self).client_table.spec_down(),
                    old(self).workspace_table,
                ),
                SelectedTable::Workspaces => old(self).with_tables(
                    old(self).client_table,
                    old(self).workspace_table.spec_down(),
                ),
            }),
    {
        match self.current_table {
            SelectedTable::Clients => self.client_table.move_down(),
            SelectedTable::Workspaces => self.workspace_table.move_down(),
        };
    }

    /// Moves the focused table's cursor towards the start.
    fn table_move_up(&mut self)
        requires
            old(self).wf(),
        ensures
            final(self).wf(),
            *final(self) == (match old(self).current_table {
                SelectedTable::Clients => old(self).with_tables(
                    old(self).client_table.spec_up(),
                    old(self).workspace_table,
                ),
                SelectedTable::Workspaces => old(self).with_tables(
                    old(self).client_table,
                    old(self).workspace_table.spec_up(),
                ),
            }),
    {
        match self.current_table {
            SelectedTable::Clients => self.client_table.move_up(),
            SelectedTable::Workspaces => self.workspace_table.move_up(),
        };
    }

    /// Asks for the switch the current selection names, as `spec_activate`
    /// says.
    fn switch_to_selected_workspace(&mut self) -> (r: Option<ScreenAction>)
        requires
            old(self).wf(),
        ensures
            *final(self) == *old(self),
            action_view(r) == old(self).spec_activate(),
    {
        let (id_option, client_address) = match self.current_table {
            SelectedTable::Clients => self.client_table.selected_workspace(),
            SelectedTable::Workspaces => (self.workspace_table.selected_workspace(), None),
        };
        match id_option {
            Some(id) => {
                let cmds = crate::hypr::switch_to_workspace(id, client_address);
                proof {
                    let mapped = cmds@.map_values(|c: String| c@);
                    match old(self).current_table {
                        SelectedTable::Clients => {
                            match old(self).client_table.selected {
                                Some(i) => {
                                    assert(mapped =~= seq![
                                        spec_switch_cmd(
                                            old(
                                                self,
                                            ).client_table.clients@[i as int].workspace.id as int,
                                        ),
                                        spec_focus_cmd(
                                            old(self).client_table.clients@[i as int].address@,
                                        ),
                                    ]);
                                },
                                None => {
                                    assert(false);
                                },
                            }
                        },
                        SelectedTable::Workspaces => {
                            match old(self).workspace_table.selected {
                                Some(i) => {
                                    assert(mapped =~= seq![
                                        spec_switch_cmd(
                                            old(
                                                self,
                                            ).workspace_table.workspaces@[i as int].id as int,
                                        ),
                                    ]);
                                },
                                None => {
                                    assert(false);
                                },
                            }
                        },
                    }
                }
                Some(ScreenAction::Dispatch(cmds))
            },
            None => None,
        }
    }

    /// The dispatch that bare-switches to workspace `id`.
    fn switch_command(&self, id: u32) -> (r: ScreenAction)
        ensures
            action_view(Some(r)) == GhostAction::Dispatch(seq![spec_switch_cmd(id as int)]),
    {
        let cmds = crate::hypr::switch_to_workspace(id, None);
        proof {
            assert(cmds@.map_values(|c: String| c@) =~= seq![spec_switch_cmd(id as int)]);
        }
        ScreenAction::Dispatch(cmds)
    }

    /// Asks for a send-to-workspace screen scoped to the selected client's
    /// stable handle; with no client selected, nothing happens.
    fn send_selected_client_to_workspace(&mut self) -> (r: Option<ScreenAction>)
        requires
            old(self).wf(),
        ensures
            *final(self) == *old(self),
            action_view(r) == (match old(self).client_table.selected {
                Some(i) => GhostAction::OpenSend(
                    old(self).client_table.clients@[i as int].address@,
                ),
                None => GhostAction::Nothing,
            }),
    {
        match self.client_table.selected_client() {
            Some(client_address) => Some(ScreenAction::OpenSendWorkspace(client_address)),
            None => None,
        }
    }

    /// The screen rebuilt wholesale from a fresh snapshot; the focus choice
    /// stays.
    pub open spec fn spec_refreshed(self, snap: Hypr) -> TableScreen {
        TableScreen {
            client_table: ClientTable {
                clients: snap.clients,
                selected: from_int(sel_init(snap.clients@.len() as int)),
            },
            workspace_table: WorkspaceTable {
                workspaces: snap.workspaces,
                selected: from_int(sel_init(snap.workspaces@.len() as int)),
            },
            current_table: self.current_table,
        }
    }

    /// Replaces both tables' backing data as `spec_refreshed` says.
    pub fn refresh(&mut self, snapshot: Hypr)
        requires
            old(self).wf(),
        ensures
            final(self).wf(),
            *final(self) == old(self).spec_refreshed(snapshot),
    {
        let Hypr { workspaces, clients } = snapshot;
        self.client_table = ClientTable::new(clients);
        self.workspace_table = WorkspaceTable::new(workspaces);
    }
}

} // verus!
