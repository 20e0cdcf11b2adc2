//! The navigable table of workspaces.

use crate::hypr::Workspace;
use crate::selection::from_int;
use crate::selection::opt_int;
use crate::selection::sel_down;
use crate::selection::sel_init;
use crate::selection::sel_up;
use crate::selection::sel_wf;
use vstd::prelude::*;

verus! {

/// A single-selection view over the snapshot's workspace list.
pub struct WorkspaceTable {
    pub workspaces: Vec<Workspace>,
    pub selected: Option<usize>,
}

impl WorkspaceTable {
    /// The selection exists exactly on a non-empty list and stays inside it.
    pub open spec fn wf(&self) -> bool {
        sel_wf(self.workspaces@.len() as int, opt_int(self.selected))
    }

    /// Builds the table with the cursor on the first workspace, when there
    /// is one.
    pub fn new(workspaces: Vec<Workspace>) -> (t: WorkspaceTable)
        ensures
            t.wf(),
            t.workspaces == workspaces,
            opt_int(t.selected) == sel_init(workspaces@.len() as int),
    {
        let selected: Option<usize> = if workspaces.len() > 0 {
            Some(0)
        } else {
            None
        };
        WorkspaceTable { workspaces, selected }
    }

    /// The table after one downward cursor step.
    pub open spec fn spec_down(self) -> WorkspaceTable {
        WorkspaceTable {
            workspaces: self.workspaces,
            selected: from_int(sel_down(self.workspaces@.len() as int, opt_int(self.selected))),
        }
    }

    /// The table after one upward cursor step.
    pub open spec fn spec_up(self) -> WorkspaceTable {
        WorkspaceTable { workspaces: self.workspaces, selected: from_int(sel_up(opt_int(self.selected))) }
    }

    /// Moves the cursor one workspace towards the end, clamped at the last.
    pub fn move_down(&mut self)
        requires
            old(self).wf(),
        ensures
            final(self).wf(),
            final(self).workspaces == old(self).workspaces,
            opt_int(final(self).selected) == sel_down(
                old(self).workspaces@.len() as int,
                opt_int(old(self).selected),
            ),
            *final(self) == old(self).spec_down(),
    {
        let n = self.workspaces.len();
        if let Some(i) = self.selected {
            proof {
                assert(i < n);
            }
            if i + 1 < n {
                self.selected = Some(i + 1);
            }
        }
    }

    /// Moves the cursor one workspace towards the start, clamped at the
    /// first.
    pub fn move_up(&mut self)
        requires
            old(self).wf(),
        ensures
            final(self).wf(),
            final(self).workspaces == old(self).workspaces,
            opt_int(final(self).selected) == sel_up(opt_int(old(self).selected)),
            *final(self) == old(self).spec_up(),
    {
        if let Some(i) = self.selected {
            if i > 0 {
                self.selected = Some(i - 1);
            }
        }
    }

    /// The workspace under the cursor, or nothing on an empty table.
    pub fn selected(&self) -> (r: Option<&Workspace>)
        requires
            self.wf(),
        ensures
            match self.selected {
                Some(i) => r == Some(&self.workspaces@[i as int]),
                None => r is None,
            },
    {
        match self.selected {
            Some(i) => Some(&self.workspaces[i]),
            None => None,
        }
    }

    /// The id of the selected workspace, or nothing on an empty table.
    pub fn selected_workspace(&self) -> (r: Option<u32>)
        requires
            self.wf(),
        ensures
            match self.selected {
                Some(i) => r == Some(self.workspaces@[i as int].id),
                None => r is None,
            },
    {
        match self.selected {
            Some(i) => Some(self.workspaces[i].id),
            None => None,
        }
    }
}

} // verus!
