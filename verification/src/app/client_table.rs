//! The navigable table of client windows.

use crate::hypr::Client;
use crate::selection::from_int;
use crate::selection::opt_int;
use crate::selection::sel_down;
use crate::selection::sel_init;
use crate::selection::sel_up;
use crate::selection::sel_wf;
use vstd::prelude::*;

verus! {

/// A single-selection view over the snapshot's client list.
pub struct ClientTable {
    pub clients: Vec<Client>,
    pub selected: Option<usize>,
}

impl ClientTable {
    /// The selection exists exactly on a non-empty list and stays inside it.
    pub open spec fn wf(&self) -> bool {
        sel_wf(self.clients@.len() as int, opt_int(self.selected))
    }

    /// Builds the table with the cursor on the first client, when there is
    /// one.
    pub fn new(clients: Vec<Client>) -> (t: ClientTable)
        ensures
            t.wf(),
            t.clients == clients,
            opt_int(t.selected) == sel_init(clients@.len() as int),
    {
        let selected: Option<usize> = if clients.len() > 0 {
            Some(0)
        } else {
            None
        };
        ClientTable { clients, selected }
    }

    /// The table after one downward cursor step.
    pub open spec fn spec_down(self) -> ClientTable {
        ClientTable {
            clients: self.clients,
            selected: from_int(sel_down(self.clients@.len() as int, opt_int(self.selected))),
        }
    }

    /// The table after one upward cursor step.
    pub open spec fn spec_up(self) -> ClientTable {
        ClientTable { clients: self.clients, selected: from_int(sel_up(opt_int(self.selected))) }
    }

    /// Moves the cursor one client towards the end, clamped at the last.
    pub fn move_down(&mut self)
        requires
            old(self).wf(),
        ensures
            final(self).wf(),
            final(self).clients == old(self).clients,
            opt_int(final(self).selected) == sel_down(
                old(self).clients@.len() as int,
                opt_int(old(self).selected),
            ),
            *final(self) == old(self).spec_down(),
    {
        let n = self.clients.len();
        if let Some(i) = self.selected {
            proof {
                assert(i < n);
            }
            if i + 1 < n {
                self.selected = Some(i + 1);
            }
        }
    }

    /// Moves the cursor one client towards the start, clamped at the first.
    pub fn move_up(&mut self)
        requires
            old(self).wf(),
        ensures
            final(self).wf(),
            final(self).clients == old(self).clients,
            opt_int(final(self).selected) == sel_up(opt_int(old(self).selected)),
            *final(self) == old(self).spec_up(),
    {
        if let Some(i) = self.selected {
            if i > 0 {
                self.selected = Some(i - 1);
            }
        }
    }

    /// The client under the cursor, or nothing on an empty table.
    pub fn selected(&self) -> (r: Option<&Client>)
        requires
            self.wf(),
        ensures
            match self.selected {
                Some(i) => r == Some(&self.clients@[i as int]),
                None => r is None,
            },
    {
        match self.selected {
            Some(i) => Some(&self.clients[i]),
            None => None,
        }
    }

    /// The workspace id the selected client lives on, together with that
    /// client's stable handle, so a switch can also refocus the window.
    pub fn selected_workspace(&self) -> (r: (Option<u32>, Option<String>))
        requires
            self.wf(),
        ensures
            match self.selected {
                Some(i) => r.0 == Some(self.clients@[i as int].workspace.id) && (r.1
                    matches Some(a) && a@ == self.clients@[i as int].address@),
                None => r.0 is None && r.1 is None,
            },
    {
        match self.selected {
            Some(i) => {
                let c = &self.clients[i];
                (Some(c.workspace.id), Some(c.address.clone()))
            },
            None => (None, None),
        }
    }

    /// The stable handle of the selected client, or nothing on an empty
    /// table.
    pub fn selected_client(&self) -> (r: Option<String>)
        requires
            self.wf(),
        ensures
            match self.selected {
                Some(i) => r matches Some(a) && a@ == self.clients@[i as int].address@,
                None => r is None,
            },
    {
        match self.selected {
            Some(i) => Some(self.clients[i].address.clone()),
            None => None,
        }
    }
}

} // verus!
