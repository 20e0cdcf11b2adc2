//! Compositor data model: workspaces, clients, snapshots, errors, and the
//! text commands of the control-socket protocol.

pub mod wire;

use crate::digits::dec_seq;
use crate::digits::u32_string;
use vstd::prelude::*;

verus! {

/// Everything that can go wrong between this program and the compositor.
/// The library itself only ever produces `Protocol`; the other variants are
/// built by the I/O layer around it.
#[derive(Debug, PartialEq, Eq, Clone)]
pub enum HyprError {
    /// A required environment variable was absent at startup.
    Config { variable: String },
    /// The control socket at the given path could not be reached.
    Connect { path: String },
    /// Writing the command or reading the reply failed mid-exchange.
    Io { message: String },
    /// A query reply was not the expected JSON; the raw payload is kept so
    /// the malformed reply stays diagnosable.
    Protocol { payload: String },
}

/// One virtual desktop as reported by the compositor.
#[derive(Debug, PartialEq, Eq, Clone)]
pub struct Workspace {
    pub id: u32,
    pub name: String,
    pub monitor_id: u32,
    pub windows: u32,
}

/// The workspace identity embedded in a client record, so a client row can
/// be displayed without a join against the workspace list.
#[derive(Debug, PartialEq, Eq, Clone)]
pub struct ClientWorkspace {
    pub id: u32,
    pub name: String,
}

/// One managed window. `address` is the only stable handle usable in
/// later commands.
#[derive(Debug, PartialEq, Eq, Clone)]
pub struct Client {
    pub class: String,
    pub title: String,
    pub workspace: ClientWorkspace,
    pub address: String,
    pub focus_id: u32,
}

/// The mathematical shadow of a workspace record.
pub struct WorkspaceV {
    pub id: int,
    pub name: Seq<char>,
    pub monitor_id: int,
    pub windows: int,
}

impl View for Workspace {
    type V = WorkspaceV;

    open spec fn view(&self) -> WorkspaceV {
        WorkspaceV {
            id: self.id as int,
            name: self.name@,
            monitor_id: self.monitor_id as int,
            windows: self.windows as int,
        }
    }
}

/// The mathematical shadow of the workspace identity inside a client.
pub struct ClientWorkspaceV {
    pub id: int,
    pub name: Seq<char>,
}

impl View for ClientWorkspace {
    type V = ClientWorkspaceV;

    open spec fn view(&self) -> ClientWorkspaceV {
        ClientWorkspaceV { id: self.id as int, name: self.name@ }
    }
}

/// The mathematical shadow of a client record.
pub struct ClientV {
    pub class: Seq<char>,
    pub title: Seq<char>,
    pub workspace: ClientWorkspaceV,
    pub address: Seq<char>,
    pub focus_id: int,
}

impl View for Client {
    type V = ClientV;

    open spec fn view(&self) -> ClientV {
        ClientV {
            class: self.class@,
            title: self.title@,
            workspace: self.workspace@,
            address: self.address@,
            focus_id: self.focus_id as int,
        }
    }
}

/// The element-wise shadow of a workspace list.
pub open spec fn ws_views(s: Seq<Workspace>) -> Seq<WorkspaceV> {
    s.map_values(|w: Workspace| w@)
}

/// The element-wise shadow of a client list.
pub open spec fn client_views(s: Seq<Client>) -> Seq<ClientV> {
    s.map_values(|c: Client| c@)
}

/// One decoded snapshot of compositor state: the workspace list and the
/// client list, each sorted by ascending workspace id. A fresh fetch
/// replaces the whole value; nothing is patched incrementally.
#[derive(Debug, PartialEq, Eq, Clone)]
pub struct Hypr {
    pub workspaces: Vec<Workspace>,
    pub clients: Vec<Client>,
}

/// The query whose reply is the JSON list of clients.
pub open spec fn spec_clients_query() -> Seq<char> {
    "j/clients"@
}

/// The query whose reply is the JSON list of workspaces.
pub open spec fn spec_workspaces_query() -> Seq<char> {
    "j/workspaces"@
}

/// The command that switches the compositor to workspace `id`.
pub open spec fn spec_switch_cmd(id: int) -> Seq<char> {
    "dispatch workspace "@ + dec_seq(id)
}

/// The command that focuses the window with stable handle `addr`.
pub open spec fn spec_focus_cmd(addr: Seq<char>) -> Seq<char> {
    "dispatch focuswindow address:"@ + addr
}

/// The command that moves the window with stable handle `addr` to
/// workspace `id` without switching to it.
pub open spec fn spec_move_cmd(id: int, addr: Seq<char>) -> Seq<char> {
    "dispatch movetoworkspacesilent "@ + dec_seq(id) + ",address:"@ + addr
}

/// The query text for the client list.
pub fn clients_query() -> (c: String)
    ensures
        c@ == spec_clients_query(),
{
    String::from_str("j/clients")
}

/// The query text for the workspace list.
pub fn workspaces_query() -> (c: String)
    ensures
        c@ == spec_workspaces_query(),
{
    String::from_str("j/workspaces")
}

/// The commands, in sending order, that switch to workspace `id` and then,
/// when a client handle is given, refocus that client there.
pub fn switch_to_workspace(id: u32, focus_client: Option<String>) -> (cmds: Vec<String>)
    ensures
        cmds@.len() == (if focus_client is Some {
            2int
        } else {
            1int
        }),
        cmds@[0]@ == spec_switch_cmd(id as int),
        focus_client matches Some(addr) ==> cmds@[1]@ == spec_focus_cmd(addr@),
{
    let mut cmd = String::from_str("dispatch workspace ");
    cmd.append(u32_string(id).as_str());
    let mut cmds: Vec<String> = Vec::new();
    cmds.push(cmd);
    if let Some(addr) = focus_client {
        let mut focus = String::from_str("dispatch focuswindow address:");
        focus.append(addr.as_str());
        cmds.push(focus);
    }
    cmds
}

/// The single command that sends the window `client_address` to workspace
/// `workspace` without following it.
pub fn send_to_workspace(workspace: u32, client_address: String) -> (cmd: String)
    ensures
        cmd@ == spec_move_cmd(workspace as int, client_address@),
{
    let mut cmd = String::from_str("dispatch movetoworkspacesilent ");
    cmd.append(u32_string(workspace).as_str());
    cmd.append(",address:");
    cmd.append(client_address.as_str());
    cmd
}

/// The path of the compositor's control socket inside the runtime
/// directory `root` for the instance named `instance`.
pub fn socket_path(root: &str, instance: &str) -> (p: String)
    ensures
        p@ == root@ + "/hypr/"@ + instance@ + "/.socket.sock"@,
{
    let mut p = String::from_str(root);
    p.append("/hypr/");
    p.append(instance);
    p.append("/.socket.sock");
    p
}


/// Non-decreasing by workspace id.
pub open spec fn sorted_ws(l: Seq<WorkspaceV>) -> bool {
    forall|a: int, b: int| 0 <= a <= b < l.len() ==> #[trigger] l[a].id <= #[trigger] l[b].id
}

/// Non-decreasing by the id of the workspace each client sits on.
pub open spec fn sorted_clients(l: Seq<ClientV>) -> bool {
    forall|a: int, b: int|
        0 <= a <= b < l.len() ==> #[trigger] l[a].workspace.id <= #[trigger] l[b].workspace.id
}

/// `w` placed into `l` after every item with an id at most its own: the
/// stable insertion step.
pub open spec fn ws_insert_sorted(l: Seq<WorkspaceV>, w: WorkspaceV) -> Seq<WorkspaceV>
    decreases l.len(),
{
    if l.len() == 0 {
        seq![w]
    } else if l.last().id <= w.id {
        l.push(w)
    } else {
        ws_insert_sorted(l.drop_last(), w).push(l.last())
    }
}

/// The workspace list sorted by ascending id, stably: items are taken in
/// order and each is placed after its equals.
pub open spec fn ws_sort(l: Seq<WorkspaceV>) -> Seq<WorkspaceV>
    decreases l.len(),
{
    if l.len() == 0 {
        l
    } else {
        ws_insert_sorted(ws_sort(l.drop_last()), l.last())
    }
}

/// The stable insertion step for clients, by workspace id.
pub open spec fn client_insert_sorted(l: Seq<ClientV>, c: ClientV) -> Seq<ClientV>
    decreases l.len(),
{
    if l.len() == 0 {
        seq![c]
    } else if l.last().workspace.id <= c.workspace.id {
        l.push(c)
    } else {
        client_insert_sorted(l.drop_last(), c).push(l.last())
    }
}

/// The client list sorted by ascending workspace id, stably.
pub open spec fn client_sort(l: Seq<ClientV>) -> Seq<ClientV>
    decreases l.len(),
{
    if l.len() == 0 {
        l
    } else {
        client_insert_sorted(client_sort(l.drop_last()), l.last())
    }
}

/// Where the insertion step puts the new item: at the position `j` that
/// has everything with a larger id at or after it.
proof fn lemma_ws_insert_at(l: Seq<WorkspaceV>, w: WorkspaceV, j: int)
    requires
        0 <= j <= l.len(),
        forall|k: int| j <= k < l.len() ==> #[trigger] l[k].id > w.id,
        j > 0 ==> l[j - 1].id <= w.id,
    ensures
        ws_insert_sorted(l, w) =~= l.insert(j, w),
    decreases l.len(),
{
    if l.len() == 0 {
        assert(seq![w] =~= l.insert(0, w));
    } else if l.last().id <= w.id {
        assert(j == l.len());
        assert(l.push(w) =~= l.insert(l.len() as int, w));
    } else {
        assert(j < l.len());
        lemma_ws_insert_at(l.drop_last(), w, j);
        assert(ws_insert_sorted(l.drop_last(), w).push(l.last()) =~= l.insert(j, w));
    }
}

/// Where the insertion step puts the new client.
proof fn lemma_client_insert_at(l: Seq<ClientV>, c: ClientV, j: int)
    requires
        0 <= j <= l.len(),
        forall|k: int| j <= k < l.len() ==> #[trigger] l[k].workspace.id > c.workspace.id,
        j > 0 ==> l[j - 1].workspace.id <= c.workspace.id,
    ensures
        client_insert_sorted(l, c) =~= l.insert(j, c),
    decreases l.len(),
{
    if l.len() == 0 {
        assert(seq![c] =~= l.insert(0, c));
    } else if l.last().workspace.id <= c.workspace.id {
        assert(j == l.len());
        assert(l.push(c) =~= l.insert(l.len() as int, c));
    } else {
        assert(j < l.len());
        lemma_client_insert_at(l.drop_last(), c, j);
        assert(client_insert_sorted(l.drop_last(), c).push(l.last()) =~= l.insert(j, c));
    }
}

/// Sorts a workspace list in place by ascending id, stably, as `ws_sort`
/// says.
pub fn sort_workspaces(v: &mut Vec<Workspace>)
    ensures
        ws_views(final(v)@) == ws_sort(ws_views(old(v)@)),
        sorted_ws(ws_views(final(v)@)),
{
    let ghost orig = old(v)@;
    let total = v.len();
    let mut out: Vec<Workspace> = Vec::new();
    let mut done: usize = 0;
    proof {
        assert(ws_views(orig.subrange(0, 0)) =~= Seq::<WorkspaceV>::empty());
        assert(ws_views(out@) =~= Seq::<WorkspaceV>::empty());
    }
    while done < total
        invariant
            done <= total,
            total == orig.len(),
            v@ =~= orig.subrange(done as int, total as int),
            out@.len() == done,
            ws_views(out@) == ws_sort(ws_views(orig.subrange(0, done as int))),
            sorted_ws(ws_views(out@)),
        decreases total - done,
    {
        let w = v.remove(0);
        proof {
            assert(w == orig[done as int]);
            assert(v@ =~= orig.subrange(done as int + 1, total as int));
        }
        let mut j = out.len();
        while j > 0 && out[j - 1].id > w.id
            invariant
                j <= out@.len(),
                forall|k: int| j as int <= k < out@.len() ==> #[trigger] out@[k].id > w.id,
            decreases j,
        {
            j = j - 1;
        }
        let ghost prev = out@;
        let ghost pviews = ws_views(prev);
        out.insert(j, w);
        proof {
            assert(forall|k: int|
                0 <= k < prev.len() ==> (#[trigger] pviews[k]).id == prev[k].id as int);
            lemma_ws_insert_at(pviews, w@, j as int);
            assert(ws_views(out@) =~= pviews.insert(j as int, w@));
            let sub1 = orig.subrange(0, done as int + 1);
            assert(sub1.drop_last() =~= orig.subrange(0, done as int));
            assert(sub1.last() == w);
            assert(ws_views(sub1).drop_last() =~= ws_views(sub1.drop_last()));
            assert(ws_views(sub1).last() == w@);
            assert(ws_views(sub1).len() > 0);
            assert(ws_sort(ws_views(sub1)) == ws_insert_sorted(
                ws_sort(ws_views(orig.subrange(0, done as int))),
                w@,
            ));
            assert(ws_views(out@) == ws_sort(ws_views(sub1)));
            assert forall|a: int, b: int|
                0 <= a <= b < ws_views(out@).len() implies #[trigger] ws_views(out@)[a].id
                <= #[trigger] ws_views(out@)[b].id by {
                let ov = ws_views(out@);
                assert(forall|k: int| 0 <= k < out@.len() ==> (#[trigger] ov[k]).id
                    == out@[k].id as int);
                assert(out@ == prev.insert(j as int, w));
                if a < j && b < j {
                    assert(prev.insert(j as int, w)[a] == prev[a]);
                    assert(prev.insert(j as int, w)[b] == prev[b]);
                    assert(pviews[a].id <= pviews[b].id);
                } else if a < j && b == j {
                    assert(prev.insert(j as int, w)[a] == prev[a]);
                    assert(pviews[a].id <= pviews[j - 1].id);
                } else if a < j && b > j {
                    assert(prev.insert(j as int, w)[a] == prev[a]);
                    assert(prev.insert(j as int, w)[b] == prev[b - 1]);
                    assert(pviews[a].id <= pviews[b - 1].id);
                } else if a == j && b == j {
                } else if a == j && b > j {
                    assert(prev.insert(j as int, w)[b] == prev[b - 1]);
                    assert(prev[b - 1].id > w.id);
                } else {
                    assert(prev.insert(j as int, w)[a] == prev[a - 1]);
                    assert(prev.insert(j as int, w)[b] == prev[b - 1]);
                    assert(pviews[a - 1].id <= pviews[b - 1].id);
                }
            }
        }
        done = done + 1;
    }
    proof {
        assert(orig.subrange(0, total as int) =~= orig);
    }
    *v = out;
}

/// Sorts a client list in place by ascending workspace id, stably, as
/// `client_sort` says.
pub fn sort_clients(v: &mut Vec<Client>)
    ensures
        client_views(final(v)@) == client_sort(client_views(old(v)@)),
        sorted_clients(client_views(final(v)@)),
{
    let ghost orig = old(v)@;
    let total = v.len();
    let mut out: Vec<Client> = Vec::new();
    let mut done: usize = 0;
    proof {
        assert(client_views(orig.subrange(0, 0)) =~= Seq::<ClientV>::empty());
        assert(client_views(out@) =~= Seq::<ClientV>::empty());
    }
    while done < total
        invariant
            done <= total,
            total == orig.len(),
            v@ =~= orig.subrange(done as int, total as int),
            out@.len() == done,
            client_views(out@) == client_sort(client_views(orig.subrange(0, done as int))),
            sorted_clients(client_views(out@)),
        decreases total - done,
    {
        let c = v.remove(0);
        proof {
            assert(c == orig[done as int]);
            assert(v@ =~= orig.subrange(done as int + 1, total as int));
        }
        let mut j = out.len();
        while j > 0 && out[j - 1].workspace.id > c.workspace.id
            invariant
                j <= out@.len(),
                forall|k: int|
                    j as int <= k < out@.len() ==> (#[trigger] out@[k]).workspace.id
                        > c.workspace.id,
            decreases j,
        {
            j = j - 1;
        }
        let ghost prev = out@;
        let ghost pviews = client_views(prev);
        out.insert(j, c);
        proof {
            assert(forall|k: int|
                0 <= k < prev.len() ==> (#[trigger] pviews[k]).workspace.id == prev[k].workspace.id
                    as int);
            lemma_client_insert_at(pviews, c@, j as int);
            assert(client_views(out@) =~= pviews.insert(j as int, c@));
            let sub1 = orig.subrange(0, done as int + 1);
            assert(sub1.drop_last() =~= orig.subrange(0, done as int));
            assert(sub1.last() == c);
            assert(client_views(sub1).drop_last() =~= client_views(sub1.drop_last()));
            assert(client_views(sub1).last() == c@);
            assert(client_views(sub1).len() > 0);
            assert(client_sort(client_views(sub1)) == client_insert_sorted(
                client_sort(client_views(orig.subrange(0, done as int))),
                c@,
            ));
            assert(client_views(out@) == client_sort(client_views(sub1)));
            assert forall|a: int, b: int|
                0 <= a <= b < client_views(out@).len() implies #[trigger] client_views(
                out@,
            )[a].workspace.id <= #[trigger] client_views(out@)[b].workspace.id by {
                let ov = client_views(out@);
                assert(forall|k: int|
                    0 <= k < out@.len() ==> (#[trigger] ov[k]).workspace.id == out@[k].workspace.id
                        as int);
                assert(out@ == prev.insert(j as int, c));
                if a < j && b < j {
                    assert(prev.insert(j as int, c)[a] == prev[a]);
                    assert(prev.insert(j as int, c)[b] == prev[b]);
                    assert(pviews[a].workspace.id <= pviews[b].workspace.id);
                } else if a < j && b == j {
                    assert(prev.insert(j as int, c)[a] == prev[a]);
                    assert(pviews[a].workspace.id <= pviews[j - 1].workspace.id);
                } else if a < j && b > j {
                    assert(prev.insert(j as int, c)[a] == prev[a]);
                    assert(prev.insert(j as int, c)[b] == prev[b - 1]);
                    assert(pviews[a].workspace.id <= pviews[b - 1].workspace.id);
                } else if a == j && b == j {
                } else if a == j && b > j {
                    assert(prev.insert(j as int, c)[b] == prev[b - 1]);
                    assert(prev[b - 1].workspace.id > c.workspace.id);
                } else {
                    assert(prev.insert(j as int, c)[a] == prev[a - 1]);
                    assert(prev.insert(j as int, c)[b] == prev[b - 1]);
                    assert(pviews[a - 1].workspace.id <= pviews[b - 1].workspace.id);
                }
            }
        }
        done = done + 1;
    }
    proof {
        assert(orig.subrange(0, total as int) =~= orig);
    }
    *v = out;
}

/// Decodes a workspace-query reply and sorts it by ascending id. A reply
/// that is not JSON of the right shape is a protocol error that keeps the
/// raw payload.
pub fn parse_workspaces(reply: &str) -> (r: Result<Vec<Workspace>, HyprError>)
    ensures
        r is Ok <==> wire::spec_decoded_workspaces(reply@) is Some,
        r matches Ok(ws) ==> (match wire::spec_decoded_workspaces(reply@) {
            Some(l) => ws_views(ws@) == ws_sort(l) && sorted_ws(ws_views(ws@)),
            None => false,
        }),
        r matches Err(e) ==> (e matches HyprError::Protocol { payload } && payload@ == reply@),
{
    match crate::json::parse_json(reply) {
        Some(tree) => {
            match wire::decode_workspaces(&tree) {
                Some(ws) => {
                    let mut ws = ws;
                    sort_workspaces(&mut ws);
                    Ok(ws)
                },
                None => Err(HyprError::Protocol { payload: reply.to_owned() }),
            }
        },
        None => Err(HyprError::Protocol { payload: reply.to_owned() }),
    }
}

/// Decodes a client-query reply and sorts it by ascending workspace id.
pub fn parse_clients(reply: &str) -> (r: Result<Vec<Client>, HyprError>)
    ensures
        r is Ok <==> wire::spec_decoded_clients(reply@) is Some,
        r matches Ok(cs) ==> (match wire::spec_decoded_clients(reply@) {
            Some(l) => client_views(cs@) == client_sort(l) && sorted_clients(client_views(cs@)),
            None => false,
        }),
        r matches Err(e) ==> (e matches HyprError::Protocol { payload } && payload@ == reply@),
{
    match crate::json::parse_json(reply) {
        Some(tree) => {
            match wire::decode_clients(&tree) {
                Some(cs) => {
                    let mut cs = cs;
                    sort_clients(&mut cs);
                    Ok(cs)
                },
                None => Err(HyprError::Protocol { payload: reply.to_owned() }),
            }
        },
        None => Err(HyprError::Protocol { payload: reply.to_owned() }),
    }
}

impl Hypr {
    /// Builds one snapshot from the two query replies: each list decoded
    /// from its JSON and sorted by ascending workspace id. A malformed
    /// reply fails the whole snapshot with a protocol error carrying that
    /// reply; the workspace reply is judged first.
    pub fn new(workspaces_reply: &str, clients_reply: &str) -> (r: Result<Hypr, HyprError>)
        ensures
            r is Ok <==> (wire::spec_decoded_workspaces(workspaces_reply@) is Some
                && wire::spec_decoded_clients(clients_reply@) is Some),
            r matches Ok(h) ==> (match (
                wire::spec_decoded_workspaces(workspaces_reply@),
                wire::spec_decoded_clients(clients_reply@),
            ) {
                (Some(lw), Some(lc)) => ws_views(h.workspaces@) == ws_sort(lw) && client_views(
                    h.clients@,
                ) == client_sort(lc) && sorted_ws(ws_views(h.workspaces@)) && sorted_clients(
                    client_views(h.clients@),
                ),
                _ => false,
            }),
            wire::spec_decoded_workspaces(workspaces_reply@) is None ==> (r matches Err(e)
                && e matches HyprError::Protocol { payload } && payload@ == workspaces_reply@),
            (wire::spec_decoded_workspaces(workspaces_reply@) is Some
                && wire::spec_decoded_clients(clients_reply@) is None) ==> (r matches Err(e)
                && e matches HyprError::Protocol { payload } && payload@ == clients_reply@),
    {
        let workspaces = match parse_workspaces(workspaces_reply) {
            Ok(ws) => ws,
            Err(e) => {
                return Err(e);
            },
        };
        let clients = match parse_clients(clients_reply) {
            Ok(cs) => cs,
            Err(e) => {
                return Err(e);
            },
        };
        Ok(Hypr { workspaces, clients })
    }
}
} // verus!
