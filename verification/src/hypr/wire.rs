//! The wire shape of workspace and client records: how a record is laid
//! out as a JSON object (including the `monitorID` and `focusHistoryID`
//! spellings the compositor uses), how one is read back from a JSON tree,
//! and the law that reading back what was laid out returns it unchanged.

use crate::hypr::Client;
use crate::hypr::ClientV;
use crate::hypr::ClientWorkspace;
use crate::hypr::ClientWorkspaceV;
use crate::hypr::client_views;
use crate::hypr::Workspace;
use crate::hypr::WorkspaceV;
use crate::hypr::ws_views;
use crate::json::Json;
use crate::json::JsonV;
use vstd::prelude::*;

verus! {

/// The wire object of one workspace: `monitor_id` travels as `monitorID`.
pub open spec fn ws_to_json(w: WorkspaceV) -> JsonV {
    JsonV::Obj(
        seq![
            ("id"@, JsonV::Int { neg: false, mag: w.id }),
            ("name"@, JsonV::Str(w.name)),
            ("monitorID"@, JsonV::Int { neg: false, mag: w.monitor_id }),
            ("windows"@, JsonV::Int { neg: false, mag: w.windows }),
        ],
    )
}

/// The wire array of a workspace list.
pub open spec fn ws_list_to_json(l: Seq<WorkspaceV>) -> JsonV {
    JsonV::Arr(l.map_values(|w: WorkspaceV| ws_to_json(w)))
}

/// The first value stored under `key` from index `i` on, if any; members
/// the reader does not know are passed over.
pub open spec fn obj_lookup(fields: Seq<(Seq<char>, JsonV)>, key: Seq<char>, i: int) -> Option<
    JsonV,
>
    decreases fields.len() - i,
{
    if i < 0 || i >= fields.len() {
        None
    } else if fields[i].0 == key {
        Some(fields[i].1)
    } else {
        obj_lookup(fields, key, i + 1)
    }
}

/// How often `key` occurs among the members from index `i` on. A known
/// key that occurs more than once makes a record unreadable; unknown keys
/// may repeat freely.
pub open spec fn key_count(fields: Seq<(Seq<char>, JsonV)>, key: Seq<char>, i: int) -> int
    decreases fields.len() - i,
{
    if i < 0 || i >= fields.len() {
        0
    } else {
        (if fields[i].0 == key {
            1int
        } else {
            0int
        }) + key_count(fields, key, i + 1)
    }
}

/// The value of a tree read as an unsigned 32-bit integer: an unsigned
/// integer literal whose magnitude fits; a minus sign, even on zero, is
/// rejected.
pub open spec fn json_u32(v: JsonV) -> Option<int> {
    match v {
        JsonV::Int { neg, mag } => if !neg && 0 <= mag <= u32::MAX {
            Some(mag)
        } else {
            None
        },
        _ => None,
    }
}

/// The value of a tree read as a string.
pub open spec fn json_str(v: JsonV) -> Option<Seq<char>> {
    match v {
        JsonV::Str(s) => Some(s),
        _ => None,
    }
}

/// One workspace read back from a JSON tree: an object with at least the
/// four known members, each of the right kind; anything else fails.
pub open spec fn json_to_ws(v: JsonV) -> Option<WorkspaceV> {
    match v {
        JsonV::Obj(fields) => {
            if key_count(fields, "id"@, 0) > 1 || key_count(fields, "name"@, 0) > 1 || key_count(
                fields,
                "monitorID"@,
                0,
            ) > 1 || key_count(fields, "windows"@, 0) > 1 {
                None
            } else {
                match (
                    obj_lookup(fields, "id"@, 0),
                    obj_lookup(fields, "name"@, 0),
                    obj_lookup(fields, "monitorID"@, 0),
                    obj_lookup(fields, "windows"@, 0),
                ) {
                    (Some(idv), Some(namev), Some(monv), Some(winv)) => {
                        match (json_u32(idv), json_str(namev), json_u32(monv), json_u32(winv)) {
                            (Some(id), Some(name), Some(monitor_id), Some(windows)) => Some(
                                WorkspaceV { id, name, monitor_id, windows },
                            ),
                            _ => None,
                        }
                    },
                    _ => None,
                }
            }
        },
        _ => None,
    }
}

/// The workspaces read back from the items from index `i` on; one bad item
/// fails the whole list.
pub open spec fn json_to_ws_items(items: Seq<JsonV>, i: int) -> Option<Seq<WorkspaceV>>
    decreases items.len() - i,
{
    if i < 0 || i > items.len() {
        None
    } else if i == items.len() {
        Some(Seq::empty())
    } else {
        match (json_to_ws(items[i]), json_to_ws_items(items, i + 1)) {
            (Some(w), Some(rest)) => Some(seq![w] + rest),
            _ => None,
        }
    }
}

/// A workspace list read back from a JSON tree: an array of workspace
/// objects.
pub open spec fn json_to_ws_list(v: JsonV) -> Option<Seq<WorkspaceV>> {
    match v {
        JsonV::Arr(items) => json_to_ws_items(items, 0),
        _ => None,
    }
}

/// The workspace identity inside a client, read back.
pub open spec fn json_to_cw(v: JsonV) -> Option<ClientWorkspaceV> {
    match v {
        JsonV::Obj(fields) => {
            if key_count(fields, "id"@, 0) > 1 || key_count(fields, "name"@, 0) > 1 {
                None
            } else {
                match (obj_lookup(fields, "id"@, 0), obj_lookup(fields, "name"@, 0)) {
                    (Some(idv), Some(namev)) => {
                        match (json_u32(idv), json_str(namev)) {
                            (Some(id), Some(name)) => Some(ClientWorkspaceV { id, name }),
                            _ => None,
                        }
                    },
                    _ => None,
                }
            }
        },
        _ => None,
    }
}

/// One client read back from a JSON tree: `focus_id` travels as
/// `focusHistoryID`.
pub open spec fn json_to_client(v: JsonV) -> Option<ClientV> {
    match v {
        JsonV::Obj(fields) => {
            if key_count(fields, "class"@, 0) > 1 || key_count(fields, "title"@, 0) > 1
                || key_count(fields, "workspace"@, 0) > 1 || key_count(fields, "address"@, 0) > 1
                || key_count(fields, "focusHistoryID"@, 0) > 1 {
                None
            } else {
                match (
                    obj_lookup(fields, "class"@, 0),
                    obj_lookup(fields, "title"@, 0),
                    obj_lookup(fields, "workspace"@, 0),
                    obj_lookup(fields, "address"@, 0),
                    obj_lookup(fields, "focusHistoryID"@, 0),
                ) {
                    (Some(classv), Some(titlev), Some(wsv), Some(addrv), Some(focusv)) => {
                        match (
                            json_str(classv),
                            json_str(titlev),
                            json_to_cw(wsv),
                            json_str(addrv),
                            json_u32(focusv),
                        ) {
                            (Some(class), Some(title), Some(workspace), Some(address), Some(
                                focus_id,
                            )) => Some(ClientV { class, title, workspace, address, focus_id }),
                            _ => None,
                        }
                    },
                    _ => None,
                }
            }
        },
        _ => None,
    }
}

/// The clients read back from the items from index `i` on.
pub open spec fn json_to_client_items(items: Seq<JsonV>, i: int) -> Option<Seq<ClientV>>
    decreases items.len() - i,
{
    if i < 0 || i > items.len() {
        None
    } else if i == items.len() {
        Some(Seq::empty())
    } else {
        match (json_to_client(items[i]), json_to_client_items(items, i + 1)) {
            (Some(c), Some(rest)) => Some(seq![c] + rest),
            _ => None,
        }
    }
}

/// A client list read back from a JSON tree.
pub open spec fn json_to_client_list(v: JsonV) -> Option<Seq<ClientV>> {
    match v {
        JsonV::Arr(items) => json_to_client_items(items, 0),
        _ => None,
    }
}

/// Whether a workspace shadow fits the machine record: every numeric field
/// inside 32 unsigned bits. The shadow of any real record does.
pub open spec fn ws_v_wf(w: WorkspaceV) -> bool {
    &&& 0 <= w.id <= u32::MAX
    &&& 0 <= w.monitor_id <= u32::MAX
    &&& 0 <= w.windows <= u32::MAX
}

/// Reading back one laid-out workspace returns it unchanged.
pub proof fn lemma_ws_roundtrip(w: WorkspaceV)
    requires
        ws_v_wf(w),
    ensures
        json_to_ws(ws_to_json(w)) == Some(w),
{
    reveal_strlit("id");
    reveal_strlit("name");
    reveal_strlit("monitorID");
    reveal_strlit("windows");
    let fields = seq![
        ("id"@, JsonV::Int { neg: false, mag: w.id }),
        ("name"@, JsonV::Str(w.name)),
        ("monitorID"@, JsonV::Int { neg: false, mag: w.monitor_id }),
        ("windows"@, JsonV::Int { neg: false, mag: w.windows }),
    ];
    assert("id"@.len() == 2 && "name"@.len() == 4 && "monitorID"@.len() == 9 && "windows"@.len()
        == 7);
    assert(key_count(fields, "id"@, 4) == 0 && key_count(fields, "name"@, 4) == 0 && key_count(
        fields,
        "monitorID"@,
        4,
    ) == 0 && key_count(fields, "windows"@, 4) == 0);
    assert(key_count(fields, "id"@, 3) == 0 && key_count(fields, "name"@, 3) == 0 && key_count(
        fields,
        "monitorID"@,
        3,
    ) == 0 && key_count(fields, "windows"@, 3) == 1);
    assert(key_count(fields, "id"@, 2) == 0 && key_count(fields, "name"@, 2) == 0 && key_count(
        fields,
        "monitorID"@,
        2,
    ) == 1 && key_count(fields, "windows"@, 2) == 1);
    assert(key_count(fields, "id"@, 1) == 0 && key_count(fields, "name"@, 1) == 1 && key_count(
        fields,
        "monitorID"@,
        1,
    ) == 1 && key_count(fields, "windows"@, 1) == 1);
    assert(key_count(fields, "id"@, 0) == 1 && key_count(fields, "name"@, 0) == 1 && key_count(
        fields,
        "monitorID"@,
        0,
    ) == 1 && key_count(fields, "windows"@, 0) == 1);
    assert(obj_lookup(fields, "id"@, 0) == Some(JsonV::Int { neg: false, mag: w.id }));
    assert(obj_lookup(fields, "name"@, 0) == obj_lookup(fields, "name"@, 1));
    assert(obj_lookup(fields, "name"@, 1) == Some(JsonV::Str(w.name)));
    assert(obj_lookup(fields, "monitorID"@, 0) == obj_lookup(fields, "monitorID"@, 1));
    assert(obj_lookup(fields, "monitorID"@, 1) == obj_lookup(fields, "monitorID"@, 2));
    assert(obj_lookup(fields, "monitorID"@, 2) == Some(
        JsonV::Int { neg: false, mag: w.monitor_id },
    ));
    assert(obj_lookup(fields, "windows"@, 0) == obj_lookup(fields, "windows"@, 1));
    assert(obj_lookup(fields, "windows"@, 1) == obj_lookup(fields, "windows"@, 2));
    assert(obj_lookup(fields, "windows"@, 2) == obj_lookup(fields, "windows"@, 3));
    assert(obj_lookup(fields, "windows"@, 3) == Some(
        JsonV::Int { neg: false, mag: w.windows },
    ));
}

/// Reading back the items of a laid-out workspace list, from `i` on,
/// returns exactly the remaining workspaces.
proof fn lemma_ws_items_roundtrip(l: Seq<WorkspaceV>, i: int)
    requires
        0 <= i <= l.len(),
        forall|k: int| 0 <= k < l.len() ==> ws_v_wf(#[trigger] l[k]),
    ensures
        json_to_ws_items(l.map_values(|w: WorkspaceV| ws_to_json(w)), i) == Some(
            l.subrange(i, l.len() as int),
        ),
    decreases l.len() - i,
{
    let items = l.map_values(|w: WorkspaceV| ws_to_json(w));
    if i == l.len() {
        assert(l.subrange(i, l.len() as int) =~= Seq::<WorkspaceV>::empty());
    } else {
        lemma_ws_roundtrip(l[i]);
        lemma_ws_items_roundtrip(l, i + 1);
        assert(seq![l[i]] + l.subrange(i + 1, l.len() as int) =~= l.subrange(i, l.len() as int));
    }
}

/// The round-trip law: laying a workspace list out in the wire shape and
/// reading it back yields the same records, field for field, the
/// `monitorID` spelling included.
pub proof fn lemma_workspaces_roundtrip(ws: Seq<Workspace>)
    ensures
        json_to_ws_list(ws_list_to_json(ws_views(ws))) == Some(ws_views(ws)),
{
    let l = ws_views(ws);
    assert(forall|k: int| 0 <= k < l.len() ==> ws_v_wf(#[trigger] l[k]));
    lemma_ws_items_roundtrip(l, 0);
    assert(l.subrange(0, l.len() as int) =~= l);
}


/// What a query reply's text decodes to as a workspace list, before
/// sorting: nothing at all when the text is not JSON or not that shape.
pub open spec fn spec_decoded_workspaces(s: Seq<char>) -> Option<Seq<WorkspaceV>> {
    match crate::json::spec_parse_json(s) {
        Some(v) => json_to_ws_list(v),
        None => None,
    }
}

/// What a query reply's text decodes to as a client list, before sorting.
pub open spec fn spec_decoded_clients(s: Seq<char>) -> Option<Seq<ClientV>> {
    match crate::json::spec_parse_json(s) {
        Some(v) => json_to_client_list(v),
        None => None,
    }
}

/// The first member stored under `key` from index `i` on, if any.
fn find_field<'a>(fields: &'a Vec<(String, Json)>, key: &String, i: usize) -> (r: Option<
    &'a Json,
>)
    requires
        i <= fields@.len(),
    ensures
        match r {
            Some(j) => obj_lookup(
                crate::json::json_view_fields(fields@, 0),
                key@,
                i as int,
            ) == Some(j@),
            None => obj_lookup(crate::json::json_view_fields(fields@, 0), key@, i as int)
                is None,
        },
    decreases fields@.len() - i,
{
    proof {
        crate::json::lemma_view_fields_index(fields@, 0);
    }
    if i >= fields.len() {
        None
    } else if fields[i].0 == *key {
        Some(&fields[i].1)
    } else {
        find_field(fields, key, i + 1)
    }
}

/// How often `key` occurs among the members from index `i` on.
fn count_field(fields: &Vec<(String, Json)>, key: &String, i: usize) -> (r: usize)
    requires
        i <= fields@.len(),
    ensures
        r as int == key_count(crate::json::json_view_fields(fields@, 0), key@, i as int),
        r <= fields@.len() - i,
    decreases fields@.len() - i,
{
    proof {
        crate::json::lemma_view_fields_index(fields@, 0);
    }
    if i >= fields.len() {
        0
    } else {
        let here: usize = if fields[i].0 == *key {
            1
        } else {
            0
        };
        here + count_field(fields, key, i + 1)
    }
}

/// Reads a tree as an unsigned 32-bit integer, as `json_u32` says.
fn decode_u32(v: &Json) -> (r: Option<u32>)
    ensures
        match json_u32(v@) {
            Some(x) => r == Some(x as u32),
            None => r is None,
        },
{
    match v {
        Json::Int { neg, mag } => {
            if !*neg && *mag <= 0xFFFF_FFFFu64 {
                Some(*mag as u32)
            } else {
                None
            }
        },
        _ => None,
    }
}

/// Reads a tree as a string, as `json_str` says.
fn decode_str(v: &Json) -> (r: Option<String>)
    ensures
        match json_str(v@) {
            Some(x) => r matches Some(rs) && rs@ == x,
            None => r is None,
        },
{
    match v {
        Json::Str(s) => Some(s.clone()),
        _ => None,
    }
}

/// Reads one workspace record back from a tree, as `json_to_ws` says.
pub fn decode_workspace(v: &Json) -> (r: Option<Workspace>)
    ensures
        match json_to_ws(v@) {
            Some(w) => r matches Some(rw) && rw@ == w,
            None => r is None,
        },
{
    match v {
        Json::Obj(fields) => {
            let key_id = String::from_str("id");
            let key_name = String::from_str("name");
            let key_mon = String::from_str("monitorID");
            let key_win = String::from_str("windows");
            if count_field(fields, &key_id, 0) > 1 || count_field(fields, &key_name, 0) > 1
                || count_field(fields, &key_mon, 0) > 1 || count_field(fields, &key_win, 0) > 1 {
                return None;
            }
            let idv = match find_field(fields, &key_id, 0) {
                Some(x) => x,
                None => {
                    return None;
                },
            };
            let namev = match find_field(fields, &key_name, 0) {
                Some(x) => x,
                None => {
                    return None;
                },
            };
            let monv = match find_field(fields, &key_mon, 0) {
                Some(x) => x,
                None => {
                    return None;
                },
            };
            let winv = match find_field(fields, &key_win, 0) {
                Some(x) => x,
                None => {
                    return None;
                },
            };
            let id = match decode_u32(idv) {
                Some(x) => x,
                None => {
                    return None;
                },
            };
            let name = match decode_str(namev) {
                Some(x) => x,
                None => {
                    return None;
                },
            };
            let monitor_id = match decode_u32(monv) {
                Some(x) => x,
                None => {
                    return None;
                },
            };
            let windows = match decode_u32(winv) {
                Some(x) => x,
                None => {
                    return None;
                },
            };
            Some(Workspace { id, name, monitor_id, windows })
        },
        _ => None,
    }
}

/// Reads the embedded workspace identity back from a tree.
fn decode_client_workspace(v: &Json) -> (r: Option<ClientWorkspace>)
    ensures
        match json_to_cw(v@) {
            Some(w) => r matches Some(rw) && rw@ == w,
            None => r is None,
        },
{
    match v {
        Json::Obj(fields) => {
            let key_id = String::from_str("id");
            let key_name = String::from_str("name");
            if count_field(fields, &key_id, 0) > 1 || count_field(fields, &key_name, 0) > 1 {
                return None;
            }
            let idv = match find_field(fields, &key_id, 0) {
                Some(x) => x,
                None => {
                    return None;
                },
            };
            let namev = match find_field(fields, &key_name, 0) {
                Some(x) => x,
                None => {
                    return None;
                },
            };
            let id = match decode_u32(idv) {
                Some(x) => x,
                None => {
                    return None;
                },
            };
            let name = match decode_str(namev) {
                Some(x) => x,
                None => {
                    return None;
                },
            };
            Some(ClientWorkspace { id, name })
        },
        _ => None,
    }
}

/// Reads one client record back from a tree, as `json_to_client` says.
pub fn decode_client(v: &Json) -> (r: Option<Client>)
    ensures
        match json_to_client(v@) {
            Some(c) => r matches Some(rc) && rc@ == c,
            None => r is None,
        },
{
    match v {
        Json::Obj(fields) => {
            let key_class = String::from_str("class");
            let key_title = String::from_str("title");
            let key_ws = String::from_str("workspace");
            let key_addr = String::from_str("address");
            let key_focus = String::from_str("focusHistoryID");
            if count_field(fields, &key_class, 0) > 1 || count_field(fields, &key_title, 0) > 1
                || count_field(fields, &key_ws, 0) > 1 || count_field(fields, &key_addr, 0) > 1
                || count_field(fields, &key_focus, 0) > 1 {
                return None;
            }
            let classv = match find_field(fields, &key_class, 0) {
                Some(x) => x,
                None => {
                    return None;
                },
            };
            let titlev = match find_field(fields, &key_title, 0) {
                Some(x) => x,
                None => {
                    return None;
                },
            };
            let wsv = match find_field(fields, &key_ws, 0) {
                Some(x) => x,
                None => {
                    return None;
                },
            };
            let addrv = match find_field(fields, &key_addr, 0) {
                Some(x) => x,
                None => {
                    return None;
                },
            };
            let focusv = match find_field(fields, &key_focus, 0) {
                Some(x) => x,
                None => {
                    return None;
                },
            };
            let class = match decode_str(classv) {
                Some(x) => x,
                None => {
                    return None;
                },
            };
            let title = match decode_str(titlev) {
                Some(x) => x,
                None => {
                    return None;
                },
            };
            let workspace = match decode_client_workspace(wsv) {
                Some(x) => x,
                None => {
                    return None;
                },
            };
            let address = match decode_str(addrv) {
                Some(x) => x,
                None => {
                    return None;
                },
            };
            let focus_id = match decode_u32(focusv) {
                Some(x) => x,
                None => {
                    return None;
                },
            };
            Some(Client { class, title, workspace, address, focus_id })
        },
        _ => None,
    }
}

/// Prepending a workspace prepends its shadow.
proof fn lemma_ws_views_cons(s: Seq<Workspace>, w: Workspace)
    ensures
        ws_views(s.insert(0, w)) =~= seq![w@] + ws_views(s),
{
    assert forall|k: int| 0 <= k < s.len() + 1 implies ws_views(s.insert(0, w))[k] == (seq![w@]
        + ws_views(s))[k] by {
        if k > 0 {
            assert(s.insert(0, w)[k] == s[k - 1]);
        }
    }
}

/// Prepending a client prepends its shadow.
proof fn lemma_client_views_cons(s: Seq<Client>, c: Client)
    ensures
        client_views(s.insert(0, c)) =~= seq![c@] + client_views(s),
{
    assert forall|k: int| 0 <= k < s.len() + 1 implies client_views(s.insert(0, c))[k] == (
    seq![c@] + client_views(s))[k] by {
        if k > 0 {
            assert(s.insert(0, c)[k] == s[k - 1]);
        }
    }
}

/// Reads the workspaces out of the items from index `i` on, as
/// `json_to_ws_items` says.
fn decode_ws_items(items: &Vec<Json>, i: usize) -> (r: Option<Vec<Workspace>>)
    requires
        i <= items@.len(),
    ensures
        match json_to_ws_items(crate::json::json_view_seq(items@, 0), i as int) {
            Some(l) => r matches Some(ws) && ws_views(ws@) == l,
            None => r is None,
        },
    decreases items@.len() - i,
{
    proof {
        crate::json::lemma_view_seq_index(items@, 0);
    }
    if i == items.len() {
        let empty: Vec<Workspace> = Vec::new();
        proof {
            assert(ws_views(empty@) =~= Seq::<WorkspaceV>::empty());
        }
        Some(empty)
    } else {
        let w = match decode_workspace(&items[i]) {
            Some(x) => x,
            None => {
                return None;
            },
        };
        let rest = match decode_ws_items(items, i + 1) {
            Some(x) => x,
            None => {
                return None;
            },
        };
        let mut rest = rest;
        let ghost prev = rest@;
        let ghost wv = w@;
        rest.insert(0, w);
        proof {
            lemma_ws_views_cons(prev, rest@[0]);
            assert(seq![wv] + ws_views(prev) =~= ws_views(rest@));
        }
        Some(rest)
    }
}

/// Reads the clients out of the items from index `i` on, as
/// `json_to_client_items` says.
fn decode_client_items(items: &Vec<Json>, i: usize) -> (r: Option<Vec<Client>>)
    requires
        i <= items@.len(),
    ensures
        match json_to_client_items(crate::json::json_view_seq(items@, 0), i as int) {
            Some(l) => r matches Some(cs) && client_views(cs@) == l,
            None => r is None,
        },
    decreases items@.len() - i,
{
    proof {
        crate::json::lemma_view_seq_index(items@, 0);
    }
    if i == items.len() {
        let empty: Vec<Client> = Vec::new();
        proof {
            assert(client_views(empty@) =~= Seq::<ClientV>::empty());
        }
        Some(empty)
    } else {
        let c = match decode_client(&items[i]) {
            Some(x) => x,
            None => {
                return None;
            },
        };
        let rest = match decode_client_items(items, i + 1) {
            Some(x) => x,
            None => {
                return None;
            },
        };
        let mut rest = rest;
        let ghost prev = rest@;
        let ghost cv = c@;
        rest.insert(0, c);
        proof {
            lemma_client_views_cons(prev, rest@[0]);
            assert(seq![cv] + client_views(prev) =~= client_views(rest@));
        }
        Some(rest)
    }
}

/// Reads a whole workspace list back from a tree, as `json_to_ws_list`
/// says.
pub fn decode_workspaces(v: &Json) -> (r: Option<Vec<Workspace>>)
    ensures
        match json_to_ws_list(v@) {
            Some(l) => r matches Some(ws) && ws_views(ws@) == l,
            None => r is None,
        },
{
    match v {
        Json::Arr(items) => decode_ws_items(items, 0),
        _ => None,
    }
}

/// Reads a whole client list back from a tree, as `json_to_client_list`
/// says.
pub fn decode_clients(v: &Json) -> (r: Option<Vec<Client>>)
    ensures
        match json_to_client_list(v@) {
            Some(l) => r matches Some(cs) && client_views(cs@) == l,
            None => r is None,
        },
{
    match v {
        Json::Arr(items) => decode_client_items(items, 0),
        _ => None,
    }
}

/// Lays one workspace record out in its wire shape.
pub fn encode_workspace(w: &Workspace) -> (r: Json)
    ensures
        r@ == ws_to_json(w@),
{
    let mut fields: Vec<(String, Json)> = Vec::new();
    fields.push((String::from_str("id"), Json::Int { neg: false, mag: w.id as u64 }));
    fields.push((String::from_str("name"), Json::Str(w.name.clone())));
    fields.push(
        (String::from_str("monitorID"), Json::Int { neg: false, mag: w.monitor_id as u64 }),
    );
    fields.push((String::from_str("windows"), Json::Int { neg: false, mag: w.windows as u64 }));
    proof {
        crate::json::lemma_view_fields_index(fields@, 0);
        assert(crate::json::json_view_fields(fields@, 0) =~= seq![
            ("id"@, JsonV::Int { neg: false, mag: w.id as int }),
            ("name"@, JsonV::Str(w.name@)),
            ("monitorID"@, JsonV::Int { neg: false, mag: w.monitor_id as int }),
            ("windows"@, JsonV::Int { neg: false, mag: w.windows as int }),
        ]);
    }
    Json::Obj(fields)
}

/// Lays a workspace list out as a wire array.
pub fn encode_workspaces(ws: &Vec<Workspace>) -> (r: Json)
    ensures
        r@ == ws_list_to_json(ws_views(ws@)),
{
    let mut items: Vec<Json> = Vec::new();
    let mut k: usize = 0;
    while k < ws.len()
        invariant
            k <= ws@.len(),
            items@.len() == k,
            forall|t: int|
                0 <= t < k as int ==> crate::json::json_view(#[trigger] items@[t]) == ws_to_json(
                    ws@[t]@,
                ),
        decreases ws@.len() - k,
    {
        items.push(encode_workspace(&ws[k]));
        k = k + 1;
    }
    proof {
        crate::json::lemma_view_seq_index(items@, 0);
        assert(crate::json::json_view_seq(items@, 0) =~= ws_views(ws@).map_values(
            |w: WorkspaceV| ws_to_json(w),
        ));
    }
    Json::Arr(items)
}

/// The reply text a workspace list would travel as: the wire array,
/// printed.
pub fn workspaces_to_json_text(ws: &Vec<Workspace>) -> (r: String)
    ensures
        r@ == crate::json::spec_print(ws_list_to_json(ws_views(ws@))),
{
    let tree = encode_workspaces(ws);
    crate::json::print_json(&tree)
}

/// A single workspace's wire object is printable.
proof fn lemma_ws_to_json_printable(w: WorkspaceV)
    requires
        ws_v_wf(w),
    ensures
        crate::json::inverse::printable(ws_to_json(w)),
{
    let fields = seq![
        ("id"@, JsonV::Int { neg: false, mag: w.id }),
        ("name"@, JsonV::Str(w.name)),
        ("monitorID"@, JsonV::Int { neg: false, mag: w.monitor_id }),
        ("windows"@, JsonV::Int { neg: false, mag: w.windows }),
    ];
    assert(fields[0].1 == JsonV::Int { neg: false, mag: w.id });
    assert(fields[1].1 == JsonV::Str(w.name));
    assert(fields[2].1 == JsonV::Int { neg: false, mag: w.monitor_id });
    assert(fields[3].1 == JsonV::Int { neg: false, mag: w.windows });
    assert(crate::json::inverse::printable(fields[0].1));
    assert(crate::json::inverse::printable(fields[1].1));
    assert(crate::json::inverse::printable(fields[2].1));
    assert(crate::json::inverse::printable(fields[3].1));
    assert(crate::json::inverse::printable_obj(fields, 4));
    assert(crate::json::inverse::printable_obj(fields, 3));
    assert(crate::json::inverse::printable_obj(fields, 2));
    assert(crate::json::inverse::printable_obj(fields, 1));
    assert(crate::json::inverse::printable_obj(fields, 0));
}

/// An array of printable items is printable from any index on.
proof fn lemma_printable_arr_all(items: Seq<JsonV>, i: int)
    requires
        0 <= i <= items.len(),
        forall|k: int| i <= k < items.len() ==> crate::json::inverse::printable(
            #[trigger] items[k],
        ),
    ensures
        crate::json::inverse::printable_arr(items, i),
    decreases items.len() - i,
{
    if i < items.len() {
        lemma_printable_arr_all(items, i + 1);
    }
}

/// The round-trip law at the level of the wire text itself: printing a
/// workspace list's wire array and decoding that text returns the same
/// records, field for field, the `monitorID` spelling included.
pub proof fn lemma_workspaces_text_roundtrip(ws: Seq<Workspace>)
    ensures
        spec_decoded_workspaces(crate::json::spec_print(ws_list_to_json(ws_views(ws)))) == Some(
            ws_views(ws),
        ),
{
    let l = ws_views(ws);
    let items = l.map_values(|w: WorkspaceV| ws_to_json(w));
    assert forall|k: int| 0 <= k < items.len() implies crate::json::inverse::printable(
        #[trigger] items[k],
    ) by {
        assert(ws_v_wf(l[k]));
        lemma_ws_to_json_printable(l[k]);
    }
    lemma_printable_arr_all(items, 0);
    crate::json::inverse::lemma_print_parse_roundtrip(ws_list_to_json(l));
    lemma_workspaces_roundtrip(ws);
}
} // verus!
