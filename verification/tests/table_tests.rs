use hyprnav::app::client_table::ClientTable;
use hyprnav::app::workspace_table::WorkspaceTable;
use hyprnav::hypr::Client;
use hyprnav::hypr::ClientWorkspace;
use hyprnav::hypr::Workspace;

fn ws(id: u32, name: &str) -> Workspace {
    Workspace {
        id,
        name: name.to_string(),
        monitor_id: 0,
        windows: 1,
    }
}

fn client(class: &str, ws_id: u32, addr: &str) -> Client {
    Client {
        class: class.to_string(),
        title: format!("{} window", class),
        workspace: ClientWorkspace {
            id: ws_id,
            name: format!("ws{}", ws_id),
        },
        address: addr.to_string(),
        focus_id: 0,
    }
}

#[test]
fn move_up_is_idempotent_at_start() {
    let mut t = WorkspaceTable::new(vec![ws(1, "one"), ws(2, "two"), ws(3, "three")]);
    assert_eq!(t.selected, Some(0));
    t.move_up();
    assert_eq!(t.selected, Some(0));
    t.move_up();
    t.move_up();
    assert_eq!(t.selected, Some(0));
}

#[test]
fn move_down_reaches_last_and_clamps() {
    let n = 4;
    let items: Vec<Workspace> = (0..n).map(|i| ws(i as u32 + 1, "w")).collect();
    let mut t = WorkspaceTable::new(items);
    for _ in 0..(n - 1) {
        t.move_down();
    }
    assert_eq!(t.selected, Some(n - 1));
    t.move_down();
    t.move_down();
    assert_eq!(t.selected, Some(n - 1));
}

#[test]
fn client_table_moves_clamp_both_ends() {
    let mut t = ClientTable::new(vec![
        client("term", 1, "0xa"),
        client("browser", 2, "0xb"),
    ]);
    assert_eq!(t.selected, Some(0));
    t.move_up();
    assert_eq!(t.selected, Some(0));
    t.move_down();
    assert_eq!(t.selected, Some(1));
    t.move_down();
    assert_eq!(t.selected, Some(1));
}

#[test]
fn empty_tables_have_no_selection_and_never_panic() {
    let mut wt = WorkspaceTable::new(Vec::new());
    assert_eq!(wt.selected, None);
    wt.move_up();
    wt.move_down();
    assert_eq!(wt.selected, None);
    assert_eq!(wt.selected_workspace(), None);
    assert!(wt.selected().is_none());

    let mut ct = ClientTable::new(Vec::new());
    assert_eq!(ct.selected, None);
    ct.move_up();
    ct.move_down();
    assert_eq!(ct.selected, None);
    assert_eq!(ct.selected_workspace(), (None, None));
    assert_eq!(ct.selected_client(), None);
    assert!(ct.selected().is_none());
}

#[test]
fn selected_workspace_reports_id_and_address() {
    let mut t = ClientTable::new(vec![
        client("term", 1, "0xa"),
        client("browser", 7, "0xb"),
    ]);
    t.move_down();
    let (id, addr) = t.selected_workspace();
    assert_eq!(id, Some(7));
    assert_eq!(addr, Some("0xb".to_string()));
    assert_eq!(t.selected_client(), Some("0xb".to_string()));
    assert_eq!(t.selected().unwrap().class, "browser");
}

#[test]
fn workspace_table_reports_selected_id() {
    let mut t = WorkspaceTable::new(vec![ws(3, "three"), ws(9, "nine")]);
    assert_eq!(t.selected_workspace(), Some(3));
    t.move_down();
    assert_eq!(t.selected_workspace(), Some(9));
    assert_eq!(t.selected().unwrap().name, "nine");
}
