use hyprnav::app::App;
use hyprnav::app::Effect;
use hyprnav::hypr::Client;
use hyprnav::hypr::ClientWorkspace;
use hyprnav::hypr::Hypr;
use hyprnav::hypr::Workspace;
use hyprnav::screen::help_screen::HelpScreen;
use hyprnav::screen::send_workspace_screen::SendWorkspaceScreen;
use hyprnav::screen::table_screen::SelectedTable;
use hyprnav::screen::Key;
use hyprnav::screen::Screen;
use hyprnav::screen::ScreenEvent;

fn ws(id: u32, name: &str) -> Workspace {
    Workspace {
        id,
        name: name.to_string(),
        monitor_id: 0,
        windows: 0,
    }
}

fn client(ws_id: u32, addr: &str) -> Client {
    Client {
        class: "term".to_string(),
        title: "shell".to_string(),
        workspace: ClientWorkspace {
            id: ws_id,
            name: format!("ws{}", ws_id),
        },
        address: addr.to_string(),
        focus_id: 0,
    }
}

fn snapshot() -> Hypr {
    Hypr {
        workspaces: vec![ws(1, "one"), ws(2, "two")],
        clients: vec![client(2, "0xfeed")],
    }
}

#[test]
fn toggle_then_enter_switches_and_closes_on_success() {
    // Fresh snapshot, root screen starting on the client table.
    let mut app = App::new(snapshot());
    assert!(!app.exit);
    assert_eq!(app.screens.len(), 1);
    match app.screens.last() {
        Some(Screen::Table(t)) => assert_eq!(t.current_table, SelectedTable::Clients),
        _ => panic!("the root screen must be the table screen"),
    }

    // The toggle key moves focus to the workspace table.
    assert!(app.handle_key_event(Key::Tab).is_none());
    match app.screens.last() {
        Some(Screen::Table(t)) => assert_eq!(t.current_table, SelectedTable::Workspaces),
        _ => panic!("the root screen must still be on top"),
    }

    // Activation with workspace 1 selected asks for exactly that switch.
    match app.handle_key_event(Key::Enter) {
        Some(Effect::Dispatch(cmds)) => {
            assert_eq!(cmds, vec!["dispatch workspace 1".to_string()]);
        }
        _ => panic!("expected a dispatch"),
    }
    assert!(!app.exit);

    // A successful send ends the session.
    app.handle_screen_event(ScreenEvent::Close);
    assert!(app.exit);
}

#[test]
fn enter_on_client_table_also_refocuses_the_client() {
    let mut app = App::new(snapshot());
    match app.handle_key_event(Key::Enter) {
        Some(Effect::Dispatch(cmds)) => {
            assert_eq!(
                cmds,
                vec![
                    "dispatch workspace 2".to_string(),
                    "dispatch focuswindow address:0xfeed".to_string(),
                ]
            );
        }
        _ => panic!("expected a dispatch"),
    }
}

#[test]
fn send_screen_opens_scoped_to_the_selected_client_and_escape_returns() {
    let mut app = App::new(snapshot());

    // Opening send-to-workspace names the selected client's handle; the
    // I/O layer then fetches a snapshot and pushes the screen.
    let addr = match app.handle_key_event(Key::Char('s')) {
        Some(Effect::OpenSendWorkspace(addr)) => addr,
        _ => panic!("expected a request to open the send screen"),
    };
    assert_eq!(addr, "0xfeed");
    let send = SendWorkspaceScreen::new(addr, snapshot().workspaces);
    app.handle_screen_event(ScreenEvent::AddScreen(Screen::SendWorkspace(send)));
    assert_eq!(app.screens.len(), 2);

    // Escape pops back to the root without any command having been issued.
    assert!(app.handle_key_event(Key::Esc).is_none());
    assert_eq!(app.screens.len(), 1);
    assert!(!app.exit);
    match app.screens.last() {
        Some(Screen::Table(_)) => {}
        _ => panic!("the root screen must be exposed again"),
    }
}

#[test]
fn send_screen_digit_asks_for_a_move_command() {
    let mut app = App::new(snapshot());
    let send = SendWorkspaceScreen::new("0xfeed".to_string(), snapshot().workspaces);
    app.handle_screen_event(ScreenEvent::AddScreen(Screen::SendWorkspace(send)));
    match app.handle_key_event(Key::Char('5')) {
        Some(Effect::Dispatch(cmds)) => {
            assert_eq!(
                cmds,
                vec!["dispatch movetoworkspacesilent 5,address:0xfeed".to_string()]
            );
        }
        _ => panic!("expected a dispatch"),
    }
    // Activation on the selected workspace (the first one) does the same.
    match app.handle_key_event(Key::Enter) {
        Some(Effect::Dispatch(cmds)) => {
            assert_eq!(
                cmds,
                vec!["dispatch movetoworkspacesilent 1,address:0xfeed".to_string()]
            );
        }
        _ => panic!("expected a dispatch"),
    }
}

#[test]
fn stack_stays_alive_until_a_pop_from_depth_one() {
    let mut app = App::new(snapshot());
    // Any mix of pushes and pops above depth one keeps a screen visible.
    app.handle_screen_event(ScreenEvent::AddScreen(Screen::Help(HelpScreen::new())));
    app.handle_screen_event(ScreenEvent::AddScreen(Screen::Help(HelpScreen::new())));
    assert_eq!(app.screens.len(), 3);
    app.handle_screen_event(ScreenEvent::PopScreen);
    assert_eq!(app.screens.len(), 2);
    assert!(!app.exit);
    app.handle_screen_event(ScreenEvent::PopScreen);
    assert_eq!(app.screens.len(), 1);
    assert!(!app.exit);
    // The pop from depth one empties the stack and terminates.
    app.handle_screen_event(ScreenEvent::PopScreen);
    assert_eq!(app.screens.len(), 0);
    assert!(app.exit);
}

#[test]
fn help_opens_from_both_screens_and_its_key_dismisses_it() {
    let mut app = App::new(snapshot());
    assert!(app.handle_key_event(Key::Char('?')).is_none());
    assert_eq!(app.screens.len(), 2);
    match app.screens.last() {
        Some(Screen::Help(_)) => {}
        _ => panic!("help must be on top"),
    }
    // While help is up, navigation keys are unrecognized and change nothing.
    assert!(app.handle_key_event(Key::Down).is_none());
    assert_eq!(app.screens.len(), 2);
    assert!(app.handle_key_event(Key::Char('?')).is_none());
    assert_eq!(app.screens.len(), 1);
    assert!(!app.exit);
}

#[test]
fn quit_keys_end_the_session_from_anywhere() {
    let mut app = App::new(snapshot());
    app.handle_screen_event(ScreenEvent::AddScreen(Screen::Help(HelpScreen::new())));
    assert!(app.handle_key_event(Key::Char('q')).is_none());
    assert!(app.exit);

    let mut app2 = App::new(snapshot());
    assert!(app2.handle_key_event(Key::Char('Q')).is_none());
    assert!(app2.exit);
}

#[test]
fn digit_shortcut_switches_without_a_selection() {
    let mut app = App::new(Hypr {
        workspaces: Vec::new(),
        clients: Vec::new(),
    });
    // With nothing selected, activation does nothing ...
    assert!(app.handle_key_event(Key::Enter).is_none());
    // ... and the send-screen key does nothing either ...
    assert!(app.handle_key_event(Key::Char('s')).is_none());
    // ... but a digit shortcut always asks for a bare switch.
    match app.handle_key_event(Key::Char('0')) {
        Some(Effect::Dispatch(cmds)) => {
            assert_eq!(cmds, vec!["dispatch workspace 0".to_string()]);
        }
        _ => panic!("expected a dispatch"),
    }
}

#[test]
fn pop_and_refresh_asks_for_a_refresh_of_the_exposed_screen() {
    let mut app = App::new(snapshot());
    app.handle_screen_event(ScreenEvent::AddScreen(Screen::Help(HelpScreen::new())));
    let needs = app.handle_screen_event(ScreenEvent::PopAndRefresh);
    assert!(needs);
    assert_eq!(app.screens.len(), 1);
    // The I/O layer fetches a fresh snapshot and hands it over.
    let fresh = Hypr {
        workspaces: vec![ws(7, "seven")],
        clients: Vec::new(),
    };
    app.refresh_top(fresh);
    match app.screens.last() {
        Some(Screen::Table(t)) => {
            assert_eq!(t.workspace_table.workspaces.len(), 1);
            assert_eq!(t.workspace_table.workspaces[0].id, 7);
            assert_eq!(t.client_table.selected, None);
        }
        _ => panic!("the root screen must be exposed"),
    }
}

#[test]
fn unrecognized_keys_are_silently_dropped() {
    let mut app = App::new(snapshot());
    assert!(app.handle_key_event(Key::Other).is_none());
    assert!(app.handle_key_event(Key::Char('z')).is_none());
    assert_eq!(app.screens.len(), 1);
    assert!(!app.exit);
}

#[test]
fn help_opens_from_the_send_screen_too() {
    let mut app = App::new(snapshot());
    let send = SendWorkspaceScreen::new("0xfeed".to_string(), snapshot().workspaces);
    app.handle_screen_event(ScreenEvent::AddScreen(Screen::SendWorkspace(send)));
    assert!(app.handle_key_event(Key::Char('?')).is_none());
    assert_eq!(app.screens.len(), 3);
    match app.screens.last() {
        Some(Screen::Help(_)) => {}
        _ => panic!("help must be on top"),
    }
}

#[test]
fn refresh_keeps_the_send_screen_scope() {
    let mut app = App::new(snapshot());
    let send = SendWorkspaceScreen::new("0xfeed".to_string(), snapshot().workspaces);
    app.handle_screen_event(ScreenEvent::AddScreen(Screen::SendWorkspace(send)));
    let fresh = Hypr {
        workspaces: vec![ws(9, "nine")],
        clients: Vec::new(),
    };
    app.refresh_top(fresh);
    match app.screens.last() {
        Some(Screen::SendWorkspace(s)) => {
            assert_eq!(s.client_address, "0xfeed");
            assert_eq!(s.workspace_table.workspaces.len(), 1);
            assert_eq!(s.workspace_table.workspaces[0].id, 9);
        }
        _ => panic!("the send screen must still be on top"),
    }
}

#[test]
fn exit_method_ends_the_session() {
    let mut app = App::new(snapshot());
    app.exit();
    assert!(app.exit);
    assert_eq!(app.screens.len(), 1);
}

#[test]
fn navigation_moves_the_focused_table_only() {
    let mut app = App::new(Hypr {
        workspaces: vec![ws(1, "one"), ws(2, "two")],
        clients: vec![client(1, "0xa"), client(2, "0xb")],
    });
    // Client table focused: j moves its cursor.
    assert!(app.handle_key_event(Key::Char('j')).is_none());
    match app.screens.last() {
        Some(Screen::Table(t)) => {
            assert_eq!(t.client_table.selected, Some(1));
            assert_eq!(t.workspace_table.selected, Some(0));
        }
        _ => panic!("the root screen must be on top"),
    }
    // After a toggle, k moves the workspace cursor (clamped at the start).
    app.handle_key_event(Key::Tab);
    assert!(app.handle_key_event(Key::Char('k')).is_none());
    match app.screens.last() {
        Some(Screen::Table(t)) => {
            assert_eq!(t.client_table.selected, Some(1));
            assert_eq!(t.workspace_table.selected, Some(0));
        }
        _ => panic!("the root screen must be on top"),
    }
}
