use hyprnav::digits::u32_string;
use hyprnav::hypr::clients_query;
use hyprnav::hypr::parse_clients;
use hyprnav::hypr::parse_workspaces;
use hyprnav::hypr::send_to_workspace;
use hyprnav::hypr::socket_path;
use hyprnav::hypr::switch_to_workspace;
use hyprnav::hypr::wire::workspaces_to_json_text;
use hyprnav::hypr::workspaces_query;
use hyprnav::hypr::Hypr;
use hyprnav::hypr::HyprError;
use hyprnav::hypr::Workspace;
use hyprnav::json::parse_json;
use hyprnav::json::print_json;
use hyprnav::json::Json;

fn ws(id: u32, name: &str, monitor_id: u32, windows: u32) -> Workspace {
    Workspace {
        id,
        name: name.to_string(),
        monitor_id,
        windows,
    }
}

#[test]
fn decimal_rendering_is_exact() {
    assert_eq!(u32_string(0), "0");
    assert_eq!(u32_string(7), "7");
    assert_eq!(u32_string(10), "10");
    assert_eq!(u32_string(4294967295), "4294967295");
}

#[test]
fn command_texts_are_exact() {
    assert_eq!(clients_query(), "j/clients");
    assert_eq!(workspaces_query(), "j/workspaces");
    assert_eq!(switch_to_workspace(1, None), vec!["dispatch workspace 1".to_string()]);
    assert_eq!(
        switch_to_workspace(12, Some("0xdeadbeef".to_string())),
        vec![
            "dispatch workspace 12".to_string(),
            "dispatch focuswindow address:0xdeadbeef".to_string(),
        ]
    );
    assert_eq!(
        send_to_workspace(3, "0xabc".to_string()),
        "dispatch movetoworkspacesilent 3,address:0xabc"
    );
    assert_eq!(
        socket_path("/run/user/1000", "sig"),
        "/run/user/1000/hypr/sig/.socket.sock"
    );
}

#[test]
fn workspace_list_round_trips_through_wire_text() {
    let original = vec![
        ws(1, "term \"main\"\n", 0, 2),
        ws(2, "web", 1, 0),
        ws(30, "µ-work", 0, 7),
    ];
    let text = workspaces_to_json_text(&original);
    let back = parse_workspaces(&text).expect("own encoding must decode");
    assert_eq!(back, original);
}

#[test]
fn wire_text_uses_the_compositor_field_names() {
    let text = workspaces_to_json_text(&vec![ws(5, "five", 2, 9)]);
    assert_eq!(
        text,
        "[{\"id\":5,\"name\":\"five\",\"monitorID\":2,\"windows\":9}]"
    );
    // An independent JSON reader agrees about the shape and the rename.
    let v: serde_json::Value = serde_json::from_str(&text).expect("valid JSON");
    assert_eq!(v[0]["id"].as_u64(), Some(5));
    assert_eq!(v[0]["monitorID"].as_u64(), Some(2));
    assert_eq!(v[0]["windows"].as_u64(), Some(9));
    assert_eq!(v[0]["name"].as_str(), Some("five"));
}

#[test]
fn escaped_names_survive_an_independent_reader() {
    let name = "a\"b\\c\nd\te\u{8}\u{c}\u{1}µ©";
    let text = workspaces_to_json_text(&vec![ws(1, name, 0, 0)]);
    let v: serde_json::Value = serde_json::from_str(&text).expect("valid JSON");
    assert_eq!(v[0]["name"].as_str(), Some(name));
    let back = parse_workspaces(&text).expect("own encoding must decode");
    assert_eq!(back[0].name, name);
}

#[test]
fn parse_workspaces_sorts_by_ascending_id() {
    let reply = r#"[
        {"id": 9, "name": "nine", "monitorID": 0, "windows": 1},
        {"id": 2, "name": "two", "monitorID": 1, "windows": 0, "extra": [1, {"x": null}]},
        {"id": 4, "name": "four", "windows": 3, "monitorID": 0}
    ]"#;
    let got = parse_workspaces(reply).expect("well-formed reply");
    let ids: Vec<u32> = got.iter().map(|w| w.id).collect();
    assert_eq!(ids, vec![2, 4, 9]);
    assert_eq!(got[0].name, "two");
    assert_eq!(got[2].monitor_id, 0);
}

#[test]
fn parse_clients_tolerates_unknown_fields_and_sorts() {
    let reply = r#"[
        {"address": "0xb", "class": "web", "title": "page", "at": [10, 20],
         "workspace": {"id": 5, "name": "five"}, "focusHistoryID": 1, "pid": 4242},
        {"address": "0xa", "class": "term", "title": "sh A😀",
         "workspace": {"id": 2, "name": "two"}, "focusHistoryID": 0}
    ]"#;
    let got = parse_clients(reply).expect("well-formed reply");
    assert_eq!(got.len(), 2);
    assert_eq!(got[0].address, "0xa");
    assert_eq!(got[0].title, "sh A😀");
    assert_eq!(got[1].workspace.id, 5);
    assert_eq!(got[1].workspace.name, "five");
}

#[test]
fn malformed_reply_is_a_protocol_error_with_the_payload() {
    let bad = "not json at all";
    match parse_workspaces(bad) {
        Err(HyprError::Protocol { payload }) => assert_eq!(payload, bad),
        other => panic!("expected a protocol error, got {:?}", other),
    }
}

#[test]
fn snapshot_fails_on_first_malformed_reply() {
    let ok = "[]";
    let bad = "[{\"id\": }]";
    match Hypr::new(bad, ok) {
        Err(HyprError::Protocol { payload }) => assert_eq!(payload, bad),
        other => panic!("expected a protocol error, got {:?}", other),
    }
    match Hypr::new(ok, bad) {
        Err(HyprError::Protocol { payload }) => assert_eq!(payload, bad),
        other => panic!("expected a protocol error, got {:?}", other),
    }
    let snap = Hypr::new(ok, ok).expect("empty lists are a fine snapshot");
    assert!(snap.workspaces.is_empty());
    assert!(snap.clients.is_empty());
}

#[test]
fn wrong_shapes_are_rejected() {
    assert!(parse_workspaces("{}").is_err());
    assert!(parse_workspaces("[1]").is_err());
    assert!(parse_workspaces(r#"[{"id": "1", "name": "x", "monitorID": 0, "windows": 0}]"#).is_err());
    assert!(parse_workspaces(r#"[{"id": -1, "name": "x", "monitorID": 0, "windows": 0}]"#).is_err());
    assert!(parse_workspaces(r#"[{"id": -0, "name": "x", "monitorID": 0, "windows": 0}]"#).is_err());
    assert!(parse_workspaces(r#"[{"id": 4294967296, "name": "x", "monitorID": 0, "windows": 0}]"#).is_err());
    assert!(parse_workspaces(r#"[{"name": "x", "monitorID": 0, "windows": 0}]"#).is_err());
    assert!(parse_workspaces(r#"[{"id": 1.5, "name": "x", "monitorID": 0, "windows": 0}]"#).is_err());
    // a duplicate known field
    assert!(parse_workspaces(r#"[{"id": 1, "id": 2, "name": "x", "monitorID": 0, "windows": 0}]"#).is_err());
    // trailing junk after the value
    assert!(parse_workspaces("[] []").is_err());
}

#[test]
fn json_parser_handles_the_value_kinds() {
    let j = parse_json("  [0, -2, 18446744073709551615, 1.5, -3e2, \"a\\/b\", true, false, null] ")
        .expect("valid JSON");
    match j {
        Json::Arr(items) => {
            assert_eq!(items.len(), 9);
            assert_eq!(items[0], Json::Int { neg: false, mag: 0 });
            assert_eq!(items[1], Json::Int { neg: true, mag: 2 });
            assert_eq!(items[2], Json::Int { neg: false, mag: 18446744073709551615 });
            assert_eq!(items[3], Json::NumText("1.5".to_string()));
            assert_eq!(items[4], Json::NumText("-3e2".to_string()));
            assert_eq!(items[5], Json::Str("a/b".to_string()));
            assert_eq!(items[6], Json::Bool(true));
            assert_eq!(items[7], Json::Bool(false));
            assert_eq!(items[8], Json::Null);
        }
        other => panic!("expected an array, got {:?}", other),
    }
}

#[test]
fn json_parser_rejects_malformed_text() {
    assert!(parse_json("").is_none());
    assert!(parse_json("[1,]").is_none());
    assert!(parse_json("{\"a\" 1}").is_none());
    assert!(parse_json("\"unterminated").is_none());
    assert!(parse_json("01").is_none());
    assert!(parse_json("1.").is_none());
    assert!(parse_json("\"bad \\q escape\"").is_none());
    assert!(parse_json("\"lone \\uD800 surrogate\"").is_none());
    assert!(parse_json("tru").is_none());
    assert!(parse_json("[\"raw\ncontrol\"]").is_none());
}

#[test]
fn unicode_escapes_decode_including_surrogate_pairs() {
    let j = parse_json("\"\\u0041\\u00e9\\uD83D\\uDE00\"").expect("valid JSON");
    assert_eq!(j, Json::Str("A\u{e9}\u{1F600}".to_string()));
}

#[test]
fn printer_output_is_compact_and_reparses() {
    let text = "{\"k\":[1,\"v\",null],\"m\":{\"x\":-7}}";
    let j = parse_json(text).expect("valid JSON");
    assert_eq!(print_json(&j), text);
    let big = "18446744073709551616";
    let j2 = parse_json(big).expect("valid JSON");
    assert_eq!(j2, Json::NumText(big.to_string()));
    assert_eq!(print_json(&j2), big);
}

#[test]
fn largest_workspace_id_round_trips() {
    let big = vec![ws(4294967295, "edge", 4294967295, 4294967295)];
    let text = workspaces_to_json_text(&big);
    let back = parse_workspaces(&text).expect("own encoding must decode");
    assert_eq!(back, big);
    assert_eq!(
        switch_to_workspace(4294967295, None),
        vec!["dispatch workspace 4294967295".to_string()]
    );
}

#[test]
fn empty_workspace_list_round_trips() {
    let text = workspaces_to_json_text(&Vec::new());
    assert_eq!(text, "[]");
    let back = parse_workspaces(&text).expect("own encoding must decode");
    assert!(back.is_empty());
}
