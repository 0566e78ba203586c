use dmux::domains::{resolve_cwd, strip_drive_slash, PaneDirectory};
use dmux::mux::Mux;
use dmux::mux_model::{
    ClientInfo, Domain, MuxEffect, MuxNotification, Pane, PaneId, SpawnTabDomain, Tab, TabId,
    TabPane, TerminalSize, Window, WindowId,
};
use dmux::placement::{split_size, PaneDimensions};
use dmux::recovery::{RecoveryRemoveOutcome, RecoveryRemoveStatus, RecoveryRemoveTarget};
use dmux::script_api::{
    find_domain, follow_existing_workspace, node_kind_name, plan_tab, remove_status_name,
    window_size, window_workspace, CommandBuilderFrag, DomainKey,
};
use dmux::spawn::name_is_unused;
use dmux::table_schema::{
    dmux_recovery_remove_node, parse_recovery_remove_target, require_recovery_gate,
    RecoveryRequest, TableKey,
};
use dmux::workspace::WorkspaceCasError;
use mlua::{Lua, Table, Value};

fn test_mux() -> Mux {
    Mux::new(None, false, None)
}

fn test_size() -> TerminalSize {
    TerminalSize {
        rows: 24,
        cols: 80,
        pixel_width: 800,
        pixel_height: 600,
        dpi: 96,
    }
}

fn add_window(mux: &mut Mux, window_id: WindowId, workspace: &str) -> WindowId {
    mux.windows.push(Window {
        window_id,
        workspace: workspace.to_string(),
        tabs: Vec::new(),
        active: 0,
    });
    window_id
}

fn tab_of(tab_id: TabId, pane_ids: &[PaneId]) -> Tab {
    Tab {
        tab_id,
        registered: true,
        panes: pane_ids
            .iter()
            .map(|pane_id| TabPane {
                pane_id: *pane_id,
                domain_id: 1,
                dead: false,
            })
            .collect(),
        active_pane: pane_ids.last().copied(),
        size: test_size(),
    }
}

fn add_tab(mux: &mut Mux, window_id: WindowId, tab_id: TabId, pane_ids: &[PaneId]) -> TabId {
    assert!(!pane_ids.is_empty());
    mux.add_tab_no_panes(tab_of(tab_id, pane_ids));
    for pane_id in pane_ids {
        mux.add_pane(
            Pane {
                pane_id: *pane_id,
                domain_id: 1,
            },
            Ok(false),
        )
        .unwrap();
    }
    mux.add_tab_to_window(&tab_of(tab_id, pane_ids), window_id)
        .unwrap();
    tab_id
}

fn workspace_of(mux: &Mux, window_id: WindowId) -> String {
    mux.get_window(window_id)
        .expect("window should exist")
        .workspace
        .clone()
}

/// The notifications on workspaces since the last call.
fn drain(mux: &mut Mux) -> Vec<MuxNotification> {
    std::mem::take(&mut mux.effects)
        .into_iter()
        .filter_map(|effect| match effect {
            MuxEffect::Notify(notification) => Some(notification),
            _ => None,
        })
        .filter(|notification| {
            matches!(
                notification,
                MuxNotification::WindowWorkspaceChanged(_)
                    | MuxNotification::ActiveWorkspaceChanged(_)
                    | MuxNotification::WorkspaceRenamed { .. }
            )
        })
        .collect()
}

#[test]
fn rename_workspace_for_window_if_outcomes() {
    let mut mux = test_mux();
    let win_a = add_window(&mut mux, 0, "source");
    let client_id = 5;
    mux.clients.push(ClientInfo {
        client_id,
        active_workspace: Some("source".to_string()),
        focused_pane_id: None,
    });
    let active_workspace_of_client = |mux: &Mux| -> Option<String> {
        mux.clients
            .iter()
            .find(|client| client.client_id == client_id)
            .expect("client should exist")
            .active_workspace
            .clone()
    };

    // NoSuchWindow: nothing mutated, nothing notified.
    assert_eq!(
        mux.rename_workspace_for_window_if(WindowId::MAX, "source", "dest", false),
        Err(WorkspaceCasError::NoSuchWindow)
    );
    assert_eq!(workspace_of(&mux, win_a), "source");
    assert!(drain(&mut mux).is_empty());

    // WorkspaceMismatch reports the actual workspace name:
    // nothing mutated, nothing notified.
    assert_eq!(
        mux.rename_workspace_for_window_if(win_a, "stale-expectation", "dest", false),
        Err(WorkspaceCasError::WorkspaceMismatch {
            actual: "source".to_string()
        })
    );
    assert_eq!(workspace_of(&mux, win_a), "source");
    assert!(drain(&mut mux).is_empty());

    // NotSoleWindow lists the interloping windows:
    // nothing mutated, nothing notified.
    let win_b = add_window(&mut mux, 1, "source");
    assert_eq!(
        mux.rename_workspace_for_window_if(win_a, "source", "dest", true),
        Err(WorkspaceCasError::NotSoleWindow {
            other_window_ids: vec![win_b]
        })
    );
    assert_eq!(workspace_of(&mux, win_a), "source");
    assert_eq!(workspace_of(&mux, win_b), "source");
    assert!(drain(&mut mux).is_empty());

    // Renamed without expect_sole_window: the interloper does not
    // block, only the named window moves, and the client keeps
    // following "source".
    assert_eq!(
        mux.rename_workspace_for_window_if(win_b, "source", "elsewhere", false),
        Ok(())
    );
    assert_eq!(workspace_of(&mux, win_b), "elsewhere");
    assert_eq!(workspace_of(&mux, win_a), "source");
    let notifs = drain(&mut mux);
    assert_eq!(notifs.len(), 1, "unexpected notifications: {notifs:?}");
    assert!(matches!(
        notifs[0],
        MuxNotification::WindowWorkspaceChanged(id) if id == win_b
    ));
    assert_eq!(active_workspace_of_client(&mux), Some("source".to_string()));

    // Renamed with expect_sole_window: the window moves, and the client
    // following the fully migrated name is retargeted.
    assert_eq!(
        mux.rename_workspace_for_window_if(win_a, "source", "dmux:host:space", true),
        Ok(())
    );
    assert_eq!(workspace_of(&mux, win_a), "dmux:host:space");
    assert_eq!(
        active_workspace_of_client(&mux),
        Some("dmux:host:space".to_string())
    );
    let notifs = drain(&mut mux);
    assert_eq!(notifs.len(), 2, "unexpected notifications: {notifs:?}");
    assert!(matches!(
        notifs[0],
        MuxNotification::WindowWorkspaceChanged(id) if id == win_a
    ));
    assert!(matches!(
        notifs[1],
        MuxNotification::ActiveWorkspaceChanged(id) if id == client_id
    ));

    // Renaming to the name the window already holds, with a correct
    // expectation, is an idempotent success: no mutation, no notification.
    assert_eq!(
        mux.rename_workspace_for_window_if(win_a, "dmux:host:space", "dmux:host:space", true),
        Ok(())
    );
    assert_eq!(workspace_of(&mux, win_a), "dmux:host:space");
    assert!(drain(&mut mux).is_empty());
}

#[test]
fn conditional_rename_errors_are_stable_tokens() {
    assert_eq!(WorkspaceCasError::NoSuchWindow.to_string(), "no_such_window");
    assert_eq!(
        WorkspaceCasError::WorkspaceMismatch {
            actual: "a\"b".to_string()
        }
        .to_string(),
        "workspace_mismatch actual=\"a\\\"b\""
    );
    assert_eq!(
        WorkspaceCasError::NotSoleWindow {
            other_window_ids: vec![3, 4]
        }
        .to_string(),
        "not_sole_window other_window_ids=[3, 4]"
    );
}

#[test]
fn exact_recovery_removal_outcomes_and_cascades() {
    let mut mux = test_mux();

    let primary_window = add_window(&mut mux, 0, "dmux:space:primary");
    let split_tab = add_tab(&mut mux, primary_window, 10, &[1001, 1002]);
    let neighbor_tab = add_tab(&mut mux, primary_window, 11, &[1003]);

    let pane_outcome = mux.remove_recovery_node_exact(RecoveryRemoveTarget::Pane {
        pane_id: 1001,
        parent_tab_id: split_tab,
        parent_window_id: primary_window,
    });
    assert_eq!(pane_outcome.status, RecoveryRemoveStatus::Removed);
    assert_eq!(pane_outcome.removed_pane_ids, vec![1001]);
    assert!(pane_outcome.removed_tab_ids.is_empty());
    assert!(pane_outcome.removed_window_ids.is_empty());
    assert!(mux.get_pane(1001).is_none());
    assert!(mux.get_pane(1002).is_some());
    assert!(mux.get_pane(1003).is_some());
    assert!(mux.get_tab(split_tab).is_some());
    assert!(mux.get_tab(neighbor_tab).is_some());
    assert!(mux.get_window(primary_window).is_some());

    let mismatch = mux.remove_recovery_node_exact(RecoveryRemoveTarget::Pane {
        pane_id: 1002,
        parent_tab_id: neighbor_tab,
        parent_window_id: primary_window,
    });
    assert_eq!(mismatch.status, RecoveryRemoveStatus::ParentMismatch);
    assert_eq!(mismatch.actual_parent_tab_id, Some(split_tab));
    assert!(mismatch.removed_pane_ids.is_empty());
    assert!(mux.get_pane(1002).is_some());
    assert!(mux.get_pane(1003).is_some());

    let missing = mux.remove_recovery_node_exact(RecoveryRemoveTarget::Pane {
        pane_id: usize::MAX,
        parent_tab_id: split_tab,
        parent_window_id: primary_window,
    });
    assert_eq!(missing.status, RecoveryRemoveStatus::NotFound);
    assert!(missing.removed_pane_ids.is_empty());
    assert!(missing.removed_tab_ids.is_empty());
    assert!(missing.removed_window_ids.is_empty());

    let tab_outcome = mux.remove_recovery_node_exact(RecoveryRemoveTarget::Tab {
        tab_id: neighbor_tab,
        parent_window_id: primary_window,
    });
    assert_eq!(tab_outcome.status, RecoveryRemoveStatus::Removed);
    assert_eq!(tab_outcome.removed_pane_ids, vec![1003]);
    assert_eq!(tab_outcome.removed_tab_ids, vec![neighbor_tab]);
    assert!(tab_outcome.removed_window_ids.is_empty());
    assert!(mux.get_pane(1002).is_some());
    assert!(mux.get_tab(split_tab).is_some());
    assert!(mux.get_window(primary_window).is_some());

    let root_window = add_window(&mut mux, 1, "dmux:space:root-cascade");
    let root_tab = add_tab(&mut mux, root_window, 12, &[1004]);
    let root_outcome = mux.remove_recovery_node_exact(RecoveryRemoveTarget::Pane {
        pane_id: 1004,
        parent_tab_id: root_tab,
        parent_window_id: root_window,
    });
    assert_eq!(root_outcome.status, RecoveryRemoveStatus::Removed);
    assert_eq!(root_outcome.removed_pane_ids, vec![1004]);
    assert_eq!(root_outcome.removed_tab_ids, vec![root_tab]);
    assert_eq!(root_outcome.removed_window_ids, vec![root_window]);
    assert!(mux.get_pane(1004).is_none());
    assert!(mux.get_tab(root_tab).is_none());
    assert!(mux.get_window(root_window).is_none());
    assert!(mux.get_pane(1002).is_some(), "neighbor pane was removed");

    let window_to_remove = add_window(&mut mux, 2, "dmux:space:window-remove");
    let window_tab_a = add_tab(&mut mux, window_to_remove, 13, &[1005]);
    let window_tab_b = add_tab(&mut mux, window_to_remove, 14, &[1006]);
    let wrong_workspace = mux.remove_recovery_node_exact(RecoveryRemoveTarget::Window {
        window_id: window_to_remove,
        workspace: "dmux:space:wrong".to_string(),
    });
    assert_eq!(wrong_workspace.status, RecoveryRemoveStatus::ParentMismatch);
    assert!(wrong_workspace.removed_window_ids.is_empty());
    assert!(mux.get_window(window_to_remove).is_some());
    assert!(mux.get_pane(1005).is_some());
    assert!(mux.get_pane(1006).is_some());

    let window_outcome = mux.remove_recovery_node_exact(RecoveryRemoveTarget::Window {
        window_id: window_to_remove,
        workspace: "dmux:space:window-remove".to_string(),
    });
    assert_eq!(window_outcome.status, RecoveryRemoveStatus::Removed);
    assert_eq!(window_outcome.removed_pane_ids, vec![1005, 1006]);
    assert_eq!(
        window_outcome.removed_tab_ids,
        vec![window_tab_a, window_tab_b]
    );
    assert_eq!(window_outcome.removed_window_ids, vec![window_to_remove]);
    assert!(mux.get_window(window_to_remove).is_none());
    assert!(mux.get_tab(window_tab_a).is_none());
    assert!(mux.get_tab(window_tab_b).is_none());
    assert!(mux.get_pane(1005).is_none());
    assert!(mux.get_pane(1006).is_none());
    assert!(mux.get_pane(1002).is_some(), "neighbor pane was removed");
    assert!(mux.get_window(primary_window).is_some());
}

#[test]
fn a_target_says_what_it_names() {
    let target = RecoveryRemoveTarget::Tab {
        tab_id: 4,
        parent_window_id: 9,
    };
    assert_eq!(target.native_id(), 4);
    assert_eq!(node_kind_name(target.kind()), "tab");
    let outcome = RecoveryRemoveOutcome::new(target.kind(), target.native_id());
    assert_eq!(outcome.schema_version, 1);
    assert_eq!(remove_status_name(outcome.status), "postcondition_failed");
    assert_eq!(outcome.requested_native_id, 4);
    assert!(outcome.removed_pane_ids.is_empty());
}

/// The fields of a table as a script gave them.
fn recovery_request(table: &Table) -> RecoveryRequest {
    let mut keys = Vec::new();
    for pair in table.clone().pairs::<Value, Value>() {
        keys.push(match pair {
            Ok((Value::String(key), _)) => TableKey::Text(key.to_str().unwrap().to_string()),
            Ok((Value::Integer(_), _)) => TableKey::OtherType("integer".to_string()),
            Ok(_) => TableKey::OtherType("value".to_string()),
            Err(error) => TableKey::Unreadable(error.to_string()),
        });
    }
    RecoveryRequest {
        keys,
        kind: table.get("kind").map_err(|error| error.to_string()),
        native_id: table.get("native_id").map_err(|error| error.to_string()),
        parent_tab_id: table.get("parent_tab_id").map_err(|error| error.to_string()),
        parent_window_id: table.get("parent_window_id").map_err(|error| error.to_string()),
        workspace: table.get("workspace").map_err(|error| error.to_string()),
    }
}

fn remove_node(
    lua: &Lua,
    mux: &mut Mux,
    enabled: bool,
    request: &str,
) -> Result<RecoveryRemoveOutcome, String> {
    let table: Table = lua.load(format!("return {request}")).eval().unwrap();
    let target = parse_recovery_remove_target(recovery_request(&table))?;
    Ok(dmux_recovery_remove_node(mux, enabled, target))
}

#[test]
fn lua_gate_closed_schema_and_typed_window_outcomes() {
    let lua = Lua::new();
    let mut mux = test_mux();
    assert!(require_recovery_gate(false)
        .unwrap_err()
        .contains("dmux_recovery_spool_disabled"));
    assert!(require_recovery_gate(true).is_ok());

    let result = remove_node(
        &lua,
        &mut mux,
        false,
        "{kind = 'window', native_id = 71, workspace = 'dmux:space:disabled'}",
    )
    .unwrap();
    assert_eq!(remove_status_name(result.status), "disabled");
    assert_eq!(node_kind_name(result.kind), "window");
    assert_eq!(result.requested_native_id, 71);
    assert_eq!(
        (
            result.removed_pane_ids.len(),
            result.removed_tab_ids.len(),
            result.removed_window_ids.len()
        ),
        (0, 0, 0)
    );

    for forbidden_field in ["pid", "command", "workspace_ordinal"] {
        let request = format!(
            "{{kind = 'window', native_id = 71, workspace = 'dmux:space:closed-schema', {forbidden_field} = 'forbidden'}}"
        );
        let error = remove_node(&lua, &mut mux, false, &request).unwrap_err();
        assert!(
            error.contains("unknown field"),
            "unexpected error for {forbidden_field}: {error:#}"
        );
    }

    for (request, expected_kind) in [
        (
            "{kind='pane', native_id=9001, parent_tab_id=9002, parent_window_id=9003}",
            "pane",
        ),
        ("{kind='tab', native_id=9011, parent_window_id=9012}", "tab"),
    ] {
        let result = remove_node(&lua, &mut mux, true, request).unwrap();
        assert_eq!(remove_status_name(result.status), "not_found");
        assert_eq!(node_kind_name(result.kind), expected_kind);
        assert_eq!(
            (
                result.removed_pane_ids.len(),
                result.removed_tab_ids.len(),
                result.removed_window_ids.len()
            ),
            (0, 0, 0)
        );
    }

    let mut builder = mux.new_empty_window(88, Some("dmux:space:lua-exact".to_string()));
    let window_id = builder.window_id();
    builder.notify(&mut mux);

    let result = remove_node(
        &lua,
        &mut mux,
        true,
        &format!("{{kind = 'window', native_id = {window_id}, workspace = 'dmux:space:wrong-parent'}}"),
    )
    .unwrap();
    assert_eq!(remove_status_name(result.status), "parent_mismatch");
    assert_eq!(result.removed_window_ids.len(), 0);
    assert!(mux.get_window(window_id).is_some());

    let remove =
        format!("{{kind = 'window', native_id = {window_id}, workspace = 'dmux:space:lua-exact'}}");
    let result = remove_node(&lua, &mut mux, true, &remove).unwrap();
    assert_eq!(remove_status_name(result.status), "removed");
    assert_eq!(node_kind_name(result.kind), "window");
    assert_eq!(result.requested_native_id, window_id);
    assert_eq!(
        (result.removed_pane_ids.len(), result.removed_tab_ids.len()),
        (0, 0)
    );
    assert_eq!(result.removed_window_ids, vec![window_id]);
    assert!(mux.get_window(window_id).is_none());

    let result = remove_node(&lua, &mut mux, true, &remove).unwrap();
    assert_eq!(remove_status_name(result.status), "not_found");
    assert_eq!(
        (
            result.removed_pane_ids.len(),
            result.removed_tab_ids.len(),
            result.removed_window_ids.len()
        ),
        (0, 0, 0)
    );
}

#[test]
fn each_kind_of_node_has_its_own_fields() {
    let lua = Lua::new();
    let mut mux = test_mux();
    for request in [
        "{kind='pane', native_id=1, parent_tab_id=2, parent_window_id=3, workspace='w'}",
        "{kind='tab', native_id=1, parent_window_id=3, parent_tab_id=2}",
        "{kind='window', native_id=1, workspace='w', parent_tab_id=2}",
        "{kind='space', native_id=1}",
        "{native_id=1}",
        "{kind='window', native_id=-1, workspace='w'}",
        "{kind='window', native_id=1}",
        "{kind='window', native_id=1, workspace='w', [3]='x'}",
    ] {
        assert!(remove_node(&lua, &mut mux, true, request).is_err(), "{request}");
    }
}

fn two_windows() -> Mux {
    let mut mux = test_mux();
    add_window(&mut mux, 0, "one");
    add_window(&mut mux, 1, "two");
    add_tab(&mut mux, 0, 10, &[100, 101]);
    add_tab(&mut mux, 0, 11, &[102]);
    add_tab(&mut mux, 1, 12, &[103]);
    mux.effects.clear();
    mux
}

#[test]
fn a_pane_is_found_where_it_is() {
    let mux = two_windows();
    assert_eq!(mux.resolve_pane_id(101), Some((1, 0, 10)));
    assert_eq!(mux.resolve_pane_id(103), Some((1, 1, 12)));
    assert_eq!(mux.resolve_pane_id(999), None);
    assert_eq!(mux.window_containing_tab(11), Some(0));
    assert_eq!(mux.window_containing_tab(99), None);
    assert_eq!(mux.get_active_tab_for_window(0), Some(10));
    assert_eq!(mux.iter_windows_in_workspace("two"), vec![1]);
}

#[test]
fn removing_the_last_pane_prunes_its_window() {
    let mut mux = two_windows();
    mux.remove_pane(103);
    assert!(mux.get_pane(103).is_none());
    assert!(mux.get_tab(12).is_none());
    assert!(mux.get_window(1).is_none());
    assert!(mux.get_window(0).is_some());
    mux.remove_tab(11);
    assert!(mux.get_pane(102).is_none());
    assert!(mux.get_window(0).is_some());
    mux.remove_tab(10);
    assert!(mux.is_empty());
}

#[test]
fn killed_panes_are_announced() {
    let mut mux = two_windows();
    mux.remove_pane_internal(102);
    assert!(matches!(mux.effects[0], MuxEffect::KillPane(102)));
    assert!(mux
        .effects
        .iter()
        .any(|effect| matches!(effect, MuxEffect::Notify(MuxNotification::PaneRemoved(102)))));
}

#[test]
fn a_closing_window_names_the_domains_to_detach() {
    let mut mux = two_windows();
    mux.add_domain(&Domain {
        domain_id: 1,
        name: "unix".to_string(),
        detachable: true,
    });
    let closing = mux.begin_remove_window(1).unwrap();
    assert_eq!(closing.tabs, vec![12]);
    assert_eq!(closing.detach, vec![1]);
    assert!(mux.begin_remove_window(1).is_none());
    mux.finish_remove_window(&closing);
    assert!(mux.get_tab(12).is_none());
    assert!(mux.get_pane(103).is_none());
    assert!(mux.get_pane(100).is_some());
}

#[test]
fn detaching_a_domain_removes_its_panes_only() {
    let mut mux = two_windows();
    mux.add_pane(
        Pane {
            pane_id: 200,
            domain_id: 2,
        },
        Ok(false),
    )
    .unwrap();
    let mut tab = tab_of(20, &[200]);
    tab.panes[0].domain_id = 2;
    mux.add_tab_no_panes(tab_of(20, &[200]));
    mux.tabs.last_mut().unwrap().panes[0].domain_id = 2;
    mux.add_tab_to_window(&tab, 1).unwrap();
    mux.domain_was_detached(1);
    assert!(mux.get_pane(100).is_none());
    assert!(mux.get_window(0).is_none());
    assert!(mux.get_pane(200).is_some());
    assert!(mux.get_window(1).is_some());
}

#[test]
fn focusing_a_pane_activates_its_tab() {
    let mut mux = two_windows();
    mux.focus_pane_and_containing_tab(102).unwrap();
    assert_eq!(mux.get_active_tab_for_window(0), Some(11));
    assert_eq!(
        mux.focus_pane_and_containing_tab(999).unwrap_err(),
        "pane 999 not found"
    );
}

#[test]
fn workspaces_follow_windows_and_clients() {
    let mut mux = two_windows();
    assert_eq!(mux.active_workspace(), "default");
    mux.register_client(7);
    mux.set_active_workspace_for_client(7, "two");
    assert_eq!(mux.active_workspace_for_client(7), "two");
    assert_eq!(mux.active_workspace(), "default");
    let holder = mux.with_identity(Some(7));
    assert_eq!(mux.active_identity(), Some(7));
    assert_eq!(mux.active_workspace(), "two");
    holder.restore(&mut mux);
    assert_eq!(mux.active_identity(), None);
    mux.rename_workspace("two", "three");
    assert_eq!(mux.iter_workspaces(), vec!["one", "three"]);
    assert_eq!(mux.active_workspace_for_client(7), "three");
    assert_eq!(
        test_mux().active_workspace(),
        "default"
    );
    let clients = mux.iter_clients();
    assert_eq!(clients.len(), 1);
    assert_eq!(clients[0].client_id, 7);
    assert_eq!(clients[0].active_workspace.as_deref(), Some("three"));
    assert_eq!(clients[0].focused_pane_id, None);
    mux.unregister_client(7);
    assert!(mux.iter_clients().is_empty());
}

#[test]
fn following_needs_an_existing_workspace() {
    let mut mux = two_windows();
    mux.register_client(7);
    let _holder = mux.with_identity(Some(7));
    follow_existing_workspace(&mut mux, "two").unwrap();
    assert_eq!(mux.active_workspace_for_client(7), "two");
    let error = follow_existing_workspace(&mut mux, "nine").unwrap_err();
    assert_eq!(error, "\"nine\" is not an existing workspace");
    assert_eq!(mux.active_workspace_for_client(7), "two");
}

#[test]
fn generated_workspace_names_are_unused() {
    let mux = two_windows();
    let name = mux.generate_workspace_name().unwrap();
    assert!(!name.is_empty());
    assert!(name.contains('-'));
    assert!(!mux.iter_workspaces().contains(&name));
    assert!(!name_is_unused(&vec!["one".to_string()], "one"));
}

#[test]
fn generated_workspace_names_are_adjectives_and_nouns() {
    let mux = two_windows();
    for _ in 0..500 {
        let name = mux.generate_workspace_name().unwrap();
        assert!(name.chars().all(|c| c == '-' || c.is_ascii_lowercase()), "{name}");
        let joined = name.char_indices().any(|(at, c)| {
            let (adjective, noun) = (&name[..at], &name[at..]);
            c == '-'
                && !adjective.is_empty()
                && noun.len() > 1
                && !adjective.starts_with('-')
                && !adjective.ends_with('-')
                && !noun[1..].starts_with('-')
                && !noun.ends_with('-')
        });
        assert!(joined, "{name}");
    }
}

fn with_domains() -> Mux {
    let local = Domain {
        domain_id: 1,
        name: "local".to_string(),
        detachable: false,
    };
    let mut mux = Mux::new(Some(local), false, None);
    mux.add_domain(&Domain {
        domain_id: 2,
        name: "unix".to_string(),
        detachable: true,
    });
    mux
}

#[test]
fn domains_are_found_by_name_and_number() {
    let mut mux = with_domains();
    assert_eq!(mux.get_domain_by_name("unix").unwrap().domain_id, 2);
    assert_eq!(mux.default_domain().name, "local");
    let by_name = SpawnTabDomain::DomainName("unix".to_string());
    assert_eq!(mux.resolve_spawn_tab_domain(None, &by_name).unwrap().domain_id, 2);
    assert_eq!(
        mux.resolve_spawn_tab_domain(None, &SpawnTabDomain::DomainId(9)).unwrap_err(),
        "domain id 9 is invalid"
    );
    let missing = SpawnTabDomain::DomainName("nine".to_string());
    assert!(mux
        .resolve_spawn_tab_domain(None, &missing)
        .unwrap_err()
        .contains("domain name \"nine\" is invalid. Possible names are "));
    assert_eq!(find_domain(&mux, &DomainKey::Default).unwrap(), Some(1));
    assert_eq!(find_domain(&mux, &DomainKey::Name("unix".to_string())).unwrap(), Some(2));
    assert_eq!(find_domain(&mux, &DomainKey::Number(2)).unwrap(), Some(2));
    assert_eq!(find_domain(&mux, &DomainKey::Number(77)).unwrap(), None);
    assert!(find_domain(&mux, &DomainKey::Other).is_err());
    let unix = Domain {
        domain_id: 2,
        name: "unix".to_string(),
        detachable: true,
    };
    mux.set_default_domain(&unix);
    assert_eq!(mux.default_domain().domain_id, 2);
}

#[test]
fn directories_come_from_the_pane_where_the_domain_is_the_same() {
    let pane = |path: &str| {
        Some(PaneDirectory {
            domain_id: 1,
            url_path: Some(path.to_string()),
        })
    };
    assert_eq!(
        resolve_cwd(None, pane("/home/a%20b"), 1),
        Some("/home/a b".to_string())
    );
    assert_eq!(resolve_cwd(None, pane("/home"), 2), None);
    assert_eq!(resolve_cwd(None, pane("/%ff"), 1), None);
    assert_eq!(
        resolve_cwd(None, pane("/%C3%a9%2525%zz%4"), 1),
        Some("/é%25%zz%4".to_string())
    );
    assert_eq!(resolve_cwd(None, pane("/100%"), 1), Some("/100%".to_string()));
    assert_eq!(
        resolve_cwd(Some("/explicit".to_string()), pane("/home"), 1),
        Some("/explicit".to_string())
    );
    assert_eq!(strip_drive_slash("/C:/dir".to_string()), "C:/dir");
    assert_eq!(strip_drive_slash("/home".to_string()), "/home");
}

#[test]
fn spawning_uses_the_named_window_or_makes_one() {
    let mut mux = with_domains();
    add_window(&mut mux, 0, "one");
    add_tab(&mut mux, 0, 10, &[100]);
    let plan = mux
        .begin_spawn(
            Some(0),
            &SpawnTabDomain::CurrentPaneDomain,
            test_size(),
            Some(100),
            "unused".to_string(),
            50,
        )
        .unwrap();
    assert_eq!((plan.domain_id, plan.window_id), (1, 0));
    assert_eq!(plan.config_from, Some(100));
    assert!(plan.builder.is_none());
    let plan = mux
        .begin_spawn(
            None,
            &SpawnTabDomain::DefaultDomain,
            test_size(),
            None,
            "fresh".to_string(),
            50,
        )
        .unwrap();
    assert_eq!(plan.window_id, 50);
    assert_eq!(workspace_of(&mux, 50), "fresh");
    assert_eq!(
        mux.begin_spawn(
            Some(9),
            &SpawnTabDomain::DefaultDomain,
            test_size(),
            None,
            "fresh".to_string(),
            51,
        )
        .err()
        .unwrap(),
        "window_id 9 not found on this server"
    );
}

#[test]
fn moving_a_pane_makes_a_tab_of_its_own() {
    let mut mux = two_windows();
    assert_eq!(mux.plan_move(101).unwrap_err(), "domain 1 of pane 101 not found");
    mux.add_domain(&Domain {
        domain_id: 1,
        name: "local".to_string(),
        detachable: false,
    });
    assert_eq!(mux.plan_move(101).unwrap(), (1, 10));
    let plan = mux.begin_move(101, 10, Some(1), None, 60).unwrap();
    assert_eq!(plan.window_id, 1);
    mux.finish_move(plan.pane, 10, plan.window_id, 70, plan.size, Ok(false)).unwrap();
    assert_eq!(mux.resolve_pane_id(101), Some((1, 1, 70)));
    assert_eq!(mux.resolve_pane_id(100), Some((1, 0, 10)));
    assert!(mux.plan_move(999).is_err());
}

#[test]
fn a_window_made_for_a_missing_pane_is_announced() {
    let mut mux = two_windows();
    mux.effects.clear();
    let activity = mux.activity;
    let error = mux.begin_move(999, 10, None, Some("new".to_string()), 60).err().unwrap();
    assert_eq!(error, "pane 999 wasn't in its containing tab!?");
    assert_eq!(mux.activity, activity);
    assert_eq!(mux.get_window(60).unwrap().workspace, "new");
    assert_eq!(mux.effects.len(), 1);
    assert!(matches!(
        mux.effects[0],
        MuxEffect::Notify(MuxNotification::WindowCreated(60))
    ));
    mux.effects.clear();
    assert!(mux.begin_move(999, 10, Some(1), None, 61).is_err());
    assert_eq!(mux.activity, activity);
    assert!(mux.effects.is_empty());
}

#[test]
fn a_tab_that_no_window_lists_is_not_activated() {
    let mut mux = two_windows();
    let active = mux.get_window(0).unwrap().active;
    assert_eq!(mux.finish_spawn(0, 777, Some(100)).unwrap(), 100);
    assert_eq!(mux.get_window(0).unwrap().active, active);
    assert_eq!(mux.finish_spawn(9, 10, Some(100)).unwrap_err(), "no such window!?");
}

#[test]
fn splits_take_the_size_of_the_pane() {
    let mux = two_windows();
    assert!(mux.require_pane(100).is_ok());
    assert!(mux.require_pane(999).is_err());
    let size = split_size(PaneDimensions {
        cols: 80,
        viewport_rows: 24,
        dpi: 96,
    });
    assert_eq!((size.rows, size.cols, size.dpi), (24, 80, 96));
    assert_eq!((size.pixel_width, size.pixel_height), (0, 0));
}

#[test]
fn script_spawns_are_planned() {
    let mux = two_windows();
    let configured = test_size();
    assert_eq!(window_size(Some(10), Some(5), configured).cols, 10);
    assert_eq!(window_size(Some(10), Some(5), configured).rows, 5);
    assert_eq!(window_size(None, Some(5), configured), configured);
    assert_eq!(window_workspace(&mux, Some("w".to_string())), "w");
    assert_eq!(window_workspace(&mux, None), "default");
    assert_eq!(plan_tab(&mux, 0, configured), Some((configured, Some(101))));
    assert_eq!(plan_tab(&mux, 9, configured), None);
    let (plan, cwd) = CommandBuilderFrag {
        args: Some(vec!["sh".to_string()]),
        cwd: Some("/tmp".to_string()),
        set_environment_variables: vec![("A".to_string(), "1".to_string())],
    }
    .to_command_builder();
    let plan = plan.unwrap();
    assert_eq!(plan.args, vec!["sh"]);
    assert_eq!(plan.cwd, Some("/tmp".to_string()));
    assert_eq!(cwd, None);
    let (plan, cwd) = CommandBuilderFrag {
        args: None,
        cwd: Some("/tmp".to_string()),
        set_environment_variables: Vec::new(),
    }
    .to_command_builder();
    assert!(plan.is_none());
    assert_eq!(cwd, Some("/tmp".to_string()));
}

#[test]
fn focus_is_recorded_for_a_client() {
    let mut mux = two_windows();
    mux.register_client(7);
    mux.record_focus_for_client(7, 101);
    assert_eq!(mux.resolve_focused_pane(7), Some((1, 0, 10, 101)));
    mux.record_focus_for_client(7, 103);
    assert_eq!(mux.resolve_focused_pane(7), Some((1, 1, 12, 103)));
    assert_eq!(mux.resolve_focused_pane(8), None);
}

#[test]
fn readers_start_with_the_banner() {
    let mut mux = test_mux();
    mux.set_banner(Some("hello".to_string()));
    mux.add_pane(
        Pane {
            pane_id: 1,
            domain_id: 1,
        },
        Ok(true),
    )
    .unwrap();
    assert!(matches!(mux.effects[0], MuxEffect::AttachHandlers(1)));
    assert!(matches!(
        &mux.effects[1],
        MuxEffect::StartReader { pane_id: 1, banner: Some(text) } if text == "hello"
    ));
    mux.effects.clear();
    assert_eq!(
        mux.add_pane(
            Pane {
                pane_id: 2,
                domain_id: 1
            },
            Err("no reader".to_string())
        ),
        Err("no reader".to_string())
    );
    assert_eq!(mux.effects.len(), 1);
    assert!(matches!(mux.effects[0], MuxEffect::AttachHandlers(2)));
}

#[test]
fn input_is_noted_of_attached_clients() {
    let mut mux = two_windows();
    mux.client_had_input(7);
    assert!(mux.effects.is_empty());
    mux.register_client(7);
    mux.client_had_input(7);
    assert_eq!(mux.effects.len(), 1);
    assert!(matches!(mux.effects[0], MuxEffect::StampInput(7)));
    mux.effects.clear();
    mux.has_agent = true;
    let _holder = mux.with_identity(Some(7));
    mux.record_input_for_current_identity();
    assert_eq!(mux.effects.len(), 2);
    assert!(matches!(mux.effects[0], MuxEffect::StampInput(7)));
    assert!(matches!(mux.effects[1], MuxEffect::UpdateAgentTarget));
}

#[test]
fn a_refused_removal_tells_nobody_and_a_retry_finds_nothing() {
    let mut mux = two_windows();
    let outcome = mux.remove_recovery_node_exact(RecoveryRemoveTarget::Tab {
        tab_id: 11,
        parent_window_id: 1,
    });
    assert_eq!(outcome.status, RecoveryRemoveStatus::ParentMismatch);
    assert_eq!(outcome.actual_parent_window_id, Some(0));
    assert!(mux.effects.is_empty());
    let target = RecoveryRemoveTarget::Tab {
        tab_id: 11,
        parent_window_id: 0,
    };
    assert_eq!(
        mux.remove_recovery_node_exact(target.clone()).status,
        RecoveryRemoveStatus::Removed
    );
    mux.effects.clear();
    assert_eq!(
        mux.remove_recovery_node_exact(target).status,
        RecoveryRemoveStatus::NotFound
    );
    assert!(mux.effects.is_empty());
}

#[test]
fn killing_a_window_removes_what_it_held() {
    let mut mux = two_windows();
    let closing = mux.begin_remove_window(0);
    mux.kill_window(closing);
    assert!(mux.get_window(0).is_none());
    assert!(mux.get_pane(100).is_none() && mux.get_pane(102).is_none());
    assert!(mux.get_pane(103).is_some());
    mux.kill_window(None);
    assert_eq!(mux.iter_windows(), vec![1]);
    assert_eq!(mux.iter_panes().len(), 1);
    assert_eq!(with_domains().iter_domains(), vec![1, 2]);
}

#[test]
fn spawning_ends_with_the_active_pane() {
    let mut mux = with_domains();
    add_window(&mut mux, 0, "one");
    add_tab(&mut mux, 0, 10, &[100]);
    assert_eq!(mux.finish_spawn(0, 10, Some(100)).unwrap(), 100);
    assert!(mux.finish_spawn(0, 10, None).is_err());
    assert_eq!(mux.spawn_directory_source(Some(100), 1).unwrap(), Some(100));
    assert_eq!(mux.spawn_directory_source(None, 1).unwrap(), None);
    assert!(mux.spawn_directory_source(Some(999), 1).is_err());
    let plan = mux.plan_split(100, &SpawnTabDomain::CurrentPaneDomain).unwrap();
    assert_eq!((plan.window_id, plan.tab_id, plan.domain_id), (0, 10, 1));
    assert!(mux.plan_split(999, &SpawnTabDomain::CurrentPaneDomain).is_err());
}

#[test]
fn notices_reach_the_subscribers() {
    let mut mux = two_windows();
    mux.assign_clipboard(
        100,
        dmux::mux_model::ClipboardSelection::Clipboard,
        Some("text".to_string()),
    );
    mux.save_to_downloads(Some("a.txt".to_string()), b"data".to_vec());
    assert!(matches!(
        &mux.effects[0],
        MuxEffect::Notify(MuxNotification::AssignClipboard { pane_id: 100, clipboard: Some(text), .. })
            if text == "text"
    ));
    assert!(matches!(
        &mux.effects[1],
        MuxEffect::Notify(MuxNotification::SaveToDownloads { name: Some(name), data })
            if name == "a.txt" && data == b"data"
    ));
    assert!(!mux.is_workspace_empty("one"));
    assert!(mux.is_workspace_empty("nine"));
    assert!(mux.is_active_workspace_empty());
    mux.register_client(7);
    let _holder = mux.with_identity(Some(7));
    mux.record_input_for_current_identity();
    mux.record_focus_for_current_identity(103);
    assert_eq!(mux.resolve_focused_pane(7), Some((1, 1, 12, 103)));
}
