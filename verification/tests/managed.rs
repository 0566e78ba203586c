use dmux::managed::{
    close_request_disposition, is_forbidden_ui_action, require_existing_panes_after_managed_attach,
    require_managed_safe_hide_api, require_managed_safe_quit_api, require_managed_startup_contract,
    require_successful_managed_config_load, should_close_tab_directly, should_expose_ui_action,
    should_perform_native_action, should_reload_gui_configuration, ClipboardCopyDestination,
    CloseRequestDisposition, Confirmation, InputSelector, KeyAssignment,
    ManagedGuiStartupInvocation, PaneDirection, PaneSelectArguments, PaneSelectMode, PaneSplitSize,
    PromptInputLine, QuickSelectArguments, RotationDirection, SpawnCommand, SplitPane, UnixDomain,
};
use dmux::mux_model::SpawnTabDomain;

fn retain_allowed(actions: Vec<KeyAssignment>, dmux_managed_gui: bool) -> Vec<KeyAssignment> {
    actions
        .into_iter()
        .filter(|action| should_expose_ui_action(dmux_managed_gui, action))
        .collect()
}

#[test]
fn action_filter_is_identity_when_disabled() {
    let actions = || {
        vec![
            KeyAssignment::SpawnWindow,
            KeyAssignment::SpawnTab(SpawnTabDomain::CurrentPaneDomain),
            KeyAssignment::AttachDomain("remote".to_string()),
            KeyAssignment::QuitApplication,
            KeyAssignment::CopyTo(ClipboardCopyDestination::Clipboard),
        ]
    };

    assert_eq!(retain_allowed(actions(), false), actions());
}

fn managed_bypasses() -> Vec<KeyAssignment> {
    vec![
        KeyAssignment::SpawnWindow,
        KeyAssignment::SpawnTab(SpawnTabDomain::CurrentPaneDomain),
        KeyAssignment::SpawnCommandInNewTab(SpawnCommand::default()),
        KeyAssignment::AttachDomain("remote".to_string()),
        KeyAssignment::SwitchToWorkspace {
            name: Some("existing-but-racy".to_string()),
            spawn: None,
        },
        KeyAssignment::SwitchWorkspaceRelative(1),
        KeyAssignment::MoveTab(0),
        KeyAssignment::MoveTabRelative(1),
        KeyAssignment::AdjustPaneSize(PaneDirection::Right, 3),
        KeyAssignment::TogglePaneZoomState,
        KeyAssignment::RotatePanes(RotationDirection::Clockwise),
        KeyAssignment::PaneSelect(PaneSelectArguments {
            mode: PaneSelectMode::SwapWithActive,
            ..PaneSelectArguments::default()
        }),
        KeyAssignment::CloseCurrentTab { confirm: true },
        KeyAssignment::HideApplication,
        KeyAssignment::QuitApplication,
        KeyAssignment::ReloadConfiguration,
    ]
}

#[test]
fn action_filter_removes_managed_creation_and_lifecycle_bypasses() {
    let safe = || KeyAssignment::CopyTo(ClipboardCopyDestination::Clipboard);
    let mut actions = managed_bypasses();
    actions.push(safe());

    assert_eq!(retain_allowed(actions, true), vec![safe()]);
    assert!(managed_bypasses().iter().all(is_forbidden_ui_action));
}

#[test]
fn nested_forbidden_action_is_removed() {
    let action = KeyAssignment::Multiple(vec![KeyAssignment::Nop, KeyAssignment::SpawnWindow]);
    assert!(is_forbidden_ui_action(&action));
}

#[test]
fn close_request_policy_is_flag_gated() {
    assert_eq!(
        close_request_disposition(false),
        CloseRequestDisposition::FollowStandardPolicy
    );
    assert_eq!(
        close_request_disposition(true),
        CloseRequestDisposition::RefuseAndNotifyBroker
    );
}

#[test]
fn runtime_barrier_blocks_direct_and_nested_bypasses_only_when_managed() {
    let forbidden = vec![
        KeyAssignment::SpawnWindow,
        KeyAssignment::SpawnTab(SpawnTabDomain::CurrentPaneDomain),
        KeyAssignment::SpawnCommandInNewTab(SpawnCommand::default()),
        KeyAssignment::SpawnCommandInNewWindow(SpawnCommand::default()),
        KeyAssignment::SplitHorizontal(SpawnCommand::default()),
        KeyAssignment::SplitVertical(SpawnCommand::default()),
        KeyAssignment::SplitPane(SplitPane {
            direction: PaneDirection::Right,
            size: PaneSplitSize::Percent(50),
            command: SpawnCommand::default(),
            top_level: false,
        }),
        KeyAssignment::AttachDomain("dmux".to_string()),
        KeyAssignment::DetachDomain(SpawnTabDomain::CurrentPaneDomain),
        KeyAssignment::SwitchToWorkspace {
            name: Some("missing-can-create".to_string()),
            spawn: None,
        },
        KeyAssignment::SwitchWorkspaceRelative(1),
        KeyAssignment::MoveTab(0),
        KeyAssignment::MoveTabRelative(-1),
        KeyAssignment::AdjustPaneSize(PaneDirection::Left, 3),
        KeyAssignment::TogglePaneZoomState,
        KeyAssignment::SetPaneZoomState(true),
        KeyAssignment::RotatePanes(RotationDirection::CounterClockwise),
        KeyAssignment::PaneSelect(PaneSelectArguments {
            mode: PaneSelectMode::SwapWithActive,
            ..PaneSelectArguments::default()
        }),
        KeyAssignment::PaneSelect(PaneSelectArguments {
            mode: PaneSelectMode::SwapWithActiveKeepFocus,
            ..PaneSelectArguments::default()
        }),
        KeyAssignment::PaneSelect(PaneSelectArguments {
            mode: PaneSelectMode::MoveToNewTab,
            ..PaneSelectArguments::default()
        }),
        KeyAssignment::PaneSelect(PaneSelectArguments {
            mode: PaneSelectMode::MoveToNewWindow,
            ..PaneSelectArguments::default()
        }),
        KeyAssignment::CloseCurrentTab { confirm: false },
        KeyAssignment::CloseCurrentPane { confirm: false },
        KeyAssignment::HideApplication,
        KeyAssignment::QuitApplication,
        KeyAssignment::Multiple(vec![KeyAssignment::Nop, KeyAssignment::SpawnWindow]),
    ];

    for action in forbidden {
        assert!(should_perform_native_action(false, &action), "{:?}", action);
        assert!(!should_perform_native_action(true, &action), "{:?}", action);
    }
    let safe = KeyAssignment::CopyTo(ClipboardCopyDestination::Clipboard);
    assert!(should_perform_native_action(true, &safe));
}

#[test]
fn runtime_barrier_preserves_focus_and_window_presentation_actions() {
    let allowed = vec![
        KeyAssignment::ActivateTab(0),
        KeyAssignment::ActivatePaneByIndex(0),
        KeyAssignment::ActivatePaneDirection(PaneDirection::Right),
        KeyAssignment::PaneSelect(PaneSelectArguments {
            mode: PaneSelectMode::Activate,
            ..PaneSelectArguments::default()
        }),
        KeyAssignment::Hide,
        KeyAssignment::Show,
        KeyAssignment::ToggleFullScreen,
    ];

    for action in allowed {
        assert!(should_perform_native_action(true, &action), "{:?}", action);
        assert!(should_expose_ui_action(true, &action), "{:?}", action);
    }
}

#[test]
fn actions_held_by_dialogs_are_found_at_any_depth() {
    let spawn = || Box::new(KeyAssignment::SpawnWindow);
    let nop = || Box::new(KeyAssignment::Nop);
    let quick = |action: Option<Box<KeyAssignment>>| {
        KeyAssignment::QuickSelectArgs(QuickSelectArguments {
            label: "open".to_string(),
            action,
        })
    };
    assert!(is_forbidden_ui_action(&quick(Some(spawn()))));
    assert!(!is_forbidden_ui_action(&quick(Some(nop()))));
    assert!(!is_forbidden_ui_action(&quick(None)));
    assert!(is_forbidden_ui_action(&KeyAssignment::PromptInputLine(PromptInputLine {
        description: "name".to_string(),
        action: spawn(),
    })));
    assert!(is_forbidden_ui_action(&KeyAssignment::InputSelector(InputSelector {
        title: "pick".to_string(),
        action: Box::new(KeyAssignment::Multiple(vec![KeyAssignment::Multiple(vec![
            KeyAssignment::Nop,
            KeyAssignment::QuitApplication,
        ])])),
    })));
    let ask = |action: Box<KeyAssignment>, cancel: Option<Box<KeyAssignment>>| {
        KeyAssignment::Confirmation(Confirmation {
            message: "sure?".to_string(),
            action,
            cancel,
        })
    };
    assert!(is_forbidden_ui_action(&ask(spawn(), None)));
    assert!(is_forbidden_ui_action(&ask(nop(), Some(spawn()))));
    assert!(!is_forbidden_ui_action(&ask(nop(), Some(nop()))));
    assert!(!is_forbidden_ui_action(&KeyAssignment::Multiple(vec![])));
}

#[test]
fn direct_mouse_tab_close_is_flag_gated() {
    assert!(should_close_tab_directly(false));
    assert!(!should_close_tab_directly(true));
    assert!(should_reload_gui_configuration(false));
    assert!(!should_reload_gui_configuration(true));
}

#[test]
fn empty_managed_attach_cannot_fall_through_to_default_pane_spawn() {
    assert!(require_existing_panes_after_managed_attach(true, true, false).is_err());
    assert!(require_existing_panes_after_managed_attach(true, true, true).is_ok());
    assert!(require_existing_panes_after_managed_attach(false, true, false).is_ok());
    assert!(require_existing_panes_after_managed_attach(true, false, false).is_ok());
}

#[test]
fn managed_safe_quit_api_is_narrow_and_default_off() {
    assert!(require_managed_safe_quit_api(false).is_err());
    assert!(require_managed_safe_quit_api(true).is_ok());
    assert!(require_managed_safe_hide_api(false).is_err());
    assert!(require_managed_safe_hide_api(true).is_ok());
    assert!(!should_perform_native_action(
        true,
        &KeyAssignment::QuitApplication
    ));
    assert!(!should_perform_native_action(
        true,
        &KeyAssignment::HideApplication
    ));
}

fn managed_domain(socket: &str) -> UnixDomain {
    UnixDomain {
        name: "dmux".to_string(),
        socket_path: Some(socket.as_bytes().to_vec()),
        no_serve_automatically: true,
        ..UnixDomain::default()
    }
}

#[test]
fn managed_config_errors_refuse_before_default_config_can_spawn() {
    for error in [
        "syntax error",
        "managed descriptor unavailable",
        "descriptor is not ready: starting",
    ] {
        assert!(require_successful_managed_config_load(true, Some(error)).is_err());
    }
    assert!(require_successful_managed_config_load(false, Some("syntax error")).is_ok());
    assert!(require_successful_managed_config_load(true, None).is_ok());
}

const SOCKET: &str = "/run/user/1000/dmux/managed.sock";

fn connect<'a>() -> ManagedGuiStartupInvocation<'a> {
    ManagedGuiStartupInvocation::Connect {
        domain: "dmux",
        new_tab: false,
        has_workspace: false,
        has_prog: false,
    }
}

#[test]
fn managed_startup_requires_exact_broker_attach_contract() {
    let args = vec!["connect".to_string(), "dmux".to_string()];
    let domains = vec![managed_domain("/run/user/1000/dmux/managed.sock")];
    let socket = "/run/user/1000/dmux/managed.sock".as_bytes();

    require_managed_startup_contract(true, true, &args, &domains, Some(socket), connect())
        .unwrap();
    require_managed_startup_contract(
        true,
        true,
        &args,
        &domains,
        Some(socket),
        ManagedGuiStartupInvocation::Start {
            domain: Some("dmux"),
            attach: true,
            always_new_process: true,
            new_tab: false,
            has_prog: false,
            has_cwd: false,
            has_workspace: false,
        },
    )
    .unwrap();
}

#[test]
fn managed_startup_refuses_direct_app_and_descriptor_bypasses() {
    let args = vec!["connect".to_string(), "dmux".to_string()];
    let domains = vec![managed_domain("/run/user/1000/dmux/managed.sock")];
    let socket = "/run/user/1000/dmux/managed.sock".as_bytes();

    for invocation in [
        ManagedGuiStartupInvocation::NativeCreate,
        ManagedGuiStartupInvocation::Start {
            domain: None,
            attach: false,
            always_new_process: false,
            new_tab: false,
            has_prog: false,
            has_cwd: false,
            has_workspace: false,
        },
    ] {
        assert!(require_managed_startup_contract(
            true,
            true,
            &args,
            &domains,
            Some(socket),
            invocation,
        )
        .is_err());
    }

    assert!(
        require_managed_startup_contract(true, true, &args, &domains, None, connect()).is_err()
    );
    assert!(require_managed_startup_contract(
        true,
        true,
        &args,
        &domains,
        Some("/tmp/wrong.sock".as_bytes()),
        connect(),
    )
    .is_err());

    // Environment/feature off is a semantic no-op, even for stock paths.
    require_managed_startup_contract(
        false,
        false,
        &[],
        &[],
        None,
        ManagedGuiStartupInvocation::NativeCreate,
    )
    .unwrap();
}

fn start_with(domain: UnixDomain, socket: &str) -> Result<(), &'static str> {
    let args = vec!["connect".to_string(), "dmux".to_string()];
    require_managed_startup_contract(
        true,
        true,
        &args,
        &[domain],
        Some(socket.as_bytes()),
        connect(),
    )
}

#[test]
fn broker_socket_is_compared_component_by_component() {
    assert!(start_with(managed_domain(SOCKET), "/run//user/./1000/dmux/managed.sock/").is_ok());
    assert!(start_with(managed_domain(SOCKET), "/run/user/1000/dmux/../dmux/managed.sock").is_err());
    assert!(start_with(managed_domain("managed.sock"), "managed.sock").is_err());
}

#[test]
fn each_defect_of_a_managed_startup_has_its_reason() {
    let args = vec!["connect".to_string(), "dmux".to_string()];
    let socket = Some(SOCKET.as_bytes());
    let one = || vec![managed_domain(SOCKET)];
    assert_eq!(
        require_managed_startup_contract(true, false, &args, &one(), socket, connect()),
        Err("dmux wez-first startup refused because dmux_managed_gui is not enabled")
    );
    assert_eq!(
        require_managed_startup_contract(true, true, &args[..1], &one(), socket, connect()),
        Err("dmux wez-first startup refused because default_gui_startup_args is not attach-only")
    );
    assert_eq!(
        require_managed_startup_contract(true, true, &args, &[], socket, connect()),
        Err("dmux wez-first startup refused because the managed config must declare exactly one unix domain")
    );
    let no_socket = UnixDomain {
        name: "dmux".to_string(),
        ..UnixDomain::default()
    };
    assert_eq!(
        require_managed_startup_contract(true, true, &args, &[no_socket], socket, connect()),
        Err("dmux wez-first startup refused because the dmux domain has no socket")
    );
    let served = UnixDomain {
        serve_command: Some(vec!["serve".to_string()]),
        ..managed_domain(SOCKET)
    };
    assert!(start_with(served, SOCKET).is_err());
    let automatic = UnixDomain {
        connect_automatically: true,
        ..managed_domain(SOCKET)
    };
    assert!(start_with(automatic, SOCKET).is_err());
}
