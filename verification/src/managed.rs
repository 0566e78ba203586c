//! What a managed GUI lets its user and its scripts do, and how it may start.

use crate::mux_model::SpawnTabDomain;
use crate::path_text::{is_absolute, same_absolute, same_absolute_path};
use crate::text::same_text;
use vstd::prelude::*;

verus! {

/// What a request to close a window leads to.
#[derive(Clone, Copy, Debug, PartialEq, Eq, Structural)]
pub enum CloseRequestDisposition {
    FollowStandardPolicy,
    RefuseAndNotifyBroker,
}

/// What a request to close a window leads to: a managed GUI refuses and tells
/// the broker.
pub fn close_request_disposition(dmux_managed_gui: bool) -> (disposition: CloseRequestDisposition)
    ensures
        disposition == (if dmux_managed_gui {
            CloseRequestDisposition::RefuseAndNotifyBroker
        } else {
            CloseRequestDisposition::FollowStandardPolicy
        }),
{
    if dmux_managed_gui {
        CloseRequestDisposition::RefuseAndNotifyBroker
    } else {
        CloseRequestDisposition::FollowStandardPolicy
    }
}

/// A direction between panes.
#[derive(Clone, Copy, Debug, PartialEq, Eq, Structural)]
pub enum PaneDirection {
    Up,
    Down,
    Left,
    Right,
    Next,
    Prev,
}

/// A direction in which panes rotate.
#[derive(Clone, Copy, Debug, PartialEq, Eq, Structural)]
pub enum RotationDirection {
    Clockwise,
    CounterClockwise,
}

/// Where copied text goes.
#[derive(Clone, Copy, Debug, PartialEq, Eq, Structural)]
pub enum ClipboardCopyDestination {
    Clipboard,
    PrimarySelection,
    ClipboardAndPrimarySelection,
}

/// Where pasted text comes from.
#[derive(Clone, Copy, Debug, PartialEq, Eq, Structural)]
pub enum ClipboardPasteSource {
    Clipboard,
    PrimarySelection,
}

/// How large a new split is.
#[derive(Clone, Copy, Debug, PartialEq, Eq, Structural)]
pub enum PaneSplitSize {
    Cells(usize),
    Percent(u8),
}

/// What to run in a new pane.
#[derive(Clone, Debug, Default, PartialEq, Eq)]
pub struct SpawnCommand {
    pub label: Option<String>,
    pub args: Option<Vec<String>>,
    pub cwd: Option<String>,
}

/// How to split a pane.
#[derive(Clone, Debug, PartialEq, Eq)]
pub struct SplitPane {
    pub direction: PaneDirection,
    pub size: PaneSplitSize,
    pub command: SpawnCommand,
    pub top_level: bool,
}

/// What happens to the pane that is selected.
#[derive(Clone, Copy, Debug, Default, PartialEq, Eq, Structural)]
pub enum PaneSelectMode {
    #[default]
    Activate,
    SwapWithActive,
    SwapWithActiveKeepFocus,
    MoveToNewTab,
    MoveToNewWindow,
}

/// How panes are offered for selection.
#[derive(Clone, Debug, Default, PartialEq, Eq)]
pub struct PaneSelectArguments {
    pub alphabet: String,
    pub mode: PaneSelectMode,
    pub show_pane_ids: bool,
}

/// An action that a key, the mouse, a menu or a script asks for. Actions that
/// only present what already exists carry no arguments here where nothing is
/// decided by them.
#[derive(Debug, PartialEq, Eq)]
pub enum KeyAssignment {
    SpawnTab(SpawnTabDomain),
    SpawnWindow,
    SpawnCommandInNewTab(SpawnCommand),
    SpawnCommandInNewWindow(SpawnCommand),
    SplitHorizontal(SpawnCommand),
    SplitVertical(SpawnCommand),
    SplitPane(SplitPane),
    AttachDomain(String),
    DetachDomain(SpawnTabDomain),
    SwitchToWorkspace { name: Option<String>, spawn: Option<SpawnCommand> },
    SwitchWorkspaceRelative(isize),
    MoveTab(usize),
    MoveTabRelative(isize),
    AdjustPaneSize(PaneDirection, usize),
    TogglePaneZoomState,
    SetPaneZoomState(bool),
    RotatePanes(RotationDirection),
    CloseCurrentTab { confirm: bool },
    CloseCurrentPane { confirm: bool },
    HideApplication,
    QuitApplication,
    ReloadConfiguration,
    PaneSelect(PaneSelectArguments),
    Multiple(Vec<KeyAssignment>),
    QuickSelectArgs(QuickSelectArguments),
    PromptInputLine(PromptInputLine),
    InputSelector(InputSelector),
    Confirmation(Confirmation),
    ToggleFullScreen,
    ToggleAlwaysOnTop,
    ToggleAlwaysOnBottom,
    SetWindowLevel,
    CopyTo(ClipboardCopyDestination),
    CopyTextTo { text: String, destination: ClipboardCopyDestination },
    PasteFrom(ClipboardPasteSource),
    ActivateTabRelative(isize),
    ActivateTabRelativeNoWrap(isize),
    IncreaseFontSize,
    DecreaseFontSize,
    ResetFontSize,
    ResetFontAndWindowSize,
    ActivateTab(isize),
    ActivateLastTab,
    SendString(String),
    SendKey,
    Nop,
    DisableDefaultAssignment,
    Hide,
    Show,
    ScrollByPage,
    ScrollByLine(isize),
    ScrollByCurrentEventWheelDelta,
    ScrollToPrompt(isize),
    ScrollToTop,
    ScrollToBottom,
    ShowTabNavigator,
    ShowDebugOverlay,
    ShowLauncher,
    ShowLauncherArgs,
    ClearScrollback,
    Search,
    ActivateCopyMode,
    SelectTextAtMouseCursor,
    ExtendSelectionToMouseCursor,
    OpenLinkAtMouseCursor,
    ClearSelection,
    CompleteSelection(ClipboardCopyDestination),
    CompleteSelectionOrOpenLinkAtMouseCursor(ClipboardCopyDestination),
    StartWindowDrag,
    ActivatePaneDirection(PaneDirection),
    ActivatePaneByIndex(usize),
    EmitEvent(String),
    QuickSelect,
    ActivateKeyTable { name: String },
    PopKeyTable,
    ClearKeyTableStack,
    CopyMode,
    CharSelect,
    ResetTerminal,
    OpenUri(String),
    ActivateCommandPalette,
    ActivateWindow(usize),
    ActivateWindowRelative(isize),
    ActivateWindowRelativeNoWrap(isize),
}

/// A quick selection, with what to do with the selected text.
#[derive(Debug, PartialEq, Eq)]
pub struct QuickSelectArguments {
    pub label: String,
    pub action: Option<Box<KeyAssignment>>,
}

/// A prompt, with what to do with the line.
#[derive(Debug, PartialEq, Eq)]
pub struct PromptInputLine {
    pub description: String,
    pub action: Box<KeyAssignment>,
}

/// A choice, with what to do with what was chosen.
#[derive(Debug, PartialEq, Eq)]
pub struct InputSelector {
    pub title: String,
    pub action: Box<KeyAssignment>,
}

/// A question, with what to do on either answer.
#[derive(Debug, PartialEq, Eq)]
pub struct Confirmation {
    pub message: String,
    pub action: Box<KeyAssignment>,
    pub cancel: Option<Box<KeyAssignment>>,
}

/// Whether an action creates resources, changes the owner's layout, switches
/// the workspace or ends the application, itself and not by what it holds.
pub open spec fn directly_forbidden(action: KeyAssignment) -> bool {
    match action {
        KeyAssignment::SpawnTab(_) => true,
        KeyAssignment::SpawnWindow => true,
        KeyAssignment::SpawnCommandInNewTab(_) => true,
        KeyAssignment::SpawnCommandInNewWindow(_) => true,
        KeyAssignment::SplitHorizontal(_) => true,
        KeyAssignment::SplitVertical(_) => true,
        KeyAssignment::SplitPane(_) => true,
        KeyAssignment::AttachDomain(_) => true,
        KeyAssignment::DetachDomain(_) => true,
        KeyAssignment::SwitchToWorkspace { .. } => true,
        KeyAssignment::SwitchWorkspaceRelative(_) => true,
        KeyAssignment::MoveTab(_) => true,
        KeyAssignment::MoveTabRelative(_) => true,
        KeyAssignment::AdjustPaneSize(_, _) => true,
        KeyAssignment::TogglePaneZoomState => true,
        KeyAssignment::SetPaneZoomState(_) => true,
        KeyAssignment::RotatePanes(_) => true,
        KeyAssignment::CloseCurrentTab { .. } => true,
        KeyAssignment::CloseCurrentPane { .. } => true,
        KeyAssignment::HideApplication => true,
        KeyAssignment::QuitApplication => true,
        KeyAssignment::ReloadConfiguration => true,
        KeyAssignment::PaneSelect(args) => args.mode != PaneSelectMode::Activate,
        _ => false,
    }
}

/// Whether an action is forbidden in a managed GUI, itself or by an action that
/// it holds at any depth.
pub open spec fn forbidden(action: KeyAssignment) -> bool
    decreases action,
{
    match action {
        KeyAssignment::Multiple(actions) => exists|i: int|
            0 <= i < actions@.len() && forbidden(#[trigger] actions@[i]),
        KeyAssignment::QuickSelectArgs(args) => match args.action {
            Some(inner) => forbidden(*inner),
            None => false,
        },
        KeyAssignment::PromptInputLine(prompt) => forbidden(*prompt.action),
        KeyAssignment::InputSelector(selector) => forbidden(*selector.action),
        KeyAssignment::Confirmation(confirmation) => forbidden(*confirmation.action) || (
        match confirmation.cancel {
            Some(inner) => forbidden(*inner),
            None => false,
        }),
        _ => directly_forbidden(action),
    }
}

/// Whether an action must not be offered or performed by a managed GUI. The
/// presenting actions are listed one by one, so that a new kind of action is
/// not let through unnoticed.
pub fn is_forbidden_ui_action(action: &KeyAssignment) -> (yes: bool)
    ensures
        yes == forbidden(*action),
    decreases *action,
{
    match action {
        KeyAssignment::SpawnTab(_)
        | KeyAssignment::SpawnWindow
        | KeyAssignment::SpawnCommandInNewTab(_)
        | KeyAssignment::SpawnCommandInNewWindow(_)
        | KeyAssignment::SplitHorizontal(_)
        | KeyAssignment::SplitVertical(_)
        | KeyAssignment::SplitPane(_)
        | KeyAssignment::AttachDomain(_)
        | KeyAssignment::DetachDomain(_)
        | KeyAssignment::SwitchToWorkspace { .. }
        | KeyAssignment::SwitchWorkspaceRelative(_)
        | KeyAssignment::MoveTab(_)
        | KeyAssignment::MoveTabRelative(_)
        | KeyAssignment::AdjustPaneSize(_, _)
        | KeyAssignment::TogglePaneZoomState
        | KeyAssignment::SetPaneZoomState(_)
        | KeyAssignment::RotatePanes(_)
        | KeyAssignment::CloseCurrentTab { .. }
        | KeyAssignment::CloseCurrentPane { .. }
        | KeyAssignment::HideApplication
        | KeyAssignment::QuitApplication
        | KeyAssignment::ReloadConfiguration => true,
        KeyAssignment::PaneSelect(args) => match args.mode {
            PaneSelectMode::Activate => false,
            PaneSelectMode::SwapWithActive
            | PaneSelectMode::SwapWithActiveKeepFocus
            | PaneSelectMode::MoveToNewTab
            | PaneSelectMode::MoveToNewWindow => true,
        },
        KeyAssignment::Multiple(actions) => {
            let mut i: usize = 0;
            while i < actions.len()
                invariant
                    i <= actions@.len(),
                    *action == KeyAssignment::Multiple(*actions),
                    forall|k: int| 0 <= k < i ==> !forbidden(#[trigger] actions@[k]),
                decreases actions@.len() - i,
            {
                let inner = &actions[i];
                proof {
                    assert(decreases_to!(*action => action->Multiple_0));
                    assert(decreases_to!(action->Multiple_0 => actions@[i as int]));
                }
                if is_forbidden_ui_action(inner) {
                    return true;
                }
                i += 1;
            }
            false
        },
        KeyAssignment::QuickSelectArgs(args) => match &args.action {
            Some(inner) => is_forbidden_ui_action(inner),
            None => false,
        },
        KeyAssignment::PromptInputLine(prompt) => is_forbidden_ui_action(&prompt.action),
        KeyAssignment::InputSelector(selector) => is_forbidden_ui_action(&selector.action),
        KeyAssignment::Confirmation(confirmation) => {
            if is_forbidden_ui_action(&confirmation.action) {
                return true;
            }
            match &confirmation.cancel {
                Some(inner) => is_forbidden_ui_action(inner),
                None => false,
            }
        },
        KeyAssignment::ToggleFullScreen
        | KeyAssignment::ToggleAlwaysOnTop
        | KeyAssignment::ToggleAlwaysOnBottom
        | KeyAssignment::SetWindowLevel
        | KeyAssignment::CopyTo(_)
        | KeyAssignment::CopyTextTo { .. }
        | KeyAssignment::PasteFrom(_)
        | KeyAssignment::ActivateTabRelative(_)
        | KeyAssignment::ActivateTabRelativeNoWrap(_)
        | KeyAssignment::IncreaseFontSize
        | KeyAssignment::DecreaseFontSize
        | KeyAssignment::ResetFontSize
        | KeyAssignment::ResetFontAndWindowSize
        | KeyAssignment::ActivateTab(_)
        | KeyAssignment::ActivateLastTab
        | KeyAssignment::SendString(_)
        | KeyAssignment::SendKey
        | KeyAssignment::Nop
        | KeyAssignment::DisableDefaultAssignment
        | KeyAssignment::Hide
        | KeyAssignment::Show
        | KeyAssignment::ScrollByPage
        | KeyAssignment::ScrollByLine(_)
        | KeyAssignment::ScrollByCurrentEventWheelDelta
        | KeyAssignment::ScrollToPrompt(_)
        | KeyAssignment::ScrollToTop
        | KeyAssignment::ScrollToBottom
        | KeyAssignment::ShowTabNavigator
        | KeyAssignment::ShowDebugOverlay
        | KeyAssignment::ShowLauncher
        | KeyAssignment::ShowLauncherArgs
        | KeyAssignment::ClearScrollback
        | KeyAssignment::Search
        | KeyAssignment::ActivateCopyMode
        | KeyAssignment::SelectTextAtMouseCursor
        | KeyAssignment::ExtendSelectionToMouseCursor
        | KeyAssignment::OpenLinkAtMouseCursor
        | KeyAssignment::ClearSelection
        | KeyAssignment::CompleteSelection(_)
        | KeyAssignment::CompleteSelectionOrOpenLinkAtMouseCursor(_)
        | KeyAssignment::StartWindowDrag
        | KeyAssignment::ActivatePaneDirection(_)
        | KeyAssignment::ActivatePaneByIndex(_)
        | KeyAssignment::EmitEvent(_)
        | KeyAssignment::QuickSelect
        | KeyAssignment::ActivateKeyTable { .. }
        | KeyAssignment::PopKeyTable
        | KeyAssignment::ClearKeyTableStack
        | KeyAssignment::CopyMode
        | KeyAssignment::CharSelect
        | KeyAssignment::ResetTerminal
        | KeyAssignment::OpenUri(_)
        | KeyAssignment::ActivateCommandPalette
        | KeyAssignment::ActivateWindow(_)
        | KeyAssignment::ActivateWindowRelative(_)
        | KeyAssignment::ActivateWindowRelativeNoWrap(_) => false,
    }
}

/// Whether an action is offered.
pub fn should_expose_ui_action(dmux_managed_gui: bool, action: &KeyAssignment) -> (yes: bool)
    ensures
        yes == (!dmux_managed_gui || !forbidden(*action)),
{
    !dmux_managed_gui || !is_forbidden_ui_action(action)
}

/// Whether an action is performed. What is offered is only a convenience:
/// actions also arrive from scripts, callbacks of the system, the mouse and
/// stale dialogs.
pub fn should_perform_native_action(dmux_managed_gui: bool, action: &KeyAssignment) -> (yes: bool)
    ensures
        yes == (!dmux_managed_gui || !forbidden(*action)),
{
    !dmux_managed_gui || !is_forbidden_ui_action(action)
}

/// Whether a click may close a tab by itself.
pub fn should_close_tab_directly(dmux_managed_gui: bool) -> (yes: bool)
    ensures
        yes == !dmux_managed_gui,
{
    !dmux_managed_gui
}

/// Whether the GUI may reload its configuration.
pub fn should_reload_gui_configuration(dmux_managed_gui: bool) -> (yes: bool)
    ensures
        yes == !dmux_managed_gui,
{
    !dmux_managed_gui
}

/// Whether performing one action can lead to the other: it is one of a list, or
/// it is done with what was selected, typed, chosen or answered.
pub open spec fn leads_to(action: KeyAssignment, inner: KeyAssignment) -> bool {
    match action {
        KeyAssignment::Multiple(actions) => actions@.contains(inner),
        KeyAssignment::QuickSelectArgs(args) => args.action is Some && *(args.action->0) == inner,
        KeyAssignment::PromptInputLine(prompt) => *prompt.action == inner,
        KeyAssignment::InputSelector(selector) => *selector.action == inner,
        KeyAssignment::Confirmation(confirmation) => *confirmation.action == inner || (
        confirmation.cancel is Some && *(confirmation.cancel->0) == inner),
        _ => false,
    }
}

/// A forbidden action cannot hide in another one: whatever can lead to it is
/// forbidden too.
pub proof fn law_nested_action_cannot_hide(action: KeyAssignment, inner: KeyAssignment)
    requires
        leads_to(action, inner),
        forbidden(inner),
    ensures
        forbidden(action),
{
    reveal_with_fuel(forbidden, 2);
    if let KeyAssignment::Multiple(actions) = action {
        let i = choose|i: int| 0 <= i < actions@.len() && actions@[i] == inner;
        assert(forbidden(actions@[i]));
    }
}

/// Refuses an attach that found no pane, so that it cannot go on to spawn one.
pub fn require_existing_panes_after_managed_attach(
    dmux_managed_gui: bool,
    is_connecting: bool,
    have_panes: bool,
) -> (result: Result<(), &'static str>)
    ensures
        match result {
            Ok(()) => !dmux_managed_gui || !is_connecting || have_panes,
            Err(reason) => dmux_managed_gui && is_connecting && !have_panes && reason@
                == "dmux-managed attach found no existing pane; refusing WezTerm's default-pane fallback"@,
        },
{
    if !dmux_managed_gui || !is_connecting || have_panes {
        Ok(())
    } else {
        Err("dmux-managed attach found no existing pane; refusing WezTerm's default-pane fallback")
    }
}

/// Refuses the safe quit where the GUI is not managed.
pub fn require_managed_safe_quit_api(dmux_managed_gui: bool) -> (result: Result<(), &'static str>)
    ensures
        match result {
            Ok(()) => dmux_managed_gui,
            Err(reason) => !dmux_managed_gui && reason@
                == "dmux_safe_quit_application is available only when dmux_managed_gui is enabled"@,
        },
{
    if dmux_managed_gui {
        Ok(())
    } else {
        Err("dmux_safe_quit_application is available only when dmux_managed_gui is enabled")
    }
}

/// Refuses the safe hide where the GUI is not managed.
pub fn require_managed_safe_hide_api(dmux_managed_gui: bool) -> (result: Result<(), &'static str>)
    ensures
        match result {
            Ok(()) => dmux_managed_gui,
            Err(reason) => !dmux_managed_gui && reason@
                == "dmux_safe_hide_application is available only when dmux_managed_gui is enabled"@,
        },
{
    if dmux_managed_gui {
        Ok(())
    } else {
        Err("dmux_safe_hide_application is available only when dmux_managed_gui is enabled")
    }
}

/// How the GUI was invoked.
#[derive(Clone, Copy, Debug)]
pub enum ManagedGuiStartupInvocation<'a> {
    Connect { domain: &'a str, new_tab: bool, has_workspace: bool, has_prog: bool },
    Start {
        domain: Option<&'a str>,
        attach: bool,
        always_new_process: bool,
        new_tab: bool,
        has_prog: bool,
        has_cwd: bool,
        has_workspace: bool,
    },
    NativeCreate,
}

/// Refuses to go on with the default configuration where the managed one could
/// not be loaded.
pub fn require_successful_managed_config_load(
    wez_first_requested: bool,
    config_error: Option<&str>,
) -> (result: Result<(), String>)
    ensures
        match (result, config_error) {
            (Ok(()), None) => true,
            (Ok(()), Some(_)) => !wez_first_requested,
            (Err(reason), Some(error)) => wez_first_requested && reason@
                == "dmux wez-first startup refused because the managed configuration failed to load: "@
                + error@,
            (Err(_), None) => false,
        },
{
    if !wez_first_requested {
        return Ok(());
    }
    match config_error {
        Some(error) => Err(
            "dmux wez-first startup refused because the managed configuration failed to load: ".to_owned().concat(
                error,
            ),
        ),
        None => Ok(()),
    }
}

/// A unix domain as the configuration declares it.
#[derive(Clone, Debug)]
pub struct UnixDomain {
    pub name: String,
    pub socket_path: Option<Vec<u8>>,
    pub connect_automatically: bool,
    pub no_serve_automatically: bool,
    pub serve_command: Option<Vec<String>>,
    pub proxy_command: Option<Vec<String>>,
    pub skip_permissions_check: bool,
}

impl Default for UnixDomain {
    fn default() -> (domain: Self)
        ensures
            domain.name@.len() == 0,
            domain.socket_path is None,
            !domain.connect_automatically,
            !domain.no_serve_automatically,
            domain.serve_command is None,
            domain.proxy_command is None,
            !domain.skip_permissions_check,
    {
        UnixDomain {
            name: String::new(),
            socket_path: None,
            connect_automatically: false,
            no_serve_automatically: false,
            serve_command: None,
            proxy_command: None,
            skip_permissions_check: false,
        }
    }
}

/// Whether a domain is exactly the broker's socket, served by nobody but the
/// broker.
pub open spec fn is_broker_domain(domain: UnixDomain, broker_socket: Seq<u8>) -> bool {
    &&& domain.name@ == "dmux"@
    &&& same_absolute(domain.socket_path->0@, broker_socket)
    &&& domain.no_serve_automatically
    &&& !domain.connect_automatically
    &&& domain.serve_command is None
    &&& domain.proxy_command is None
    &&& !domain.skip_permissions_check
}

/// Whether an invocation only attaches to the managed domain.
pub open spec fn attaches_only(invocation: ManagedGuiStartupInvocation<'_>) -> bool {
    match invocation {
        ManagedGuiStartupInvocation::Connect { domain, new_tab, has_workspace, has_prog } => domain@
            == "dmux"@ && !new_tab && !has_workspace && !has_prog,
        ManagedGuiStartupInvocation::Start {
            domain,
            attach,
            always_new_process,
            new_tab,
            has_prog,
            has_cwd,
            has_workspace,
        } => {
            &&& domain is Some
            &&& domain->0@ == "dmux"@
            &&& attach
            &&& always_new_process
            &&& !new_tab
            &&& !has_prog
            &&& !has_cwd
            &&& !has_workspace
        },
        ManagedGuiStartupInvocation::NativeCreate => false,
    }
}

/// Whether the startup arguments are `connect dmux`.
pub open spec fn are_attach_arguments(arguments: Seq<String>) -> bool {
    arguments.len() == 2 && arguments[0]@ == "connect"@ && arguments[1]@ == "dmux"@
}

/// The first reason why a requested managed startup is refused.
pub open spec fn startup_refusal(
    dmux_managed_gui: bool,
    arguments: Seq<String>,
    unix_domains: Seq<UnixDomain>,
    broker_socket: Option<&[u8]>,
    invocation: ManagedGuiStartupInvocation<'_>,
) -> Option<Seq<char>> {
    if !dmux_managed_gui {
        Some("dmux wez-first startup refused because dmux_managed_gui is not enabled"@)
    } else if !are_attach_arguments(arguments) {
        Some(
            "dmux wez-first startup refused because default_gui_startup_args is not attach-only"@,
        )
    } else if unix_domains.len() != 1 {
        Some(
            "dmux wez-first startup refused because the managed config must declare exactly one unix domain"@,
        )
    } else if unix_domains[0].socket_path is None {
        Some("dmux wez-first startup refused because the dmux domain has no socket"@)
    } else if broker_socket is None {
        Some(
            "dmux wez-first startup refused because the broker did not provide WEZTERM_UNIX_SOCKET"@,
        )
    } else if !is_broker_domain(unix_domains[0], broker_socket->0@) {
        Some(
            "dmux wez-first startup refused because the dmux unix domain does not match the broker's exact no-auto-start socket contract"@,
        )
    } else if !attaches_only(invocation) {
        Some(
            "dmux wez-first startup refused a native create path; use connect dmux or the frozen attach-only start command"@,
        )
    } else {
        None
    }
}

fn only_attaches(invocation: ManagedGuiStartupInvocation<'_>) -> (yes: bool)
    ensures
        yes == attaches_only(invocation),
{
    match invocation {
        ManagedGuiStartupInvocation::Connect {
            domain,
            new_tab,
            has_workspace,
            has_prog,
        } => same_text(domain, "dmux") && !new_tab && !has_workspace && !has_prog,
        ManagedGuiStartupInvocation::Start {
            domain,
            attach,
            always_new_process,
            new_tab,
            has_prog,
            has_cwd,
            has_workspace,
        } => {
            let named = match domain {
                Some(domain) => same_text(domain, "dmux"),
                None => false,
            };
            named && attach && always_new_process && !new_tab && !has_prog && !has_cwd
                && !has_workspace
        },
        ManagedGuiStartupInvocation::NativeCreate => false,
    }
}

/// Checks that a requested managed startup can do nothing but attach to the
/// broker's socket. Where none is requested, nothing is checked.
pub fn require_managed_startup_contract(
    wez_first_requested: bool,
    dmux_managed_gui: bool,
    default_gui_startup_args: &[String],
    unix_domains: &[UnixDomain],
    broker_socket: Option<&[u8]>,
    invocation: ManagedGuiStartupInvocation<'_>,
) -> (result: Result<(), &'static str>)
    ensures
        ({
            let refusal = startup_refusal(
                dmux_managed_gui,
                default_gui_startup_args@,
                unix_domains@,
                broker_socket,
                invocation,
            );
            match result {
                Ok(()) => !wez_first_requested || refusal is None,
                Err(reason) => wez_first_requested && refusal == Some(reason@),
            }
        }),
{
    if !wez_first_requested {
        return Ok(());
    }
    if !dmux_managed_gui {
        return Err("dmux wez-first startup refused because dmux_managed_gui is not enabled");
    }
    let attach_arguments = default_gui_startup_args.len() == 2 && same_text(
        default_gui_startup_args[0].as_str(),
        "connect",
    ) && same_text(default_gui_startup_args[1].as_str(), "dmux");
    if !attach_arguments {
        return Err(
            "dmux wez-first startup refused because default_gui_startup_args is not attach-only",
        );
    }
    if unix_domains.len() != 1 {
        return Err(
            "dmux wez-first startup refused because the managed config must declare exactly one unix domain",
        );
    }
    let domain = &unix_domains[0];
    let socket = match &domain.socket_path {
        Some(socket) => socket,
        None => {
            return Err("dmux wez-first startup refused because the dmux domain has no socket");
        },
    };
    let broker_socket = match broker_socket {
        Some(broker_socket) => broker_socket,
        None => {
            return Err(
                "dmux wez-first startup refused because the broker did not provide WEZTERM_UNIX_SOCKET",
            );
        },
    };
    let exact = same_text(domain.name.as_str(), "dmux") && same_absolute_path(
        socket.as_slice(),
        broker_socket,
    ) && domain.no_serve_automatically && !domain.connect_automatically
        && domain.serve_command.is_none() && domain.proxy_command.is_none()
        && !domain.skip_permissions_check;
    if !exact {
        return Err(
            "dmux wez-first startup refused because the dmux unix domain does not match the broker's exact no-auto-start socket contract",
        );
    }
    if !only_attaches(invocation) {
        return Err(
            "dmux wez-first startup refused a native create path; use connect dmux or the frozen attach-only start command",
        );
    }
    Ok(())
}

/// A managed startup that is let through only attaches, to an absolute socket.
pub proof fn law_managed_startup_only_attaches(
    dmux_managed_gui: bool,
    arguments: Seq<String>,
    unix_domains: Seq<UnixDomain>,
    broker_socket: Option<&[u8]>,
    invocation: ManagedGuiStartupInvocation<'_>,
)
    requires
        startup_refusal(dmux_managed_gui, arguments, unix_domains, broker_socket, invocation)
            is None,
    ensures
        dmux_managed_gui,
        !(invocation is NativeCreate),
        attaches_only(invocation),
        unix_domains.len() == 1,
        unix_domains[0].no_serve_automatically,
        broker_socket is Some,
        is_absolute(broker_socket->0@),
{
}

/// Of the actions that hold no other one, exactly those are forbidden that spawn,
/// split, attach, detach, switch a workspace, move, resize, zoom, rotate, close,
/// hide, quit or reload, and the choice of a pane for anything but its activation.
pub proof fn law_layout_actions_are_forbidden(action: KeyAssignment)
    requires
        forall|inner: KeyAssignment| !leads_to(action, inner),
    ensures
        forbidden(action) <==> {
            ||| action is SpawnTab
            ||| action is SpawnWindow
            ||| action is SpawnCommandInNewTab
            ||| action is SpawnCommandInNewWindow
            ||| action is SplitHorizontal
            ||| action is SplitVertical
            ||| action is SplitPane
            ||| action is AttachDomain
            ||| action is DetachDomain
            ||| action is SwitchToWorkspace
            ||| action is SwitchWorkspaceRelative
            ||| action is MoveTab
            ||| action is MoveTabRelative
            ||| action is AdjustPaneSize
            ||| action is TogglePaneZoomState
            ||| action is SetPaneZoomState
            ||| action is RotatePanes
            ||| action is CloseCurrentTab
            ||| action is CloseCurrentPane
            ||| action is HideApplication
            ||| action is QuitApplication
            ||| action is ReloadConfiguration
            ||| action is PaneSelect && action->PaneSelect_0.mode != PaneSelectMode::Activate
        },
{
    match action {
        KeyAssignment::Multiple(actions) => {
            if actions@.len() > 0 {
                assert(actions@.contains(actions@[0]));
                assert(leads_to(action, actions@[0]));
            }
        },
        KeyAssignment::QuickSelectArgs(args) => {
            if args.action is Some {
                assert(leads_to(action, *(args.action->0)));
            }
        },
        KeyAssignment::PromptInputLine(prompt) => {
            assert(leads_to(action, *prompt.action));
        },
        KeyAssignment::InputSelector(selector) => {
            assert(leads_to(action, *selector.action));
        },
        KeyAssignment::Confirmation(confirmation) => {
            assert(leads_to(action, *confirmation.action));
        },
        _ => {},
    }
}

/// An action that holds others is forbidden for one of them only.
pub proof fn law_wrapping_alone_is_not_forbidden(action: KeyAssignment)
    requires
        action is Multiple || action is QuickSelectArgs || action is PromptInputLine
            || action is InputSelector || action is Confirmation,
        forbidden(action),
    ensures
        exists|inner: KeyAssignment| #[trigger] leads_to(action, inner) && forbidden(inner),
{
    match action {
        KeyAssignment::Multiple(actions) => {
            let i = choose|i: int| 0 <= i < actions@.len() && forbidden(#[trigger] actions@[i]);
            assert(actions@.contains(actions@[i]));
            assert(leads_to(action, actions@[i]));
        },
        KeyAssignment::QuickSelectArgs(args) => {
            assert(leads_to(action, *(args.action->0)));
        },
        KeyAssignment::PromptInputLine(prompt) => {
            assert(leads_to(action, *prompt.action));
        },
        KeyAssignment::InputSelector(selector) => {
            assert(leads_to(action, *selector.action));
        },
        KeyAssignment::Confirmation(confirmation) => {
            if forbidden(*confirmation.action) {
                assert(leads_to(action, *confirmation.action));
            } else {
                assert(leads_to(action, *(confirmation.cancel->0)));
            }
        },
        _ => {},
    }
}

/// A managed startup is accepted exactly where the configuration is managed, its
/// arguments attach to the one domain, that domain is the broker's socket and
/// neither starts nor proxies a server, and the invocation attaches and creates
/// nothing.
pub proof fn law_attaching_startup_is_accepted(
    dmux_managed_gui: bool,
    arguments: Seq<String>,
    unix_domains: Seq<UnixDomain>,
    broker_socket: Option<&[u8]>,
    invocation: ManagedGuiStartupInvocation<'_>,
)
    ensures
        startup_refusal(dmux_managed_gui, arguments, unix_domains, broker_socket, invocation)
            is None <==> {
            let domain = unix_domains[0];
            &&& dmux_managed_gui
            &&& arguments.len() == 2
            &&& arguments[0]@ == "connect"@
            &&& arguments[1]@ == "dmux"@
            &&& unix_domains.len() == 1
            &&& domain.name@ == "dmux"@
            &&& domain.socket_path is Some
            &&& broker_socket is Some
            &&& same_absolute(domain.socket_path->0@, broker_socket->0@)
            &&& domain.no_serve_automatically
            &&& !domain.connect_automatically
            &&& domain.serve_command is None
            &&& domain.proxy_command is None
            &&& !domain.skip_permissions_check
            &&& match invocation {
                ManagedGuiStartupInvocation::Connect {
                    domain,
                    new_tab,
                    has_workspace,
                    has_prog,
                } => domain@ == "dmux"@ && !new_tab && !has_workspace && !has_prog,
                ManagedGuiStartupInvocation::Start {
                    domain,
                    attach,
                    always_new_process,
                    new_tab,
                    has_prog,
                    has_cwd,
                    has_workspace,
                } => domain is Some && domain->0@ == "dmux"@ && attach && always_new_process
                    && !new_tab && !has_prog && !has_cwd && !has_workspace,
                ManagedGuiStartupInvocation::NativeCreate => false,
            }
        },
{
}

} // verus!
