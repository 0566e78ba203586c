//! The multiplexer's state as plain values: windows hold tabs, tabs hold panes,
//! and clients follow workspaces.

use vstd::prelude::*;

verus! {

pub type PaneId = usize;

pub type TabId = usize;

pub type WindowId = usize;

pub type DomainId = usize;

/// The number by which an attached client is known.
pub type ClientId = usize;

/// The workspace of a process that configures none.
pub const DEFAULT_WORKSPACE: &'static str = "default";

/// The size of a terminal, in cells and in pixels.
#[derive(Clone, Copy, Debug, PartialEq, Eq, Structural)]
pub struct TerminalSize {
    pub rows: usize,
    pub cols: usize,
    pub pixel_width: usize,
    pub pixel_height: usize,
    pub dpi: u32,
}

/// A pane that is known to the multiplexer.
#[derive(Clone, Copy, Debug, PartialEq, Eq, Structural)]
pub struct Pane {
    pub pane_id: PaneId,
    pub domain_id: DomainId,
}

/// A pane's place in a tab.
#[derive(Clone, Copy, Debug, PartialEq, Eq, Structural)]
pub struct TabPane {
    pub pane_id: PaneId,
    pub domain_id: DomainId,
    pub dead: bool,
}

/// A tab: its panes, whether it is known to the multiplexer by its number, the
/// pane that has the focus, and its size.
#[derive(Debug)]
pub struct Tab {
    pub tab_id: TabId,
    pub registered: bool,
    pub panes: Vec<TabPane>,
    pub active_pane: Option<PaneId>,
    pub size: TerminalSize,
}

/// The view of a [`Tab`].
#[verifier::ext_equal]
pub struct TabView {
    pub tab_id: TabId,
    pub registered: bool,
    pub panes: Seq<TabPane>,
    pub active_pane: Option<PaneId>,
    pub size: TerminalSize,
}

impl View for Tab {
    type V = TabView;

    open spec fn view(&self) -> TabView {
        TabView {
            tab_id: self.tab_id,
            registered: self.registered,
            panes: self.panes@,
            active_pane: self.active_pane,
            size: self.size,
        }
    }
}

/// A window: its workspace, the numbers of its tabs in their order, and the
/// place of the active one.
#[derive(Debug)]
pub struct Window {
    pub window_id: WindowId,
    pub workspace: String,
    pub tabs: Vec<TabId>,
    pub active: usize,
}

/// The view of a [`Window`].
#[verifier::ext_equal]
pub struct WindowView {
    pub window_id: WindowId,
    pub workspace: Seq<char>,
    pub tabs: Seq<TabId>,
    pub active: usize,
}

impl View for Window {
    type V = WindowView;

    open spec fn view(&self) -> WindowView {
        WindowView {
            window_id: self.window_id,
            workspace: self.workspace@,
            tabs: self.tabs@,
            active: self.active,
        }
    }
}

/// An attached client: the workspace that it follows and the pane that it has
/// the focus on.
#[derive(Debug)]
pub struct ClientInfo {
    pub client_id: ClientId,
    pub active_workspace: Option<String>,
    pub focused_pane_id: Option<PaneId>,
}

/// The view of a [`ClientInfo`].
#[verifier::ext_equal]
pub struct ClientView {
    pub client_id: ClientId,
    pub active_workspace: Option<Seq<char>>,
    pub focused_pane_id: Option<PaneId>,
}

impl View for ClientInfo {
    type V = ClientView;

    open spec fn view(&self) -> ClientView {
        ClientView {
            client_id: self.client_id,
            active_workspace: crate::text::optional_string(self.active_workspace),
            focused_pane_id: self.focused_pane_id,
        }
    }
}

/// A domain in which panes are spawned.
#[derive(Debug)]
pub struct Domain {
    pub domain_id: DomainId,
    pub name: String,
    pub detachable: bool,
}

/// The view of a [`Domain`].
#[verifier::ext_equal]
pub struct DomainView {
    pub domain_id: DomainId,
    pub name: Seq<char>,
    pub detachable: bool,
}

impl View for Domain {
    type V = DomainView;

    open spec fn view(&self) -> DomainView {
        DomainView {
            domain_id: self.domain_id,
            name: self.name@,
            detachable: self.detachable,
        }
    }
}

/// Where a new tab or pane is spawned.
#[derive(Clone, Debug, PartialEq, Eq)]
pub enum SpawnTabDomain {
    DefaultDomain,
    CurrentPaneDomain,
    DomainName(String),
    DomainId(DomainId),
}

/// The view of a [`SpawnTabDomain`].
pub enum SpawnDomainView {
    DefaultDomain,
    CurrentPaneDomain,
    DomainName(Seq<char>),
    DomainId(DomainId),
}

impl View for SpawnTabDomain {
    type V = SpawnDomainView;

    open spec fn view(&self) -> SpawnDomainView {
        match *self {
            SpawnTabDomain::DefaultDomain => SpawnDomainView::DefaultDomain,
            SpawnTabDomain::CurrentPaneDomain => SpawnDomainView::CurrentPaneDomain,
            SpawnTabDomain::DomainName(name) => SpawnDomainView::DomainName(name@),
            SpawnTabDomain::DomainId(id) => SpawnDomainView::DomainId(id),
        }
    }
}

/// Which of the two selections a pane assigns.
#[derive(Clone, Copy, Debug, PartialEq, Eq, Structural)]
pub enum ClipboardSelection {
    Clipboard,
    PrimarySelection,
}

/// What subscribers are told.
#[derive(Debug)]
pub enum MuxNotification {
    PaneOutput(PaneId),
    PaneAdded(PaneId),
    PaneRemoved(PaneId),
    WindowCreated(WindowId),
    WindowRemoved(WindowId),
    WindowInvalidated(WindowId),
    WindowWorkspaceChanged(WindowId),
    ActiveWorkspaceChanged(ClientId),
    Alert { pane_id: PaneId },
    Empty,
    AssignClipboard {
        pane_id: PaneId,
        selection: ClipboardSelection,
        clipboard: Option<String>,
    },
    SaveToDownloads { name: Option<String>, data: Vec<u8> },
    TabAddedToWindow { tab_id: TabId, window_id: WindowId },
    PaneFocused(PaneId),
    TabResized(TabId),
    TabTitleChanged { tab_id: TabId, title: String },
    WindowTitleChanged { window_id: WindowId, title: String },
    WorkspaceRenamed { old_workspace: String, new_workspace: String },
}

/// What the multiplexer has to do outside itself, in order: tell subscribers, act
/// on a pane, or note when a client last had input.
#[derive(Debug)]
pub enum MuxEffect {
    Notify(MuxNotification),
    KillPane(PaneId),
    FocusChanged { pane_id: PaneId, focused: bool },
    ActivatePane { tab_id: TabId, pane_id: PaneId },
    UpdateAgentTarget,
    /// Note the time as that of a client's last input.
    StampInput(ClientId),
    /// Give a pane the handlers of its clipboard and of its downloads.
    AttachHandlers(PaneId),
    StartReader { pane_id: PaneId, banner: Option<String> },
}

/// The view of a [`MuxNotification`].
pub enum NotificationView {
    PaneOutput(PaneId),
    PaneAdded(PaneId),
    PaneRemoved(PaneId),
    WindowCreated(WindowId),
    WindowRemoved(WindowId),
    WindowInvalidated(WindowId),
    WindowWorkspaceChanged(WindowId),
    ActiveWorkspaceChanged(ClientId),
    Alert { pane_id: PaneId },
    Empty,
    AssignClipboard {
        pane_id: PaneId,
        selection: ClipboardSelection,
        clipboard: Option<Seq<char>>,
    },
    SaveToDownloads { name: Option<Seq<char>>, data: Seq<u8> },
    TabAddedToWindow { tab_id: TabId, window_id: WindowId },
    PaneFocused(PaneId),
    TabResized(TabId),
    TabTitleChanged { tab_id: TabId, title: Seq<char> },
    WindowTitleChanged { window_id: WindowId, title: Seq<char> },
    WorkspaceRenamed { old_workspace: Seq<char>, new_workspace: Seq<char> },
}

/// The view of a [`MuxEffect`].
pub enum EffectView {
    Notify(NotificationView),
    KillPane(PaneId),
    FocusChanged { pane_id: PaneId, focused: bool },
    ActivatePane { tab_id: TabId, pane_id: PaneId },
    UpdateAgentTarget,
    StampInput(ClientId),
    AttachHandlers(PaneId),
    StartReader { pane_id: PaneId, banner: Option<Seq<char>> },
}

impl View for MuxNotification {
    type V = NotificationView;

    open spec fn view(&self) -> NotificationView {
        match *self {
            MuxNotification::PaneOutput(id) => NotificationView::PaneOutput(id),
            MuxNotification::PaneAdded(id) => NotificationView::PaneAdded(id),
            MuxNotification::PaneRemoved(id) => NotificationView::PaneRemoved(id),
            MuxNotification::WindowCreated(id) => NotificationView::WindowCreated(id),
            MuxNotification::WindowRemoved(id) => NotificationView::WindowRemoved(id),
            MuxNotification::WindowInvalidated(id) => NotificationView::WindowInvalidated(id),
            MuxNotification::WindowWorkspaceChanged(id) => NotificationView::WindowWorkspaceChanged(
                id,
            ),
            MuxNotification::ActiveWorkspaceChanged(id) => NotificationView::ActiveWorkspaceChanged(
                id,
            ),
            MuxNotification::Alert { pane_id } => NotificationView::Alert { pane_id },
            MuxNotification::Empty => NotificationView::Empty,
            MuxNotification::AssignClipboard { pane_id, selection, clipboard } =>
                NotificationView::AssignClipboard {
                pane_id,
                selection,
                clipboard: crate::text::optional_string(clipboard),
            },
            MuxNotification::SaveToDownloads { name, data } => NotificationView::SaveToDownloads {
                name: crate::text::optional_string(name),
                data: data@,
            },
            MuxNotification::TabAddedToWindow { tab_id, window_id } =>
                NotificationView::TabAddedToWindow { tab_id, window_id },
            MuxNotification::PaneFocused(id) => NotificationView::PaneFocused(id),
            MuxNotification::TabResized(id) => NotificationView::TabResized(id),
            MuxNotification::TabTitleChanged { tab_id, title } =>
                NotificationView::TabTitleChanged { tab_id, title: title@ },
            MuxNotification::WindowTitleChanged { window_id, title } =>
                NotificationView::WindowTitleChanged { window_id, title: title@ },
            MuxNotification::WorkspaceRenamed { old_workspace, new_workspace } =>
                NotificationView::WorkspaceRenamed {
                old_workspace: old_workspace@,
                new_workspace: new_workspace@,
            },
        }
    }
}

impl View for MuxEffect {
    type V = EffectView;

    open spec fn view(&self) -> EffectView {
        match *self {
            MuxEffect::Notify(notification) => EffectView::Notify(notification@),
            MuxEffect::KillPane(id) => EffectView::KillPane(id),
            MuxEffect::FocusChanged { pane_id, focused } => EffectView::FocusChanged {
                pane_id,
                focused,
            },
            MuxEffect::ActivatePane { tab_id, pane_id } => EffectView::ActivatePane {
                tab_id,
                pane_id,
            },
            MuxEffect::UpdateAgentTarget => EffectView::UpdateAgentTarget,
            MuxEffect::StampInput(id) => EffectView::StampInput(id),
            MuxEffect::AttachHandlers(id) => EffectView::AttachHandlers(id),
            MuxEffect::StartReader { pane_id, banner } => EffectView::StartReader {
                pane_id,
                banner: crate::text::optional_string(banner),
            },
        }
    }
}

/// The views of a row of values.
pub open spec fn views<T: View>(row: Seq<T>) -> Seq<T::V> {
    row.map_values(|x: T| x@)
}

/// The view of a multiplexer.
#[verifier::ext_equal]
pub struct MuxView {
    pub windows: Seq<WindowView>,
    pub tabs: Seq<TabView>,
    pub panes: Seq<Pane>,
    pub domains: Seq<DomainView>,
    pub domains_by_name: Seq<DomainView>,
    pub default_domain: Option<DomainView>,
    pub clients: Seq<ClientView>,
    pub identity: Option<ClientId>,
    pub occupied: Set<Seq<char>>,
    pub banner: Option<Seq<char>>,
    pub default_workspace: Option<Seq<char>>,
    pub has_agent: bool,
    pub activity: usize,
    pub effects: Seq<EffectView>,
}

/// The numbers of a row of windows.
pub open spec fn window_ids(windows: Seq<WindowView>) -> Seq<WindowId> {
    windows.map_values(|w: WindowView| w.window_id)
}

/// The numbers of a row of tabs.
pub open spec fn tab_ids(tabs: Seq<TabView>) -> Seq<TabId> {
    tabs.map_values(|t: TabView| t.tab_id)
}

/// The numbers of a row of panes.
pub open spec fn pane_ids(panes: Seq<Pane>) -> Seq<PaneId> {
    panes.map_values(|p: Pane| p.pane_id)
}

/// The numbers of the panes in a tab.
pub open spec fn tab_pane_ids(panes: Seq<TabPane>) -> Seq<PaneId> {
    panes.map_values(|p: TabPane| p.pane_id)
}

/// The numbers of a row of clients.
pub open spec fn client_ids(clients: Seq<ClientView>) -> Seq<ClientId> {
    clients.map_values(|c: ClientView| c.client_id)
}

/// The numbers of domains.
pub open spec fn domain_ids(domains: Seq<DomainView>) -> Seq<DomainId> {
    domains.map_values(|d: DomainView| d.domain_id)
}

impl MuxView {
    /// The windows by their numbers.
    pub open spec fn has_window(self, window_id: WindowId) -> bool {
        window_ids(self.windows).contains(window_id)
    }

    /// The window with this number.
    pub open spec fn window(self, window_id: WindowId) -> WindowView {
        self.windows[window_ids(self.windows).index_of(window_id)]
    }

    /// Whether a tab with this number is known.
    pub open spec fn has_tab(self, tab_id: TabId) -> bool {
        tab_ids(self.tabs).contains(tab_id) && self.tab(tab_id).registered
    }

    /// The tab with this number.
    pub open spec fn tab(self, tab_id: TabId) -> TabView {
        self.tabs[tab_ids(self.tabs).index_of(tab_id)]
    }

    /// Whether a pane with this number is known.
    pub open spec fn has_pane(self, pane_id: PaneId) -> bool {
        pane_ids(self.panes).contains(pane_id)
    }

    /// Whether a client with this number is attached.
    pub open spec fn has_client(self, client_id: ClientId) -> bool {
        client_ids(self.clients).contains(client_id)
    }

    /// The client with this number.
    pub open spec fn client(self, client_id: ClientId) -> ClientView {
        self.clients[client_ids(self.clients).index_of(client_id)]
    }

    /// What every operation keeps: numbers are unique, no window lists a tab
    /// twice, no tab lists a pane twice, and every tab that a window lists is
    /// there.
    pub open spec fn wf(self) -> bool {
        &&& window_ids(self.windows).no_duplicates()
        &&& tab_ids(self.tabs).no_duplicates()
        &&& pane_ids(self.panes).no_duplicates()
        &&& client_ids(self.clients).no_duplicates()
        &&& forall|i: int|
            0 <= i < self.windows.len() ==> (#[trigger] self.windows[i]).tabs.no_duplicates()
        &&& forall|i: int|
            0 <= i < self.tabs.len() ==> tab_pane_ids(
                (#[trigger] self.tabs[i]).panes,
            ).no_duplicates()
        &&& forall|i: int, k: int|
            0 <= i < self.windows.len() && 0 <= k < self.windows[i].tabs.len() ==> tab_ids(
                self.tabs,
            ).contains(#[trigger] self.windows[i].tabs[k])
    }
}

} // verus!
