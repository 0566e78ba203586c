//! What follows for the multiplexer from a focus, a client, a new pane, tab or
//! window, and the choice of the window for a new tab.

use crate::mux::{
    occupied_workspaces, pane_location, pane_removed, tab_removed, window_holds_pane, window_removed,
};
use crate::mux_laws::law_located_pane_is_in_its_place;
use crate::mux_model::{
    client_ids, pane_ids, tab_ids, window_ids, ClientId, ClientView, EffectView, MuxView,
    NotificationView, Pane, PaneId, TabId, TabView, TerminalSize, WindowId, WindowView,
};
use crate::mux_ops::{
    client_focuses, client_follows, clients_without, current_workspace, input_noted, new_client,
    workspace_of_client,
};
use crate::placement::{
    active_tab, focused, move_target, move_window_announced, move_window_made, spawn_window,
};
use crate::population::{
    counted_down, counted_up, empty_window, pane_added, tab_added_to_window, tab_known, window_put,
};
use crate::workspace::{cas_refusal, cas_state, workspace_renamed};
use vstd::prelude::*;

verus! {

/// The focus on a pane makes it the active pane of its tab, and its tab the active
/// one of its window. No other window or tab changes, and no pane, client or
/// workspace does. It is refused exactly where the pane is unknown or in no
/// window.
pub proof fn law_focus_reaches_the_pane(m: MuxView, pane_id: PaneId)
    requires
        m.wf(),
        forall|i: int| 0 <= i < m.windows.len() ==> (#[trigger] m.windows[i]).tabs.len() <= usize::MAX,
    ensures
        focused(m, pane_id) is Ok <==> m.has_pane(pane_id) && pane_location(m, pane_id) is Some,
        focused(m, pane_id) matches Ok(after) ==> {
            let (_, window_id, tab_id) = pane_location(m, pane_id)->0;
            &&& after.windows.len() == m.windows.len()
            &&& after.tabs.len() == m.tabs.len()
            &&& forall|i: int|
                0 <= i < m.windows.len() ==> if (#[trigger] m.windows[i]).window_id == window_id {
                    &&& after.windows[i].tabs == m.windows[i].tabs
                    &&& after.windows[i].workspace == m.windows[i].workspace
                    &&& after.windows[i].window_id == window_id
                    &&& after.windows[i].active < after.windows[i].tabs.len()
                    &&& after.windows[i].tabs[after.windows[i].active as int] == tab_id
                } else {
                    after.windows[i] == m.windows[i]
                }
            &&& forall|i: int|
                0 <= i < m.tabs.len() ==> (#[trigger] after.tabs[i]) == if m.tabs[i].tab_id
                    == tab_id {
                    TabView { active_pane: Some(pane_id), ..m.tabs[i] }
                } else {
                    m.tabs[i]
                }
            &&& after.panes == m.panes
            &&& after.clients == m.clients
            &&& after.occupied == m.occupied
            &&& after.effects == m.effects.push(EffectView::ActivatePane { tab_id, pane_id })
        },
{
    if focused(m, pane_id) is Ok {
        law_located_pane_is_in_its_place(m, pane_id);
        let after = focused(m, pane_id)->Ok_0;
        let (domain_id, window_id, tab_id) = pane_location(m, pane_id)->0;
        let j = choose|j: int|
            0 <= j < m.windows.len() && (#[trigger] m.windows[j]).window_id == window_id
                && m.windows[j].tabs.contains(tab_id);
        let wids = window_ids(m.windows);
        assert(wids[j] == window_id);
        let at = wids.index_of(window_id);
        assert(wids[at] == window_id);
        assert(at == j);
        let tabs = m.windows[j].tabs;
        assert(tabs[tabs.index_of(tab_id)] == tab_id);
        assert forall|i: int| 0 <= i < m.windows.len() && i != j implies (
        #[trigger] m.windows[i]).window_id != window_id by {
            assert(wids[i] != wids[j]);
        }
        let tids = tab_ids(m.tabs);
        let (i, k) = choose|i: int, k: int|
            0 <= i < m.tabs.len() && 0 <= k < m.tabs[i].panes.len() && m.tabs[i].registered
                && m.tabs[i].tab_id == tab_id && (#[trigger] m.tabs[i].panes[k]).pane_id == pane_id
                && m.tabs[i].panes[k].domain_id == domain_id;
        assert(tids[i] == tab_id);
        let place = tids.index_of(tab_id);
        assert(tids[place] == tab_id);
        assert(place == i);
        assert forall|x: int| 0 <= x < m.tabs.len() && x != i implies (
        #[trigger] m.tabs[x]).tab_id != tab_id by {
            assert(tids[x] != tids[i]);
        }
    }
}

proof fn lemma_client_place(m: MuxView, client_id: ClientId)
    requires
        m.wf(),
        m.has_client(client_id),
    ensures
        0 <= client_ids(m.clients).index_of(client_id) < m.clients.len(),
        m.clients[client_ids(m.clients).index_of(client_id)].client_id == client_id,
        forall|i: int|
            0 <= i < m.clients.len() && i != client_ids(m.clients).index_of(client_id) ==> (
            #[trigger] m.clients[i]).client_id != client_id,
{
    let ids = client_ids(m.clients);
    let at = ids.index_of(client_id);
    assert(ids[at] == client_id);
    assert forall|i: int| 0 <= i < m.clients.len() && i != at implies (
    #[trigger] m.clients[i]).client_id != client_id by {
        assert(ids[i] != ids[at]);
    }
}

/// An attached client follows the workspace that it was given, and that is
/// reported. What it has the focus on, every other client and all the rest stay.
/// A client that is not attached changes nothing.
pub proof fn law_client_follows_the_given_workspace(
    m: MuxView,
    client_id: ClientId,
    workspace: Seq<char>,
)
    requires
        m.wf(),
    ensures
        ({
            let after = client_follows(m, client_id, workspace);
            &&& !m.has_client(client_id) ==> after == m
            &&& m.has_client(client_id) ==> workspace_of_client(after, client_id) == workspace
                && after.effects == m.effects.push(
                EffectView::Notify(NotificationView::ActiveWorkspaceChanged(client_id)),
            )
            &&& after.clients.len() == m.clients.len()
            &&& forall|i: int|
                0 <= i < m.clients.len() ==> {
                    &&& (#[trigger] after.clients[i]).client_id == m.clients[i].client_id
                    &&& after.clients[i].focused_pane_id == m.clients[i].focused_pane_id
                    &&& m.clients[i].client_id != client_id ==> after.clients[i] == m.clients[i]
                }
            &&& after.windows == m.windows
            &&& after.tabs == m.tabs
            &&& after.panes == m.panes
            &&& after.identity == m.identity
        }),
{
    if m.has_client(client_id) {
        lemma_client_place(m, client_id);
        let after = client_follows(m, client_id, workspace);
        assert(client_ids(after.clients) =~= client_ids(m.clients));
    }
}

/// The workspace in effect is the one that the current client follows, else the
/// configured one, else the one named `default`.
pub proof fn law_workspace_in_effect(m: MuxView)
    ensures
        ({
            let configured = if m.default_workspace is Some {
                m.default_workspace->0
            } else {
                "default"@
            };
            &&& m.identity is None ==> current_workspace(m) == configured
            &&& m.identity is Some && !m.has_client(m.identity->0) ==> current_workspace(m)
                == configured
            &&& m.identity is Some && m.has_client(m.identity->0) ==> current_workspace(m) == if m.client(
                m.identity->0,
            ).active_workspace is Some {
                m.client(m.identity->0).active_workspace->0
            } else {
                configured
            }
        }),
{
}

/// An attached client has the focus on the pane that it was recorded for. Where it
/// had another one, that pane is told that it lost the focus and then this one
/// that it has it, each as far as it is known. Nothing else changes.
pub proof fn law_recorded_focus_is_kept(m: MuxView, client_id: ClientId, pane_id: PaneId)
    requires
        m.wf(),
    ensures
        ({
            let after = client_focuses(m, client_id, pane_id);
            let prior = if m.has_client(client_id) {
                m.client(client_id).focused_pane_id
            } else {
                None
            };
            let lost = if prior is Some && prior->0 != pane_id && m.has_pane(prior->0) {
                seq![EffectView::FocusChanged { pane_id: prior->0, focused: false }]
            } else {
                Seq::empty()
            };
            let gained = if prior != Some(pane_id) && m.has_pane(pane_id) {
                seq![EffectView::FocusChanged { pane_id, focused: true }]
            } else {
                Seq::empty()
            };
            &&& m.has_client(client_id) ==> after.has_client(client_id) && after.client(
                client_id,
            ).focused_pane_id == Some(pane_id)
            &&& after.effects == m.effects + lost + gained
            &&& after.clients.len() == m.clients.len()
            &&& forall|i: int|
                0 <= i < m.clients.len() ==> {
                    &&& (#[trigger] after.clients[i]).client_id == m.clients[i].client_id
                    &&& after.clients[i].active_workspace == m.clients[i].active_workspace
                    &&& m.clients[i].client_id != client_id ==> after.clients[i] == m.clients[i]
                }
            &&& after.windows == m.windows
            &&& after.tabs == m.tabs
            &&& after.panes == m.panes
            &&& after.identity == m.identity
        }),
{
    if m.has_client(client_id) {
        lemma_client_place(m, client_id);
    }
    let after = client_focuses(m, client_id, pane_id);
    assert(client_ids(after.clients) =~= client_ids(m.clients));
    let none = Seq::<EffectView>::empty();
    assert(m.effects + none + none =~= m.effects);
    let prior = if m.has_client(client_id) {
        m.client(client_id).focused_pane_id
    } else {
        None
    };
    let on = EffectView::FocusChanged { pane_id, focused: true };
    assert(m.effects + none + seq![on] =~= m.effects.push(on));
    if let Some(left) = prior {
        let off = EffectView::FocusChanged { pane_id: left, focused: false };
        assert(m.effects + seq![off] + none =~= m.effects.push(off));
        assert(m.effects + seq![off] + seq![on] =~= m.effects.push(off).push(on));
    }
}

/// The input of an attached client is stamped, and an agent is told where there
/// is one; nothing else changes.
pub proof fn law_input_is_stamped_for_its_client(m: MuxView, client_id: ClientId)
    ensures
        ({
            let after = input_noted(m, client_id);
            let stamp = if m.has_client(client_id) {
                seq![EffectView::StampInput(client_id)]
            } else {
                Seq::empty()
            };
            let agent = if m.has_agent {
                seq![EffectView::UpdateAgentTarget]
            } else {
                Seq::empty()
            };
            after == MuxView { effects: m.effects + stamp + agent, ..m }
        }),
{
    let none = Seq::<EffectView>::empty();
    let stamp = EffectView::StampInput(client_id);
    let agent = EffectView::UpdateAgentTarget;
    assert(m.effects + none + none =~= m.effects);
    assert(m.effects + seq![stamp] + none =~= m.effects.push(stamp));
    assert(m.effects + none + seq![agent] =~= m.effects.push(agent));
    assert(m.effects + seq![stamp] + seq![agent] =~= m.effects.push(stamp).push(agent));
}

/// A client that is detached is gone, and one that is attached is there once and
/// starts with neither a workspace nor a focus. The others stay.
pub proof fn law_clients_come_and_go(m: MuxView, client_id: ClientId)
    ensures
        forall|c: ClientView| #[trigger]
            clients_without(m.clients, client_id).contains(c) <==> m.clients.contains(c)
                && c.client_id != client_id,
        new_client(client_id).client_id == client_id,
        new_client(client_id).active_workspace is None,
        new_client(client_id).focused_pane_id is None,
{
    crate::mux::lemma_filter_members(m.clients, |c: ClientView| c.client_id != client_id);
}

/// A new pane is known from then on, behind all others, and gets its handlers. If
/// its reader could be made, it is started exactly where there is something to
/// read, with the banner, and the pane is reported. A pane that is known already
/// changes nothing.
pub proof fn law_added_pane_is_known(m: MuxView, pane: Pane, reader: Result<bool, Seq<char>>)
    ensures
        ({
            let after = pane_added(m, pane, reader);
            let handlers = EffectView::AttachHandlers(pane.pane_id);
            let start = EffectView::StartReader { pane_id: pane.pane_id, banner: m.banner };
            let report = EffectView::Notify(NotificationView::PaneAdded(pane.pane_id));
            &&& after.has_pane(pane.pane_id)
            &&& m.has_pane(pane.pane_id) ==> after == m
            &&& !m.has_pane(pane.pane_id) ==> {
                &&& after.panes == m.panes.push(pane)
                &&& reader is Err ==> after.effects == m.effects.push(handlers)
                &&& reader == Ok::<bool, Seq<char>>(true) ==> after.effects == m.effects.push(
                    handlers,
                ).push(start).push(report)
                &&& reader == Ok::<bool, Seq<char>>(false) ==> after.effects == m.effects.push(
                    handlers,
                ).push(report)
                &&& reader is Ok ==> after.occupied == occupied_workspaces(m.windows, m.tabs)
            }
            &&& after.windows == m.windows
            &&& after.tabs == m.tabs
            &&& after.clients == m.clients
            &&& after.activity == m.activity
            &&& pane_added(after, pane, reader) == after
        }),
{
    let after = pane_added(m, pane, reader);
    if !m.has_pane(pane.pane_id) {
        assert(after.panes == m.panes.push(pane));
        assert(pane_ids(after.panes)[m.panes.len() as int] == pane.pane_id);
    }
}

/// A tab that is made known is there under its number, as known, with its panes,
/// its focus and its size. All other tabs stay, and so do windows and panes.
pub proof fn law_known_tab_is_there(m: MuxView, tab: TabView)
    requires
        tab_ids(m.tabs).no_duplicates(),
    ensures
        ({
            let after = tab_known(m, tab);
            &&& after.has_tab(tab.tab_id)
            &&& after.tab(tab.tab_id).panes == tab.panes
            &&& after.tab(tab.tab_id).active_pane == tab.active_pane
            &&& after.tab(tab.tab_id).size == tab.size
            &&& forall|t: TabView|
                t.tab_id != tab.tab_id ==> (#[trigger] after.tabs.contains(t) <==> m.tabs.contains(
                    t,
                ))
            &&& after.windows == m.windows
            &&& after.panes == m.panes
            &&& after.clients == m.clients
            &&& after.effects == m.effects
        }),
{
    let after = tab_known(m, tab);
    let ids = tab_ids(m.tabs);
    let known = TabView { registered: true, ..tab };
    let place = if ids.contains(tab.tab_id) {
        ids.index_of(tab.tab_id)
    } else {
        m.tabs.len() as int
    };
    if ids.contains(tab.tab_id) {
        assert(ids[place] == tab.tab_id);
    }
    assert(after.tabs[place] == known);
    let now = tab_ids(after.tabs);
    assert(now[place] == tab.tab_id);
    let found = now.index_of(tab.tab_id);
    assert(now[found] == tab.tab_id);
    if found != place {
        assert(after.tabs[found] == m.tabs[found]);
        assert(ids[found] == tab.tab_id);
    }
    assert forall|t: TabView| t.tab_id != tab.tab_id implies (#[trigger] after.tabs.contains(t)
        <==> m.tabs.contains(t)) by {
        if after.tabs.contains(t) {
            let at = choose|at: int| 0 <= at < after.tabs.len() && after.tabs[at] == t;
            assert(at != place);
            assert(m.tabs[at] == t);
        }
        if m.tabs.contains(t) {
            let at = choose|at: int| 0 <= at < m.tabs.len() && m.tabs[at] == t;
            assert(at != place);
            assert(after.tabs[at] == t);
        }
    }
}

/// A tab that is added to a window is listed there as the last one, and nothing
/// else is moved: the active tab stays, and so does every other window. The
/// addition is reported.
pub proof fn law_added_tab_is_listed_last(m: MuxView, tab: TabView, window_id: WindowId)
    requires
        m.wf(),
        m.has_window(window_id),
    ensures
        ({
            let after = tab_added_to_window(m, tab, window_id);
            &&& after.windows.len() == m.windows.len()
            &&& forall|i: int|
                0 <= i < m.windows.len() ==> (#[trigger] after.windows[i])
                    == if m.windows[i].window_id == window_id {
                    WindowView { tabs: m.windows[i].tabs.push(tab.tab_id), ..m.windows[i] }
                } else {
                    m.windows[i]
                }
            &&& tab_ids(after.tabs).contains(tab.tab_id)
            &&& forall|t: TabView| #[trigger] m.tabs.contains(t) ==> after.tabs.contains(t)
            &&& tab_ids(m.tabs).contains(tab.tab_id) ==> after.tabs == m.tabs
            &&& !tab_ids(m.tabs).contains(tab.tab_id) ==> after.tabs.drop_last() == m.tabs
                && !after.tabs.last().registered && after.tabs.last().tab_id == tab.tab_id
                && after.tabs.last().panes == tab.panes && after.tabs.last().active_pane
                == tab.active_pane && after.tabs.last().size == tab.size
            &&& after.panes == m.panes
            &&& after.clients == m.clients
            &&& after.effects == m.effects.push(
                EffectView::Notify(
                    NotificationView::TabAddedToWindow { tab_id: tab.tab_id, window_id },
                ),
            )
        }),
{
    let after = tab_added_to_window(m, tab, window_id);
    let ids = window_ids(m.windows);
    let place = ids.index_of(window_id);
    assert(ids[place] == window_id);
    assert forall|i: int| 0 <= i < m.windows.len() && i != place implies (
    #[trigger] m.windows[i]).window_id != window_id by {
        assert(ids[i] != ids[place]);
    }
    if !tab_ids(m.tabs).contains(tab.tab_id) {
        assert(tab_ids(after.tabs)[m.tabs.len() as int] == tab.tab_id);
        assert(after.tabs.drop_last() =~= m.tabs);
    }
    assert forall|t: TabView| #[trigger] m.tabs.contains(t) implies after.tabs.contains(t) by {
        let at = choose|at: int| 0 <= at < m.tabs.len() && m.tabs[at] == t;
        assert(after.tabs[at] == t);
    }
}

/// A window that is made stands behind all others, in the given workspace and with
/// no tab. Windows of other numbers stay.
pub proof fn law_made_window_is_empty(m: MuxView, window_id: WindowId, workspace: Seq<char>)
    ensures
        ({
            let after = window_put(m, empty_window(window_id, workspace));
            &&& after.windows.len() > 0
            &&& after.windows.last().window_id == window_id
            &&& after.windows.last().workspace == workspace
            &&& after.windows.last().tabs.len() == 0
            &&& forall|w: WindowView|
                w.window_id != window_id ==> (#[trigger] after.windows.contains(w)
                    <==> m.windows.contains(w))
            &&& after.tabs == m.tabs
            &&& after.panes == m.panes
            &&& after.effects == m.effects
        }),
{
    let keep = |w: WindowView| w.window_id != window_id;
    crate::mux::lemma_filter_members(m.windows, keep);
    let rest = m.windows.filter(keep);
    let window = empty_window(window_id, workspace);
    let after = window_put(m, window);
    assert(after.windows =~= rest.push(window));
    assert forall|w: WindowView| w.window_id != window_id implies (#[trigger] after.windows.contains(
        w,
    ) <==> m.windows.contains(w)) by {
        if m.windows.contains(w) {
            assert(rest.contains(w));
            let at = choose|at: int| 0 <= at < rest.len() && rest[at] == w;
            assert(after.windows[at] == w);
        }
        if after.windows.contains(w) {
            let at = choose|at: int| 0 <= at < after.windows.len() && after.windows[at] == w;
            assert(rest[at] == w);
            assert(rest.contains(w));
        }
    }
}

/// One activity that begins and ends leaves the count as it was.
pub proof fn law_activity_is_counted_back(count: usize)
    ensures
        counted_down(counted_up(count)) == count,
        counted_up(counted_down(count)) == count,
        count < usize::MAX ==> counted_up(count) == count + 1,
{
}

/// A new tab goes into the window that was named, with the size and the
/// configuration of that window's active tab and pane; without a name it goes
/// into the new window, with the requested size. It is refused exactly where the
/// named window is not there, or has no active tab, or that one no active pane.
pub proof fn law_tab_is_spawned_in_the_named_window(
    m: MuxView,
    window_id: Option<WindowId>,
    size: TerminalSize,
    new_window_id: WindowId,
)
    ensures
        ({
            let target = spawn_window(m, window_id, size, new_window_id);
            match window_id {
                None => target is Ok && target->Ok_0 == (new_window_id, size, None::<PaneId>),
                Some(id) => {
                    let window = m.window(id);
                    let tab = m.tab(window.tabs[window.active as int]);
                    &&& target is Ok <==> m.has_window(id) && window.active < window.tabs.len()
                        && tab.active_pane is Some
                    &&& target is Ok ==> target->Ok_0 == (id, tab.size, tab.active_pane)
                },
            }
        }),
{
}

/// A moved pane goes into the window that was named, with the size of that
/// window's active tab; without a name it goes into the new window, with the size
/// of the tab that it leaves. It is refused exactly where its tab is unknown, or
/// the named window is not there or has no active tab.
pub proof fn law_pane_is_moved_to_the_named_window(
    m: MuxView,
    src_tab: TabId,
    window_id: Option<WindowId>,
    new_window_id: WindowId,
)
    ensures
        ({
            let target = move_target(m, src_tab, window_id, new_window_id);
            match window_id {
                None => {
                    &&& target is Ok <==> m.has_tab(src_tab)
                    &&& target is Ok ==> target->Ok_0 == (new_window_id, m.tab(src_tab).size)
                },
                Some(id) => {
                    let window = m.window(id);
                    &&& target is Ok <==> m.has_tab(src_tab) && m.has_window(id) && window.active
                        < window.tabs.len()
                    &&& target is Ok ==> target->Ok_0 == (
                        id,
                        m.tab(window.tabs[window.active as int]).size,
                    )
                },
            }
        }),
{
}

/// A window is made for a moved pane exactly where none was named: in the given
/// workspace, else in the one in effect. Announcing it ends the activity that its
/// making began.
pub proof fn law_window_is_made_for_a_moved_pane(
    m: MuxView,
    window_id: Option<WindowId>,
    workspace: Option<Seq<char>>,
    new_window_id: WindowId,
)
    ensures
        ({
            let made = move_window_made(m, window_id, workspace, new_window_id);
            let announced = move_window_announced(made, window_id, new_window_id);
            &&& window_id is Some ==> made == m && announced == m
            &&& window_id is None ==> {
                &&& made.windows.last().window_id == new_window_id
                &&& made.windows.last().tabs.len() == 0
                &&& workspace is Some ==> made.windows.last().workspace == workspace->0
                &&& workspace is None ==> made.windows.last().workspace == current_workspace(m)
                &&& made.activity == counted_up(m.activity)
                &&& made.tabs == m.tabs && made.panes == m.panes && made.effects == m.effects
                &&& announced.activity == m.activity
                &&& announced.windows == made.windows
                &&& announced.effects == m.effects.push(
                    EffectView::Notify(NotificationView::WindowCreated(new_window_id)),
                )
            }
        }),
{
    let name = match workspace {
        Some(name) => name,
        None => current_workspace(m),
    };
    law_made_window_is_empty(m, new_window_id, name);
}

/// A workspace is occupied exactly where one of its windows lists a tab with a
/// pane.
pub proof fn law_occupied_workspace_has_a_pane(
    windows: Seq<WindowView>,
    tabs: Seq<TabView>,
    workspace: Seq<char>,
)
    requires
        tab_ids(tabs).no_duplicates(),
    ensures
        occupied_workspaces(windows, tabs).contains(workspace) <==> exists|i: int, k: int|
            0 <= i < windows.len() && 0 <= k < tabs.len() && (#[trigger] windows[i]).workspace
                == workspace && windows[i].tabs.contains((#[trigger] tabs[k]).tab_id)
                && tabs[k].panes.len() > 0,
{
    let ids = tab_ids(tabs);
    if occupied_workspaces(windows, tabs).contains(workspace) {
        let i = choose|i: int|
            0 <= i < windows.len() && (#[trigger] windows[i]).workspace == workspace
                && window_holds_pane(windows[i], tabs);
        let x = choose|x: int|
            0 <= x < windows[i].tabs.len() && ids.contains(#[trigger] windows[i].tabs[x])
                && tabs[ids.index_of(windows[i].tabs[x])].panes.len() > 0;
        let k = ids.index_of(windows[i].tabs[x]);
        assert(ids[k] == windows[i].tabs[x]);
        assert(windows[i].tabs.contains(tabs[k].tab_id));
    }
    if exists|i: int, k: int|
        0 <= i < windows.len() && 0 <= k < tabs.len() && (#[trigger] windows[i]).workspace
            == workspace && windows[i].tabs.contains((#[trigger] tabs[k]).tab_id)
            && tabs[k].panes.len() > 0 {
        let (i, k) = choose|i: int, k: int|
            0 <= i < windows.len() && 0 <= k < tabs.len() && (#[trigger] windows[i]).workspace
                == workspace && windows[i].tabs.contains((#[trigger] tabs[k]).tab_id)
                && tabs[k].panes.len() > 0;
        let x = choose|x: int|
            0 <= x < windows[i].tabs.len() && windows[i].tabs[x] == tabs[k].tab_id;
        assert(ids[k] == tabs[k].tab_id);
        assert(ids.index_of(windows[i].tabs[x]) == k);
        assert(window_holds_pane(windows[i], tabs));
    }
}

/// The active tab of a window is the one at its active place.
pub proof fn law_active_tab_is_listed(window: WindowView)
    ensures
        active_tab(window) is Some <==> window.active < window.tabs.len(),
        active_tab(window) matches Some(tab_id) ==> window.tabs.contains(tab_id) && tab_id
            == window.tabs[window.active as int],
{
}

/// What changes windows, tabs or panes counts the occupied workspaces anew.
pub proof fn law_occupied_workspaces_are_counted_anew(
    m: MuxView,
    pane_id: PaneId,
    tab_id: TabId,
    window_id: WindowId,
    tab: TabView,
)
    ensures
        m.has_pane(pane_id) ==> is_counted(pane_removed(m, pane_id)),
        m.has_tab(tab_id) ==> is_counted(tab_removed(m, tab_id)),
        is_counted(window_removed(m, window_id)),
        is_counted(tab_added_to_window(m, tab, window_id)),
{
}

/// Whether the occupied workspaces are those of the windows and tabs.
pub open spec fn is_counted(m: MuxView) -> bool {
    m.occupied == occupied_workspaces(m.windows, m.tabs)
}

/// A rename counts the occupied workspaces anew.
pub proof fn law_rename_counts_anew(
    m: MuxView,
    window_id: WindowId,
    expected: Seq<char>,
    new_workspace: Seq<char>,
    sole: bool,
)
    ensures
        cas_refusal(m, window_id, expected, sole) is None ==> is_counted(
            cas_state(m, window_id, expected, new_workspace, sole),
        ),
        expected != new_workspace ==> is_counted(workspace_renamed(m, expected, new_workspace)),
{
}

} // verus!
