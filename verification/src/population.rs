//! How panes, tabs and windows come in, how windows go, and where they are.

use crate::mux::{
    lemma_filter_keeps_all, lemma_remove_is_filter, lemma_window_unlisted_wf, notified, recounted,
    with_effect, Mux,
};
use crate::mux_model::{
    pane_ids, tab_ids, tab_pane_ids, window_ids, EffectView, MuxEffect, MuxNotification, MuxView,
    NotificationView, Pane, PaneId, Tab, TabId, TabPane, TabView, Window, WindowId, WindowView,
};
use crate::mux_ops::{current_workspace, lemma_rest_wf};
use crate::text::{decimal, decimal_text};
use vstd::prelude::*;

verus! {

/// One more than a counter that wraps around.
pub open spec fn counted_up(count: usize) -> usize {
    if count == usize::MAX {
        0
    } else {
        (count + 1) as usize
    }
}

/// One less than a counter that wraps around.
pub open spec fn counted_down(count: usize) -> usize {
    if count == 0 {
        usize::MAX
    } else {
        (count - 1) as usize
    }
}

/// The state with a pane known: it has its handlers, and nothing else is done
/// about it.
pub open spec fn pane_known(m: MuxView, pane: Pane) -> MuxView {
    with_effect(
        MuxView { panes: m.panes.push(pane), ..m },
        EffectView::AttachHandlers(pane.pane_id),
    )
}

/// The state after a pane was added. A known pane is left as it is. A pane
/// whose reader failed is known, and no more.
pub open spec fn pane_added(m: MuxView, pane: Pane, reader: Result<bool, Seq<char>>) -> MuxView {
    if m.has_pane(pane.pane_id) {
        m
    } else {
        match reader {
            Err(_) => pane_known(m, pane),
            Ok(readable) => {
                let started = if readable {
                    with_effect(
                        pane_known(m, pane),
                        EffectView::StartReader { pane_id: pane.pane_id, banner: m.banner },
                    )
                } else {
                    pane_known(m, pane)
                };
                notified(recounted(started), NotificationView::PaneAdded(pane.pane_id))
            },
        }
    }
}

/// What a pane's reader says.
pub open spec fn reader_view(reader: Result<bool, String>) -> Result<bool, Seq<char>> {
    match reader {
        Ok(readable) => Ok(readable),
        Err(reason) => Err(reason@),
    }
}

/// The tabs with one of them put in, in place of an earlier one with the same
/// number.
pub open spec fn tabs_with(tabs: Seq<TabView>, tab: TabView) -> Seq<TabView> {
    if tab_ids(tabs).contains(tab.tab_id) {
        tabs.update(tab_ids(tabs).index_of(tab.tab_id), tab)
    } else {
        tabs.push(tab)
    }
}

/// The state with a tab known.
pub open spec fn tab_known(m: MuxView, tab: TabView) -> MuxView {
    MuxView { tabs: tabs_with(m.tabs, TabView { registered: true, ..tab }), ..m }
}

/// Putting a tab in keeps the state well formed.
pub proof fn lemma_tabs_with_wf(m: MuxView, tab: TabView)
    requires
        m.wf(),
        tab_pane_ids(tab.panes).no_duplicates(),
    ensures
        (MuxView { tabs: tabs_with(m.tabs, tab), ..m }).wf(),
        tab_ids(tabs_with(m.tabs, tab)).contains(tab.tab_id),
        forall|id: TabId| #[trigger]
            tab_ids(m.tabs).contains(id) ==> tab_ids(tabs_with(m.tabs, tab)).contains(id),
{
    let after = MuxView { tabs: tabs_with(m.tabs, tab), ..m };
    let ids = tab_ids(m.tabs);
    if ids.contains(tab.tab_id) {
        assert(ids[ids.index_of(tab.tab_id)] == tab.tab_id);
        assert(tab_ids(after.tabs) =~= ids);
    } else {
        assert(tab_ids(after.tabs) =~= ids.push(tab.tab_id));
        assert(tab_ids(after.tabs)[ids.len() as int] == tab.tab_id);
        assert forall|id: TabId| #[trigger] ids.contains(id) implies tab_ids(
            after.tabs,
        ).contains(id) by {
            let k = choose|k: int| 0 <= k < ids.len() && ids[k] == id;
            assert(tab_ids(after.tabs)[k] == id);
        }
    }
    assert forall|i: int| 0 <= i < after.tabs.len() implies tab_pane_ids(
        (#[trigger] after.tabs[i]).panes,
    ).no_duplicates() by {
        if i < m.tabs.len() {
            assert(tab_pane_ids(m.tabs[i].panes).no_duplicates());
        }
    }
    assert forall|i: int, k: int|
        0 <= i < after.windows.len() && 0 <= k < after.windows[i].tabs.len() implies tab_ids(
        after.tabs,
    ).contains(#[trigger] after.windows[i].tabs[k]) by {
        assert(tab_ids(m.tabs).contains(m.windows[i].tabs[k]));
    }
}

/// The state with a window put in, in place of an earlier one with the same
/// number.
pub open spec fn window_put(m: MuxView, window: WindowView) -> MuxView {
    MuxView {
        windows: m.windows.filter(|w: WindowView| w.window_id != window.window_id).push(window),
        ..m
    }
}

/// A window that was just made.
pub open spec fn empty_window(window_id: WindowId, workspace: Seq<char>) -> WindowView {
    WindowView { window_id, workspace, tabs: Seq::empty(), active: 0 }
}

/// Announces a new window once.
pub struct MuxWindowBuilder {
    window_id: WindowId,
    notified: bool,
}

impl MuxWindowBuilder {
    /// The number of the new window.
    pub closed spec fn id(self) -> WindowId {
        self.window_id
    }

    /// Whether the window was announced.
    pub closed spec fn announced(self) -> bool {
        self.notified
    }

    /// The number of the new window.
    pub fn window_id(&self) -> (id: WindowId)
        ensures
            id == self.id(),
    {
        self.window_id
    }

    /// Announces the window, the first time that this is called, and ends the
    /// activity of making it.
    pub fn notify(&mut self, mux: &mut Mux)
        ensures
            final(self).id() == old(self).id(),
            final(self).announced(),
            final(mux)@ == if old(self).announced() {
                old(mux)@
            } else {
                notified(
                    MuxView { activity: counted_down(old(mux)@.activity), ..old(mux)@ },
                    NotificationView::WindowCreated(old(self).id()),
                )
            },
            old(mux).wf() ==> final(mux).wf(),
    {
        if self.notified {
            return;
        }
        self.notified = true;
        mux.activity = mux.activity.wrapping_sub(1);
        proof {
            if old(mux).wf() {
                lemma_rest_wf(old(mux)@, mux@);
            }
        }
        mux.notify(MuxNotification::WindowCreated(self.window_id));
    }
}

/// Putting a window in that lists no tab keeps the state well formed.
proof fn lemma_window_put_wf(m: MuxView, window_id: WindowId, workspace: Seq<char>)
    requires
        m.wf(),
    ensures
        window_put(m, empty_window(window_id, workspace)).wf(),
        m.has_window(window_id) ==> m.windows.filter(|w: WindowView| w.window_id != window_id)
            == m.windows.remove(window_ids(m.windows).index_of(window_id)),
        !m.has_window(window_id) ==> m.windows.filter(|w: WindowView| w.window_id != window_id)
            == m.windows,
{
    let keep = |w: WindowView| w.window_id != window_id;
    let ids = window_ids(m.windows);
    let window = empty_window(window_id, workspace);
    let rest = m.windows.filter(keep);
    let base = if ids.contains(window_id) {
        let at = ids.index_of(window_id);
        assert(ids[at] == window_id);
        assert forall|i: int| 0 <= i < m.windows.len() && i != at implies keep(
            #[trigger] m.windows[i],
        ) by {
            assert(ids[i] != ids[at]);
        }
        lemma_remove_is_filter(m.windows, at, keep);
        lemma_window_unlisted_wf(m, at);
        assert(window_ids(rest) =~= ids.remove(at));
        assert(!ids.remove(at).contains(window_id)) by {
            if ids.remove(at).contains(window_id) {
                let k = choose|k: int|
                    0 <= k < ids.remove(at).len() && ids.remove(at)[k] == window_id;
                if k < at {
                    assert(ids[k] == ids[at]);
                } else {
                    assert(ids[k + 1] == ids[at]);
                }
            }
        }
        MuxView { windows: m.windows.remove(at), ..m }
    } else {
        assert forall|i: int| 0 <= i < m.windows.len() implies keep(#[trigger] m.windows[i]) by {
            assert(ids[i] == m.windows[i].window_id);
            assert(ids.contains(ids[i]));
        }
        lemma_filter_keeps_all(m.windows, keep);
        m
    };
    let after = window_put(m, window);
    assert(after.windows == base.windows.push(window));
    assert(window_ids(after.windows) =~= window_ids(base.windows).push(window_id));
    assert forall|i: int| 0 <= i < after.windows.len() implies (
    #[trigger] after.windows[i]).tabs.no_duplicates() by {
        if i < base.windows.len() {
            assert(base.windows[i].tabs.no_duplicates());
        }
    }
    assert forall|i: int, k: int|
        0 <= i < after.windows.len() && 0 <= k < after.windows[i].tabs.len() implies tab_ids(
        after.tabs,
    ).contains(#[trigger] after.windows[i].tabs[k]) by {
        assert(tab_ids(base.tabs).contains(base.windows[i].tabs[k]));
    }
}

/// The state after a tab was added to a window.
pub open spec fn tab_added_to_window(m: MuxView, tab: TabView, window_id: WindowId) -> MuxView {
    let place = window_ids(m.windows).index_of(window_id);
    let window = m.windows[place];
    let listed = MuxView {
        windows: m.windows.update(
            place,
            WindowView { tabs: window.tabs.push(tab.tab_id), ..window },
        ),
        tabs: if tab_ids(m.tabs).contains(tab.tab_id) {
            m.tabs
        } else {
            m.tabs.push(TabView { registered: false, ..tab })
        },
        ..m
    };
    notified(
        recounted(listed),
        NotificationView::TabAddedToWindow { tab_id: tab.tab_id, window_id },
    )
}

/// Copies a tab's panes.
fn copy_tab(tab: &Tab, registered: bool) -> (copy: Tab)
    ensures
        copy@ == (TabView { registered, ..tab@ }),
{
    let mut panes: Vec<TabPane> = Vec::new();
    let mut i: usize = 0;
    while i < tab.panes.len()
        invariant
            i <= tab.panes@.len(),
            panes@ == tab.panes@.take(i as int),
        decreases tab.panes@.len() - i,
    {
        panes.push(tab.panes[i]);
        assert(panes@ =~= tab.panes@.take(i + 1));
        i += 1;
    }
    assert(panes@ =~= tab.panes@);
    Tab {
        tab_id: tab.tab_id,
        registered,
        panes,
        active_pane: tab.active_pane,
        size: tab.size,
    }
}

impl Mux {
    /// The pane with this number.
    pub fn get_pane(&self, pane_id: PaneId) -> (pane: Option<Pane>)
        requires
            self.wf(),
        ensures
            match pane {
                Some(pane) => self@.has_pane(pane_id) && pane.pane_id == pane_id
                    && self@.panes.contains(pane),
                None => !self@.has_pane(pane_id),
            },
    {
        match self.pane_place(pane_id) {
            Some(place) => {
                assert(self@.panes[place as int] == self.panes@[place as int]);
                Some(self.panes[place])
            },
            None => None,
        }
    }

    /// The known tab with this number.
    pub fn get_tab(&self, tab_id: TabId) -> (tab: Option<&Tab>)
        requires
            self.wf(),
        ensures
            match tab {
                Some(tab) => self@.has_tab(tab_id) && tab@ == self@.tab(tab_id),
                None => !self@.has_tab(tab_id),
            },
    {
        match self.tab_place(tab_id) {
            Some(place) => if self.tabs[place].registered {
                Some(&self.tabs[place])
            } else {
                None
            },
            None => None,
        }
    }

    /// The window with this number.
    pub fn get_window(&self, window_id: WindowId) -> (window: Option<&Window>)
        requires
            self.wf(),
        ensures
            match window {
                Some(window) => self@.has_window(window_id) && window@ == self@.window(window_id),
                None => !self@.has_window(window_id),
            },
    {
        match self.window_place(window_id) {
            Some(place) => Some(&self.windows[place]),
            None => None,
        }
    }

    /// Whether no pane is known.
    pub fn is_empty(&self) -> (empty: bool)
        ensures
            empty == (self@.panes.len() == 0),
    {
        self.panes.len() == 0
    }

    /// Whether a workspace holds no pane.
    pub fn is_workspace_empty(&self, workspace: &str) -> (empty: bool)
        ensures
            empty == !self@.occupied.contains(workspace@),
    {
        !self.occupied.contains(workspace)
    }

    /// Whether the workspace in effect holds no pane.
    pub fn is_active_workspace_empty(&self) -> (empty: bool)
        requires
            self.wf(),
        ensures
            empty == !self@.occupied.contains(current_workspace(self@)),
    {
        let workspace = self.active_workspace();
        self.is_workspace_empty(workspace.as_str())
    }

    /// The known panes.
    pub fn iter_panes(&self) -> (panes: Vec<Pane>)
        ensures
            panes@ == self@.panes,
    {
        let mut panes: Vec<Pane> = Vec::new();
        let mut i: usize = 0;
        while i < self.panes.len()
            invariant
                i <= self.panes@.len(),
                panes@ == self.panes@.take(i as int),
            decreases self.panes@.len() - i,
        {
            panes.push(self.panes[i]);
            assert(panes@ =~= self.panes@.take(i + 1));
            i += 1;
        }
        assert(panes@ =~= self.panes@);
        panes
    }

    /// The numbers of the windows.
    pub fn iter_windows(&self) -> (ids: Vec<WindowId>)
        ensures
            ids@ == window_ids(self@.windows),
    {
        let mut ids: Vec<WindowId> = Vec::new();
        let mut i: usize = 0;
        while i < self.windows.len()
            invariant
                i <= self.windows@.len(),
                ids@ == window_ids(self@.windows).take(i as int),
            decreases self.windows@.len() - i,
        {
            ids.push(self.windows[i].window_id);
            assert(ids@ =~= window_ids(self@.windows).take(i + 1));
            i += 1;
        }
        assert(ids@ =~= window_ids(self@.windows));
        ids
    }

    /// Adds a pane, once.
    pub fn add_pane(&mut self, pane: Pane, reader: Result<bool, String>) -> (result: Result<
        (),
        String,
    >)
        requires
            old(self).wf(),
        ensures
            final(self).wf(),
            final(self)@ == pane_added(old(self)@, pane, reader_view(reader)),
            match result {
                Ok(()) => old(self)@.has_pane(pane.pane_id) || reader is Ok,
                Err(reason) => !old(self)@.has_pane(pane.pane_id) && reader is Err
                    && reason@ == reader->Err_0@,
            },
    {
        if self.pane_place(pane.pane_id).is_some() {
            return Ok(());
        }
        let ghost before = self@;
        self.panes.push(pane);
        proof {
            let ids = pane_ids(before.panes);
            assert(pane_ids(self@.panes) =~= ids.push(pane.pane_id));
            assert forall|i: int, k: int|
                0 <= i < self@.windows.len() && 0 <= k < self@.windows[i].tabs.len() implies tab_ids(
                self@.tabs,
            ).contains(#[trigger] self@.windows[i].tabs[k]) by {
                assert(tab_ids(before.tabs).contains(before.windows[i].tabs[k]));
            }
        }
        self.push_effect(MuxEffect::AttachHandlers(pane.pane_id));
        match reader {
            Err(reason) => {
                return Err(reason);
            },
            Ok(readable) => {
                if readable {
                    let banner = match &self.banner {
                        Some(text) => Some(text.clone()),
                        None => None,
                    };
                    self.push_effect(MuxEffect::StartReader { pane_id: pane.pane_id, banner });
                }
            },
        }
        self.recompute_pane_count();
        self.notify(MuxNotification::PaneAdded(pane.pane_id));
        Ok(())
    }

    fn put_tab(&mut self, tab: Tab)
        requires
            old(self).wf(),
            tab_pane_ids(tab@.panes).no_duplicates(),
        ensures
            final(self).wf(),
            final(self)@ == tab_known(old(self)@, tab@),
    {
        let ghost before = self@;
        let mut tab = tab;
        tab.registered = true;
        proof {
            lemma_tabs_with_wf(before, tab@);
        }
        match self.tab_place(tab.tab_id) {
            Some(place) => {
                let ghost added = tab@;
                self.tabs.set(place, tab);
                assert(self@.tabs =~= before.tabs.update(place as int, added));
            },
            None => {
                let ghost added = tab@;
                self.tabs.push(tab);
                assert(self@.tabs =~= before.tabs.push(added));
            },
        }
    }

    /// Makes a tab known, without its panes.
    pub fn add_tab_no_panes(&mut self, tab: Tab)
        requires
            old(self).wf(),
            tab_pane_ids(tab@.panes).no_duplicates(),
        ensures
            final(self).wf(),
            final(self)@ == recounted(tab_known(old(self)@, tab@)),
    {
        self.put_tab(tab);
        self.recompute_pane_count();
    }

    /// Makes a tab known, with the pane that has its focus.
    pub fn add_tab_and_active_pane(&mut self, tab: Tab, reader: Result<bool, String>) -> (result:
        Result<(), String>)
        requires
            old(self).wf(),
            tab_pane_ids(tab@.panes).no_duplicates(),
        ensures
            final(self).wf(),
            ({
                let known = tab_known(old(self)@, tab@);
                let at = tab_pane_ids(tab@.panes).index_of(tab@.active_pane->0);
                let focused = tab@.active_pane is Some && tab_pane_ids(tab@.panes).contains(
                    tab@.active_pane->0,
                );
                let pane = Pane {
                    pane_id: tab@.panes[at].pane_id,
                    domain_id: tab@.panes[at].domain_id,
                };
                &&& final(self)@ == if focused {
                    pane_added(known, pane, reader_view(reader))
                } else {
                    known
                }
                &&& match result {
                    Ok(()) => focused && (known.has_pane(pane.pane_id) || reader is Ok),
                    Err(reason) => if focused {
                        !known.has_pane(pane.pane_id) && reader is Err && reason@
                            == reader->Err_0@
                    } else {
                        reason@ == "tab MUST have an active pane"@
                    },
                }
            }),
    {
        let pane = match tab.active_pane {
            Some(pane_id) => match tab.pane_place(pane_id) {
                Some(place) => Some(
                    Pane {
                        pane_id: tab.panes[place].pane_id,
                        domain_id: tab.panes[place].domain_id,
                    },
                ),
                None => None,
            },
            None => None,
        };
        self.put_tab(tab);
        match pane {
            Some(pane) => self.add_pane(pane, reader),
            None => Err("tab MUST have an active pane".to_owned()),
        }
    }

    /// Makes a window with no tab. It is in the given workspace, or in the one
    /// that is in effect.
    pub fn new_empty_window(&mut self, window_id: WindowId, workspace: Option<String>) -> (builder:
        MuxWindowBuilder)
        requires
            old(self).wf(),
        ensures
            final(self).wf(),
            builder.id() == window_id,
            !builder.announced(),
            final(self)@ == (MuxView {
                activity: counted_up(old(self)@.activity),
                ..window_put(
                    old(self)@,
                    empty_window(
                        window_id,
                        match workspace {
                            Some(name) => name@,
                            None => current_workspace(old(self)@),
                        },
                    ),
                )
            }),
    {
        let ghost before = self@;
        let workspace = match workspace {
            Some(name) => name,
            None => self.active_workspace(),
        };
        proof {
            lemma_window_put_wf(before, window_id, workspace@);
        }
        match self.window_place(window_id) {
            Some(place) => {
                let replaced = self.windows.remove(place);
                assert(self@.windows =~= before.windows.remove(place as int));
            },
            None => {},
        }
        let ghost rest = self@.windows;
        let window = Window { window_id, workspace, tabs: Vec::new(), active: 0 };
        assert(window@ =~= empty_window(window_id, workspace@));
        self.windows.push(window);
        assert(self@.windows =~= rest.push(empty_window(window_id, workspace@)));
        self.activity = self.activity.wrapping_add(1);
        proof {
            let put = window_put(before, empty_window(window_id, workspace@));
            lemma_rest_wf(put, self@);
        }
        MuxWindowBuilder { window_id, notified: false }
    }

    /// Adds a tab to a window that does not list it yet.
    pub fn add_tab_to_window(&mut self, tab: &Tab, window_id: WindowId) -> (result: Result<
        (),
        String,
    >)
        requires
            old(self).wf(),
            tab_pane_ids(tab@.panes).no_duplicates(),
            old(self)@.has_window(window_id) ==> !old(self)@.window(window_id).tabs.contains(
                tab@.tab_id,
            ),
        ensures
            final(self).wf(),
            match result {
                Ok(()) => old(self)@.has_window(window_id) && final(self)@ == tab_added_to_window(
                    old(self)@,
                    tab@,
                    window_id,
                ),
                Err(reason) => !old(self)@.has_window(window_id) && final(self)@ == old(self)@
                    && reason@ == "add_tab_to_window: no such window_id "@ + decimal(
                    window_id as nat,
                ),
            },
    {
        let place = match self.window_place(window_id) {
            Some(place) => place,
            None => {
                return Err(
                    "add_tab_to_window: no such window_id ".to_owned().concat(
                        decimal_text(window_id as u64).as_str(),
                    ),
                );
            },
        };
        let ghost before = self@;
        let tab_id = tab.tab_id;
        if self.tab_place(tab_id).is_none() {
            let ghost added = TabView { registered: false, ..tab@ };
            self.tabs.push(copy_tab(tab, false));
            proof {
                assert(self@.tabs =~= before.tabs.push(added));
                lemma_tabs_with_wf(before, added);
            }
        }
        let ghost mid = self@;
        assert(mid.windows[place as int] == self.windows@[place as int]@);
        self.windows[place].tabs.push(tab_id);
        proof {
            let window = before.windows[place as int];
            let listed = WindowView { tabs: window.tabs.push(tab_id), ..window };
            assert(self@.windows =~= before.windows.update(place as int, listed));
            lemma_tab_listed_wf(mid, place as int, tab_id, self@);
        }
        self.recompute_pane_count();
        self.notify(MuxNotification::TabAddedToWindow { tab_id, window_id });
        assert(self@ =~= tab_added_to_window(before, tab@, window_id));
        Ok(())
    }
}

/// Listing one more tab in a window keeps the state well formed.
proof fn lemma_tab_listed_wf(before: MuxView, place: int, tab_id: TabId, after: MuxView)
    requires
        before.wf(),
        0 <= place < before.windows.len(),
        !before.windows[place].tabs.contains(tab_id),
        tab_ids(before.tabs).contains(tab_id),
        after == (MuxView {
            windows: before.windows.update(
                place,
                WindowView {
                    tabs: before.windows[place].tabs.push(tab_id),
                    ..before.windows[place]
                },
            ),
            ..before
        }),
    ensures
        after.wf(),
{
    assert(window_ids(after.windows) =~= window_ids(before.windows));
    assert forall|i: int| 0 <= i < after.windows.len() implies (
    #[trigger] after.windows[i]).tabs.no_duplicates() by {
        assert(before.windows[i].tabs.no_duplicates());
    }
    assert forall|i: int, k: int|
        0 <= i < after.windows.len() && 0 <= k < after.windows[i].tabs.len() implies tab_ids(
        after.tabs,
    ).contains(#[trigger] after.windows[i].tabs[k]) by {
        if k < before.windows[i].tabs.len() {
            assert(tab_ids(before.tabs).contains(before.windows[i].tabs[k]));
            assert(after.windows[i].tabs[k] == before.windows[i].tabs[k]);
        }
    }
}

} // verus!
