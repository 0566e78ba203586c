//! Pruning: dead panes leave their tabs, dead tabs their windows, and empty
//! windows the multiplexer.

use crate::mux::{
    active_after, lemma_filter_members, notified, pane_removed, place_of, tab_removed,
    tabs_removed, window_removed, Mux,
};
use crate::mux_model::{
    tab_ids, tab_pane_ids, window_ids, MuxNotification, MuxView, NotificationView, PaneId, Tab,
    TabId, TabPane, TabView, WindowId, WindowView,
};
use vstd::prelude::*;

verus! {

/// Whether a pane of a tab is alive: not dead itself, and known.
pub open spec fn pane_lives(m: MuxView) -> spec_fn(TabPane) -> bool {
    |p: TabPane| !p.dead && m.has_pane(p.pane_id)
}

/// The focus of a tab that may have lost the pane that had it.
pub open spec fn focus_within(active: Option<PaneId>, rest: Seq<TabPane>) -> Option<PaneId> {
    match active {
        None => None,
        Some(id) => if tab_pane_ids(rest).contains(id) {
            Some(id)
        } else if rest.len() == 0 {
            None
        } else {
            Some(rest[0].pane_id)
        },
    }
}

/// A tab with only its living panes.
pub open spec fn tab_pruned(m: MuxView, tab: TabView) -> TabView {
    let rest = tab.panes.filter(pane_lives(m));
    TabView { panes: rest, active_pane: focus_within(tab.active_pane, rest), ..tab }
}

/// Whether all panes of a tab are dead.
pub open spec fn tab_is_dead(tab: TabView) -> bool {
    forall|i: int| 0 <= i < tab.panes.len() ==> (#[trigger] tab.panes[i]).dead
}

/// Whether some window lists a tab.
pub open spec fn is_listed(windows: Seq<WindowView>, tab_id: TabId) -> bool {
    exists|i: int| 0 <= i < windows.len() && (#[trigger] windows[i]).tabs.contains(tab_id)
}

/// The tabs, those that windows list with only their living panes.
pub open spec fn tabs_pruned(m: MuxView) -> Seq<TabView> {
    m.tabs.map_values(
        |t: TabView|
            if is_listed(m.windows, t.tab_id) {
                tab_pruned(m, t)
            } else {
                t
            },
    )
}

/// Whether a tab stays in its window: it is known and not dead.
pub open spec fn tab_stays(tabs: Seq<TabView>) -> spec_fn(TabId) -> bool {
    |id: TabId|
        tab_ids(tabs).contains(id) && tabs[tab_ids(tabs).index_of(id)].registered && !tab_is_dead(
            tabs[tab_ids(tabs).index_of(id)],
        )
}

/// A window with only the tabs that stay.
pub open spec fn window_pruned(window: WindowView, tabs: Seq<TabView>) -> WindowView {
    let rest = window.tabs.filter(tab_stays(tabs));
    WindowView { tabs: rest, active: active_after(window.tabs, window.active, rest), ..window }
}

/// The state with dead panes out of the listed tabs, and dead or unknown tabs
/// out of the windows.
pub open spec fn swept(m: MuxView) -> MuxView {
    let tabs = tabs_pruned(m);
    MuxView { tabs, windows: m.windows.map_values(|w: WindowView| window_pruned(w, tabs)), ..m }
}

/// The known tabs that are dead.
pub open spec fn dead_tabs(tabs: Seq<TabView>) -> Seq<TabId>
    decreases tabs.len(),
{
    if tabs.len() == 0 {
        Seq::empty()
    } else {
        let head = dead_tabs(tabs.drop_last());
        if tabs.last().registered && tab_is_dead(tabs.last()) {
            head.push(tabs.last().tab_id)
        } else {
            head
        }
    }
}

/// The windows that list no tab.
pub open spec fn empty_windows(windows: Seq<WindowView>) -> Seq<WindowId>
    decreases windows.len(),
{
    if windows.len() == 0 {
        Seq::empty()
    } else {
        let head = empty_windows(windows.drop_last());
        if windows.last().tabs.len() == 0 {
            head.push(windows.last().window_id)
        } else {
            head
        }
    }
}

/// The state without a row of windows, taken out in their order.
pub open spec fn windows_removed(m: MuxView, ids: Seq<WindowId>) -> MuxView
    decreases ids.len(),
{
    if ids.len() == 0 {
        m
    } else {
        window_removed(windows_removed(m, ids.drop_last()), ids.last())
    }
}

/// The state after pruning. While something is under way, nothing is pruned.
/// Subscribers are told when no pane is left.
pub open spec fn pruned(m: MuxView) -> MuxView {
    if m.activity > 0 {
        m
    } else {
        let clean = swept(m);
        let rest = windows_removed(
            tabs_removed(clean, dead_tabs(clean.tabs)),
            empty_windows(clean.windows),
        );
        if rest.panes.len() == 0 {
            notified(rest, NotificationView::Empty)
        } else {
            rest
        }
    }
}

/// Keeping some of the panes of a tab keeps them distinct.
pub proof fn lemma_filtered_panes_distinct(panes: Seq<TabPane>, keep: spec_fn(TabPane) -> bool)
    requires
        tab_pane_ids(panes).no_duplicates(),
    ensures
        tab_pane_ids(panes.filter(keep)).no_duplicates(),
        forall|id: PaneId| #[trigger]
            tab_pane_ids(panes.filter(keep)).contains(id) ==> tab_pane_ids(panes).contains(id),
    decreases panes.len(),
{
    reveal(Seq::filter);
    if panes.len() > 0 {
        let head = panes.drop_last();
        let ids = tab_pane_ids(panes);
        assert(tab_pane_ids(head) =~= ids.drop_last());
        lemma_filtered_panes_distinct(head, keep);
        let kept = head.filter(keep);
        let last = panes.last();
        let result = panes.filter(keep);
        assert forall|id: PaneId| #[trigger] tab_pane_ids(result).contains(id) implies ids.contains(
            id,
        ) by {
            let k = choose|k: int| 0 <= k < result.len() && tab_pane_ids(result)[k] == id;
            if k < kept.len() {
                assert(tab_pane_ids(kept)[k] == id);
                assert(tab_pane_ids(kept).contains(id));
                assert(tab_pane_ids(head).contains(id));
                let j = choose|j: int| 0 <= j < head.len() && tab_pane_ids(head)[j] == id;
                assert(ids[j] == id);
            } else {
                assert(ids[panes.len() - 1] == id);
            }
        }
        if keep(last) {
            assert(tab_pane_ids(result) =~= tab_pane_ids(kept).push(last.pane_id));
            assert(!tab_pane_ids(kept).contains(last.pane_id)) by {
                if tab_pane_ids(kept).contains(last.pane_id) {
                    assert(tab_pane_ids(head).contains(last.pane_id));
                    let j = choose|j: int|
                        0 <= j < head.len() && tab_pane_ids(head)[j] == last.pane_id;
                    assert(ids[j] == ids[panes.len() - 1]);
                }
            }
        }
    }
}

/// Sweeping keeps the state well formed.
pub proof fn lemma_swept_wf(m: MuxView)
    requires
        m.wf(),
    ensures
        swept(m).wf(),
{
    let after = swept(m);
    let tabs = tabs_pruned(m);
    assert(tab_ids(after.tabs) =~= tab_ids(m.tabs));
    assert(window_ids(after.windows) =~= window_ids(m.windows));
    assert forall|i: int| 0 <= i < after.tabs.len() implies tab_pane_ids(
        (#[trigger] after.tabs[i]).panes,
    ).no_duplicates() by {
        assert(tab_pane_ids(m.tabs[i].panes).no_duplicates());
        lemma_filtered_panes_distinct(m.tabs[i].panes, pane_lives(m));
    }
    assert forall|i: int| 0 <= i < after.windows.len() implies (
    #[trigger] after.windows[i]).tabs.no_duplicates() by {
        assert(m.windows[i].tabs.no_duplicates());
        lemma_filter_members(m.windows[i].tabs, tab_stays(tabs));
    }
    assert forall|i: int, k: int|
        0 <= i < after.windows.len() && 0 <= k < after.windows[i].tabs.len() implies tab_ids(
        after.tabs,
    ).contains(#[trigger] after.windows[i].tabs[k]) by {
        lemma_filter_members(m.windows[i].tabs, tab_stays(tabs));
        let x = after.windows[i].tabs[k];
        assert(after.windows[i].tabs == m.windows[i].tabs.filter(tab_stays(tabs)));
        assert(after.windows[i].tabs.contains(x));
        assert(tab_stays(tabs)(x));
    }
}

impl Tab {
    /// Whether all panes of the tab are dead.
    pub fn is_dead(&self) -> (dead: bool)
        ensures
            dead == tab_is_dead(self@),
    {
        let mut i: usize = 0;
        while i < self.panes.len()
            invariant
                i <= self.panes@.len(),
                forall|k: int| 0 <= k < i ==> (#[trigger] self.panes@[k]).dead,
            decreases self.panes@.len() - i,
        {
            if !self.panes[i].dead {
                assert(!self@.panes[i as int].dead);
                return false;
            }
            i += 1;
        }
        true
    }
}

impl Mux {
    fn living_panes(&self, at: usize) -> (rest: Vec<TabPane>)
        requires
            self.wf(),
            at < self.tabs@.len(),
        ensures
            rest@ == self@.tabs[at as int].panes.filter(pane_lives(self@)),
    {
        let ghost all = self@.tabs[at as int].panes;
        let ghost keep = pane_lives(self@);
        let mut rest: Vec<TabPane> = Vec::new();
        let mut i: usize = 0;
        proof {
            reveal(Seq::filter);
            assert(all.take(0).filter(keep) =~= Seq::empty());
        }
        while i < self.tabs[at].panes.len()
            invariant
                self.wf(),
                at < self.tabs@.len(),
                all == self@.tabs[at as int].panes,
                all == self.tabs@[at as int].panes@,
                keep == pane_lives(self@),
                i <= all.len(),
                rest@ == all.take(i as int).filter(keep),
            decreases all.len() - i,
        {
            let pane = self.tabs[at].panes[i];
            proof {
                reveal(Seq::filter);
                assert(all.take(i + 1).drop_last() =~= all.take(i as int));
                assert(all.take(i + 1).last() == pane);
            }
            if !pane.dead && self.pane_place(pane.pane_id).is_some() {
                rest.push(pane);
            }
            i += 1;
        }
        assert(all.take(i as int) =~= all);
        rest
    }

    fn tab_listed(&self, tab_id: TabId) -> (listed: bool)
        ensures
            listed == is_listed(self@.windows, tab_id),
    {
        let found = self.window_containing_tab(tab_id);
        proof {
            crate::mux::lemma_window_holding_tab(self@.windows, tab_id);
        }
        found.is_some()
    }

    fn sweep_tabs(&mut self)
        requires
            old(self).wf(),
        ensures
            final(self)@ == (MuxView { tabs: tabs_pruned(old(self)@), ..old(self)@ }),
    {
        let ghost before = self@;
        let mut i: usize = 0;
        while i < self.tabs.len()
            invariant
                before.wf(),
                self.wf(),
                i <= self.tabs@.len(),
                self.tabs@.len() == before.tabs.len(),
                self@ == (MuxView { tabs: self@.tabs, ..before }),
                forall|k: int|
                    0 <= k < i ==> (#[trigger] self@.tabs[k]) == tabs_pruned(before)[k],
                forall|k: int|
                    i <= k < self.tabs@.len() ==> (#[trigger] self@.tabs[k]) == before.tabs[k],
            decreases self.tabs@.len() - i,
        {
            let ghost now = self@;
            assert(now.tabs[i as int] == self.tabs@[i as int]@);
            if self.tab_listed(self.tabs[i].tab_id) {
                let rest = self.living_panes(i);
                assert(pane_lives(now) =~= pane_lives(before));
                let focus = match self.tabs[i].active_pane {
                    None => None,
                    Some(id) => {
                        let mut kept = false;
                        let mut j: usize = 0;
                        while j < rest.len()
                            invariant
                                j <= rest@.len(),
                                kept == exists|m: int|
                                    0 <= m < j && #[trigger] rest@[m].pane_id == id,
                            decreases rest@.len() - j,
                        {
                            if rest[j].pane_id == id {
                                kept = true;
                            }
                            j += 1;
                        }
                        proof {
                            let ids = tab_pane_ids(rest@);
                            if kept {
                                let m = choose|m: int|
                                    0 <= m < rest@.len() && #[trigger] rest@[m].pane_id == id;
                                assert(ids[m] == id);
                            }
                            if ids.contains(id) {
                                let m = choose|m: int| 0 <= m < ids.len() && ids[m] == id;
                                assert(rest@[m].pane_id == id);
                            }
                        }
                        if kept {
                            Some(id)
                        } else if rest.len() == 0 {
                            None
                        } else {
                            Some(rest[0].pane_id)
                        }
                    },
                };
                self.tabs[i].panes = rest;
                self.tabs[i].active_pane = focus;
                assert(self@.tabs[i as int] =~= tab_pruned(before, before.tabs[i as int]));
                assert forall|k: int| 0 <= k < self.tabs@.len() && k != i implies (
                #[trigger] self@.tabs[k]) == now.tabs[k] by {}
                proof {
                    lemma_tab_shrunk_wf(now, i as int, self@);
                }
            }
            i += 1;
        }
        assert(self@.tabs =~= tabs_pruned(before));
    }

    fn staying_tabs(&self, at: usize) -> (rest: Vec<TabId>)
        requires
            tab_ids(self@.tabs).no_duplicates(),
            at < self.windows@.len(),
        ensures
            rest@ == self@.windows[at as int].tabs.filter(tab_stays(self@.tabs)),
    {
        let ghost all = self@.windows[at as int].tabs;
        let ghost keep = tab_stays(self@.tabs);
        let mut rest: Vec<TabId> = Vec::new();
        let mut i: usize = 0;
        proof {
            reveal(Seq::filter);
            assert(all.take(0).filter(keep) =~= Seq::empty());
        }
        while i < self.windows[at].tabs.len()
            invariant
                tab_ids(self@.tabs).no_duplicates(),
                at < self.windows@.len(),
                all == self.windows@[at as int].tabs@,
                keep == tab_stays(self@.tabs),
                i <= all.len(),
                rest@ == all.take(i as int).filter(keep),
            decreases all.len() - i,
        {
            let tab_id = self.windows[at].tabs[i];
            proof {
                reveal(Seq::filter);
                assert(all.take(i + 1).drop_last() =~= all.take(i as int));
                assert(all.take(i + 1).last() == tab_id);
            }
            let stays = match self.tab_place(tab_id) {
                Some(place) => self.tabs[place].registered && !self.tabs[place].is_dead(),
                None => false,
            };
            if stays {
                rest.push(tab_id);
            }
            i += 1;
        }
        assert(all.take(i as int) =~= all);
        rest
    }

    fn sweep_windows(&mut self)
        requires
            tab_ids(old(self)@.tabs).no_duplicates(),
            forall|i: int|
                0 <= i < old(self)@.windows.len() ==> (
                #[trigger] old(self)@.windows[i]).tabs.no_duplicates(),
        ensures
            final(self)@ == (MuxView {
                windows: old(self)@.windows.map_values(
                    |w: WindowView| window_pruned(w, old(self)@.tabs),
                ),
                ..old(self)@
            }),
    {
        let ghost before = self@;
        let mut i: usize = 0;
        while i < self.windows.len()
            invariant
                tab_ids(before.tabs).no_duplicates(),
                i <= self.windows@.len(),
                self.windows@.len() == before.windows.len(),
                self@ == (MuxView { windows: self@.windows, ..before }),
                forall|k: int|
                    0 <= k < before.windows.len() ==> (
                    #[trigger] before.windows[k]).tabs.no_duplicates(),
                forall|k: int|
                    0 <= k < i ==> (#[trigger] self@.windows[k]) == window_pruned(
                        before.windows[k],
                        before.tabs,
                    ),
                forall|k: int|
                    i <= k < self.windows@.len() ==> (#[trigger] self@.windows[k])
                        == before.windows[k],
            decreases self.windows@.len() - i,
        {
            let ghost now = self@;
            assert(now.windows[i as int] == self.windows@[i as int]@);
            assert(before.windows[i as int].tabs.no_duplicates());
            let rest = self.staying_tabs(i);
            proof {
                lemma_filter_members(before.windows[i as int].tabs, tab_stays(before.tabs));
            }
            let old_active: usize = self.windows[i].active;
            let mut active: usize = old_active;
            let mut found = false;
            if old_active < self.windows[i].tabs.len() {
                match place_of(&rest, self.windows[i].tabs[old_active]) {
                    Some(place) => {
                        active = place;
                        found = true;
                    },
                    None => {},
                }
            }
            if !found && rest.len() > 0 && active >= rest.len() {
                active = rest.len() - 1;
            }
            self.windows[i].tabs = rest;
            self.windows[i].active = active;
            assert(self@.windows[i as int] =~= window_pruned(
                before.windows[i as int],
                before.tabs,
            ));
            assert forall|k: int| 0 <= k < self.windows@.len() && k != i implies (
            #[trigger] self@.windows[k]) == now.windows[k] by {}
            i += 1;
        }
        assert(self@.windows =~= before.windows.map_values(
            |w: WindowView| window_pruned(w, before.tabs),
        ));
    }

    fn dead_tab_ids(&self) -> (ids: Vec<TabId>)
        ensures
            ids@ == dead_tabs(self@.tabs),
    {
        let mut ids: Vec<TabId> = Vec::new();
        let mut i: usize = 0;
        assert(self@.tabs.take(0) =~= Seq::empty());
        while i < self.tabs.len()
            invariant
                i <= self.tabs@.len(),
                ids@ == dead_tabs(self@.tabs.take(i as int)),
            decreases self.tabs@.len() - i,
        {
            assert(self@.tabs.take(i + 1).drop_last() =~= self@.tabs.take(i as int));
            assert(self@.tabs.take(i + 1).last() == self.tabs@[i as int]@);
            if self.tabs[i].registered && self.tabs[i].is_dead() {
                ids.push(self.tabs[i].tab_id);
            }
            i += 1;
        }
        assert(self@.tabs.take(i as int) =~= self@.tabs);
        ids
    }

    fn empty_window_ids(&self) -> (ids: Vec<WindowId>)
        ensures
            ids@ == empty_windows(self@.windows),
    {
        let mut ids: Vec<WindowId> = Vec::new();
        let mut i: usize = 0;
        assert(self@.windows.take(0) =~= Seq::empty());
        while i < self.windows.len()
            invariant
                i <= self.windows@.len(),
                ids@ == empty_windows(self@.windows.take(i as int)),
            decreases self.windows@.len() - i,
        {
            assert(self@.windows.take(i + 1).drop_last() =~= self@.windows.take(i as int));
            assert(self@.windows.take(i + 1).last() == self.windows@[i as int]@);
            if self.windows[i].tabs.len() == 0 {
                ids.push(self.windows[i].window_id);
            }
            i += 1;
        }
        assert(self@.windows.take(i as int) =~= self@.windows);
        ids
    }

    /// Prunes what is dead, unless something is under way.
    pub fn prune_dead_windows(&mut self)
        requires
            old(self).wf(),
        ensures
            final(self).wf(),
            final(self)@ == pruned(old(self)@),
    {
        if self.activity > 0 {
            return;
        }
        proof {
            lemma_swept_wf(self@);
        }
        let ghost before = self@;
        self.sweep_tabs();
        assert(tab_ids(self@.tabs) =~= tab_ids(before.tabs));
        self.sweep_windows();
        assert(self@ =~= swept(before));
        let dead = self.dead_tab_ids();
        let empty = self.empty_window_ids();
        let ghost clean = self@;
        let mut i: usize = 0;
        assert(dead@.take(0) =~= Seq::empty());
        while i < dead.len()
            invariant
                self.wf(),
                i <= dead@.len(),
                self@ == tabs_removed(clean, dead@.take(i as int)),
            decreases dead@.len() - i,
        {
            assert(dead@.take(i + 1).drop_last() =~= dead@.take(i as int));
            let removed = self.remove_tab_internal(dead[i]);
            i += 1;
        }
        assert(dead@.take(i as int) =~= dead@);
        let ghost tidy = self@;
        let mut i: usize = 0;
        assert(empty@.take(0) =~= Seq::empty());
        while i < empty.len()
            invariant
                self.wf(),
                i <= empty@.len(),
                self@ == windows_removed(tidy, empty@.take(i as int)),
            decreases empty@.len() - i,
        {
            assert(empty@.take(i + 1).drop_last() =~= empty@.take(i as int));
            self.remove_window_internal_for_recovery(empty[i]);
            i += 1;
        }
        assert(empty@.take(i as int) =~= empty@);
        if self.panes.len() == 0 {
            self.notify(MuxNotification::Empty);
        }
    }

    /// Removes a pane, and prunes.
    pub fn remove_pane(&mut self, pane_id: PaneId)
        requires
            old(self).wf(),
        ensures
            final(self).wf(),
            final(self)@ == pruned(pane_removed(old(self)@, pane_id)),
    {
        self.remove_pane_internal(pane_id);
        self.prune_dead_windows();
    }

    /// Removes a tab, and prunes.
    pub fn remove_tab(&mut self, tab_id: TabId) -> (removed: Option<Tab>)
        requires
            old(self).wf(),
        ensures
            final(self).wf(),
            final(self)@ == pruned(tab_removed(old(self)@, tab_id)),
            match removed {
                Some(tab) => old(self)@.has_tab(tab_id) && tab@ == old(self)@.tab(tab_id),
                None => !old(self)@.has_tab(tab_id),
            },
    {
        let tab = self.remove_tab_internal(tab_id);
        self.prune_dead_windows();
        tab
    }
}

/// Shrinking the panes of one tab keeps the state well formed.
proof fn lemma_tab_shrunk_wf(before: MuxView, at: int, after: MuxView)
    requires
        before.wf(),
        0 <= at < before.tabs.len(),
        after == (MuxView { tabs: after.tabs, ..before }),
        after.tabs.len() == before.tabs.len(),
        forall|k: int|
            0 <= k < before.tabs.len() && k != at ==> (#[trigger] after.tabs[k])
                == before.tabs[k],
        after.tabs[at].tab_id == before.tabs[at].tab_id,
        exists|keep: spec_fn(TabPane) -> bool|
            after.tabs[at].panes == #[trigger] before.tabs[at].panes.filter(keep),
    ensures
        after.wf(),
{
    let keep = choose|keep: spec_fn(TabPane) -> bool|
        after.tabs[at].panes == #[trigger] before.tabs[at].panes.filter(keep);
    assert(tab_pane_ids(before.tabs[at].panes).no_duplicates());
    lemma_filtered_panes_distinct(before.tabs[at].panes, keep);
    assert(tab_ids(after.tabs) =~= tab_ids(before.tabs));
    assert forall|i: int| 0 <= i < after.tabs.len() implies tab_pane_ids(
        (#[trigger] after.tabs[i]).panes,
    ).no_duplicates() by {
        assert(tab_pane_ids(before.tabs[i].panes).no_duplicates());
    }
    assert forall|i: int, k: int|
        0 <= i < after.windows.len() && 0 <= k < after.windows[i].tabs.len() implies tab_ids(
        after.tabs,
    ).contains(#[trigger] after.windows[i].tabs[k]) by {
        assert(tab_ids(before.tabs).contains(before.windows[i].tabs[k]));
    }
}

/// The focus in a tab stays where its pane stays; where that goes, the first of the
/// others has it; and where there was none, there is none.
pub proof fn law_focus_stays_within_the_tab(active: Option<PaneId>, rest: Seq<TabPane>)
    ensures
        ({
            let after = focus_within(active, rest);
            &&& active is None ==> after is None
            &&& active matches Some(id) ==> tab_pane_ids(rest).contains(id) ==> after == active
            &&& active matches Some(id) ==> !tab_pane_ids(rest).contains(id) && rest.len() > 0
                ==> after == Some(rest[0].pane_id)
            &&& rest.len() == 0 ==> after is None
            &&& after matches Some(id) ==> tab_pane_ids(rest).contains(id)
        }),
{
    if rest.len() > 0 {
        assert(tab_pane_ids(rest)[0] == rest[0].pane_id);
    }
}

} // verus!
