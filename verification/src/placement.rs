//! Decisions around focusing, spawning, splitting and moving panes. What only a
//! domain or a terminal can do lies between these steps.

use crate::domains::{domain_with_id, spawn_domain, spawn_domain_present};
use crate::mux::{
    notified, pane_location, panes_removed, place_of, tab_removed, with_effect, Mux,
};
use crate::mux_model::{
    tab_ids, tab_pane_ids, window_ids, DomainId, EffectView, MuxEffect, MuxView, NotificationView,
    Pane, PaneId, SpawnTabDomain, Tab, TabId, TabPane, TabView, TerminalSize, WindowId, WindowView,
};
use crate::mux_ops::current_workspace;
use crate::population::{
    counted_down, counted_up, empty_window, pane_added, reader_view, tab_added_to_window,
    tab_known, window_put, MuxWindowBuilder,
};
use crate::prune::{
    focus_within, is_listed, lemma_filtered_panes_distinct, pruned, tab_is_dead,
};
use crate::recovery::{lemma_pane_location, pane_taken};
use crate::text::{decimal, decimal_text, optional_string};
use vstd::prelude::*;

verus! {

/// The tab of a window that is active.
pub open spec fn active_tab(window: WindowView) -> Option<TabId> {
    if window.active < window.tabs.len() {
        Some(window.tabs[window.active as int])
    } else {
        None
    }
}

/// The state with a tab active in its window.
pub open spec fn window_activated(m: MuxView, window_id: WindowId, tab_id: TabId) -> MuxView {
    let window = m.window(window_id);
    MuxView {
        windows: m.windows.update(
            window_ids(m.windows).index_of(window_id),
            WindowView { active: window.tabs.index_of(tab_id) as usize, ..window },
        ),
        ..m
    }
}

/// The state with a pane focused in its tab.
pub open spec fn tab_focused(m: MuxView, tab_id: TabId, pane_id: PaneId) -> MuxView {
    MuxView {
        tabs: m.tabs.update(
            tab_ids(m.tabs).index_of(tab_id),
            TabView { active_pane: Some(pane_id), ..m.tab(tab_id) },
        ),
        ..m
    }
}

/// The state after a pane and its tab were focused, or why they cannot be.
pub open spec fn focused(m: MuxView, pane_id: PaneId) -> Result<MuxView, Seq<char>> {
    if !m.has_pane(pane_id) {
        Err("pane "@ + decimal(pane_id as nat) + " not found"@)
    } else {
        match pane_location(m, pane_id) {
            None => Err("can't find "@ + decimal(pane_id as nat) + " in the mux"@),
            Some((_, window_id, tab_id)) => Ok(
                with_effect(
                    tab_focused(window_activated(m, window_id, tab_id), tab_id, pane_id),
                    EffectView::ActivatePane { tab_id, pane_id },
                ),
            ),
        }
    }
}

proof fn lemma_focus_wf(m: MuxView, window_id: WindowId, tab_id: TabId, pane_id: PaneId)
    requires
        m.wf(),
        m.has_window(window_id),
        tab_ids(m.tabs).contains(tab_id),
    ensures
        window_activated(m, window_id, tab_id).wf(),
        tab_focused(m, tab_id, pane_id).wf(),
        window_ids(window_activated(m, window_id, tab_id).windows) == window_ids(m.windows),
{
    let a = window_activated(m, window_id, tab_id);
    let ids = window_ids(m.windows);
    assert(ids[ids.index_of(window_id)] == window_id);
    assert(window_ids(a.windows) =~= ids);
    assert forall|i: int| 0 <= i < a.windows.len() implies (
    #[trigger] a.windows[i]).tabs.no_duplicates() by {
        assert(m.windows[i].tabs.no_duplicates());
    }
    assert forall|i: int, k: int|
        0 <= i < a.windows.len() && 0 <= k < a.windows[i].tabs.len() implies tab_ids(
        a.tabs,
    ).contains(#[trigger] a.windows[i].tabs[k]) by {
        assert(tab_ids(m.tabs).contains(m.windows[i].tabs[k]));
    }
    let b = tab_focused(m, tab_id, pane_id);
    let tids = tab_ids(m.tabs);
    assert(tids[tids.index_of(tab_id)] == tab_id);
    assert(tab_ids(b.tabs) =~= tids);
    assert forall|i: int| 0 <= i < b.tabs.len() implies tab_pane_ids(
        (#[trigger] b.tabs[i]).panes,
    ).no_duplicates() by {
        assert(tab_pane_ids(m.tabs[i].panes).no_duplicates());
    }
    assert forall|i: int, k: int|
        0 <= i < b.windows.len() && 0 <= k < b.windows[i].tabs.len() implies tab_ids(
        b.tabs,
    ).contains(#[trigger] b.windows[i].tabs[k]) by {
        assert(tab_ids(m.tabs).contains(m.windows[i].tabs[k]));
    }
}

impl Mux {
    /// Makes a tab active in its window, if the window lists it.
    fn activate_tab(&mut self, window_id: WindowId, tab_id: TabId) -> (found: bool)
        requires
            old(self).wf(),
            old(self)@.has_window(window_id),
        ensures
            final(self).wf(),
            found == old(self)@.window(window_id).tabs.contains(tab_id),
            final(self)@ == if found {
                window_activated(old(self)@, window_id, tab_id)
            } else {
                old(self)@
            },
    {
        let ghost before = self@;
        match self.window_place(window_id) {
            Some(place) => {
                assert(before.windows[place as int].tabs.no_duplicates());
                match place_of(&self.windows[place].tabs, tab_id) {
                    Some(index) => {
                        self.windows[place].active = index;
                        proof {
                            let window = before.windows[place as int];
                            assert(tab_ids(before.tabs).contains(window.tabs[index as int]));
                            assert(self@.windows =~= before.windows.update(
                                place as int,
                                WindowView { active: index, ..window },
                            ));
                            assert(self@ =~= window_activated(before, window_id, tab_id));
                            lemma_focus_wf(before, window_id, tab_id, 0);
                        }
                        true
                    },
                    None => false,
                }
            },
            None => false,
        }
    }

    /// Focuses a pane in its tab, and its tab in its window.
    pub fn focus_pane_and_containing_tab(&mut self, pane_id: PaneId) -> (result: Result<
        (),
        String,
    >)
        requires
            old(self).wf(),
        ensures
            final(self).wf(),
            match result {
                Ok(()) => focused(old(self)@, pane_id) == Ok::<MuxView, Seq<char>>(final(self)@),
                Err(reason) => focused(old(self)@, pane_id) == Err::<MuxView, Seq<char>>(reason@)
                    && final(self)@ == old(self)@,
            },
    {
        if self.pane_place(pane_id).is_none() {
            return Err(
                "pane ".to_owned().concat(decimal_text(pane_id as u64).as_str()).concat(
                    " not found",
                ),
            );
        }
        let (window_id, tab_id) = match self.resolve_pane_id(pane_id) {
            Some((_, window_id, tab_id)) => (window_id, tab_id),
            None => {
                return Err(
                    "can't find ".to_owned().concat(decimal_text(pane_id as u64).as_str()).concat(
                        " in the mux",
                    ),
                );
            },
        };
        proof {
            lemma_pane_location(self@, pane_id);
            lemma_focus_wf(self@, window_id, tab_id, pane_id);
        }
        let found = self.activate_tab(window_id, tab_id);
        let ghost mid = self@;
        match self.tab_place(tab_id) {
            Some(place) => {
                self.tabs[place].active_pane = Some(pane_id);
                proof {
                    assert(self@.tabs =~= mid.tabs.update(
                        place as int,
                        TabView { active_pane: Some(pane_id), ..mid.tab(tab_id) },
                    ));
                    assert(self@ =~= tab_focused(mid, tab_id, pane_id));
                    lemma_focus_wf(mid, window_id, tab_id, pane_id);
                }
            },
            None => {},
        }
        self.push_effect(MuxEffect::ActivatePane { tab_id, pane_id });
        Ok(())
    }

    /// The active tab of a window.
    pub fn get_active_tab_for_window(&self, window_id: WindowId) -> (tab_id: Option<TabId>)
        requires
            self.wf(),
        ensures
            tab_id == if self@.has_window(window_id) {
                active_tab(self@.window(window_id))
            } else {
                None
            },
    {
        match self.window_place(window_id) {
            Some(place) => {
                let active: usize = self.windows[place].active;
                if active < self.windows[place].tabs.len() {
                    Some(self.windows[place].tabs[active])
                } else {
                    None
                }
            },
            None => None,
        }
    }
}

/// The panes of a domain, in order.
pub open spec fn panes_in_domain(panes: Seq<Pane>, domain_id: DomainId) -> Seq<PaneId>
    decreases panes.len(),
{
    if panes.len() == 0 {
        Seq::empty()
    } else {
        let head = panes_in_domain(panes.drop_last(), domain_id);
        if panes.last().domain_id == domain_id {
            head.push(panes.last().pane_id)
        } else {
            head
        }
    }
}

/// Being in another domain than this one.
pub open spec fn outside_domain(domain_id: DomainId) -> spec_fn(TabPane) -> bool {
    |p: TabPane| p.domain_id != domain_id
}

/// A tab without the panes of a domain.
pub open spec fn tab_without_domain(tab: TabView, domain_id: DomainId) -> TabView {
    let rest = tab.panes.filter(outside_domain(domain_id));
    TabView { panes: rest, active_pane: focus_within(tab.active_pane, rest), ..tab }
}

/// The tabs, those that windows list without the panes of a domain.
pub open spec fn tabs_without_domain(m: MuxView, domain_id: DomainId) -> Seq<TabView> {
    m.tabs.map_values(
        |t: TabView|
            if is_listed(m.windows, t.tab_id) {
                tab_without_domain(t, domain_id)
            } else {
                t
            },
    )
}

/// The state after a domain was detached: its panes are gone, and what they
/// leave empty is pruned.
pub open spec fn domain_detached(m: MuxView, domain_id: DomainId) -> MuxView {
    pruned(
        panes_removed(
            MuxView { tabs: tabs_without_domain(m, domain_id), ..m },
            panes_in_domain(m.panes, domain_id),
        ),
    )
}

fn panes_outside(panes: &Vec<TabPane>, domain_id: DomainId) -> (rest: Vec<TabPane>)
    ensures
        rest@ == panes@.filter(outside_domain(domain_id)),
{
    let ghost keep = outside_domain(domain_id);
    let mut rest: Vec<TabPane> = Vec::new();
    let mut i: usize = 0;
    proof {
        reveal(Seq::filter);
        assert(panes@.take(0).filter(keep) =~= Seq::empty());
    }
    while i < panes.len()
        invariant
            i <= panes@.len(),
            keep == outside_domain(domain_id),
            rest@ == panes@.take(i as int).filter(keep),
        decreases panes@.len() - i,
    {
        proof {
            reveal(Seq::filter);
            assert(panes@.take(i + 1).drop_last() =~= panes@.take(i as int));
            assert(panes@.take(i + 1).last() == panes@[i as int]);
        }
        if panes[i].domain_id != domain_id {
            rest.push(panes[i]);
        }
        i += 1;
    }
    assert(panes@.take(i as int) =~= panes@);
    rest
}

/// The focus of a tab that may have lost the pane that had it.
fn refocus(active: Option<PaneId>, rest: &Vec<TabPane>) -> (focus: Option<PaneId>)
    ensures
        focus == focus_within(active, rest@),
{
    match active {
        None => None,
        Some(id) => {
            let mut j: usize = 0;
            while j < rest.len()
                invariant
                    active == Some(id),
                    j <= rest@.len(),
                    forall|m: int| 0 <= m < j ==> (#[trigger] rest@[m]).pane_id != id,
                decreases rest@.len() - j,
            {
                if rest[j].pane_id == id {
                    assert(tab_pane_ids(rest@)[j as int] == id);
                    return Some(id);
                }
                j += 1;
            }
            assert(!tab_pane_ids(rest@).contains(id)) by {
                if tab_pane_ids(rest@).contains(id) {
                    let m = choose|m: int|
                        0 <= m < rest@.len() && tab_pane_ids(rest@)[m] == id;
                    assert(rest@[m].pane_id == id);
                }
            }
            if rest.len() == 0 {
                None
            } else {
                Some(rest[0].pane_id)
            }
        },
    }
}

pub proof fn lemma_without_domain_wf(m: MuxView, domain_id: DomainId)
    requires
        m.wf(),
    ensures
        (MuxView { tabs: tabs_without_domain(m, domain_id), ..m }).wf(),
{
    let after = MuxView { tabs: tabs_without_domain(m, domain_id), ..m };
    assert(tab_ids(after.tabs) =~= tab_ids(m.tabs));
    assert forall|i: int| 0 <= i < after.tabs.len() implies tab_pane_ids(
        (#[trigger] after.tabs[i]).panes,
    ).no_duplicates() by {
        assert(tab_pane_ids(m.tabs[i].panes).no_duplicates());
        lemma_filtered_panes_distinct(m.tabs[i].panes, outside_domain(domain_id));
    }
    assert forall|i: int, k: int|
        0 <= i < after.windows.len() && 0 <= k < after.windows[i].tabs.len() implies tab_ids(
        after.tabs,
    ).contains(#[trigger] after.windows[i].tabs[k]) by {
        assert(tab_ids(m.tabs).contains(m.windows[i].tabs[k]));
    }
}

impl Mux {
    /// Removes the panes of a domain that was detached, and prunes.
    pub fn domain_was_detached(&mut self, domain_id: DomainId)
        requires
            old(self).wf(),
        ensures
            final(self).wf(),
            final(self)@ == domain_detached(old(self)@, domain_id),
    {
        let ghost before = self@;
        let mut dead: Vec<PaneId> = Vec::new();
        let mut i: usize = 0;
        assert(before.panes.take(0) =~= Seq::empty());
        while i < self.panes.len()
            invariant
                self@ == before,
                i <= self.panes@.len(),
                dead@ == panes_in_domain(before.panes.take(i as int), domain_id),
            decreases self.panes@.len() - i,
        {
            assert(before.panes.take(i + 1).drop_last() =~= before.panes.take(i as int));
            assert(before.panes.take(i + 1).last() == self.panes@[i as int]);
            if self.panes[i].domain_id == domain_id {
                dead.push(self.panes[i].pane_id);
            }
            i += 1;
        }
        assert(before.panes.take(i as int) =~= before.panes);
        let mut i: usize = 0;
        while i < self.tabs.len()
            invariant
                i <= self.tabs@.len(),
                self.tabs@.len() == before.tabs.len(),
                self@ == (MuxView { tabs: self@.tabs, ..before }),
                forall|k: int|
                    0 <= k < i ==> (#[trigger] self@.tabs[k]) == tabs_without_domain(
                        before,
                        domain_id,
                    )[k],
                forall|k: int|
                    i <= k < self.tabs@.len() ==> (#[trigger] self@.tabs[k]) == before.tabs[k],
            decreases self.tabs@.len() - i,
        {
            let ghost now = self@;
            assert(now.tabs[i as int] == self.tabs@[i as int]@);
            let holder = self.window_containing_tab(self.tabs[i].tab_id);
            proof {
                crate::mux::lemma_window_holding_tab(
                    before.windows,
                    before.tabs[i as int].tab_id,
                );
            }
            if holder.is_some() {
                let rest = panes_outside(&self.tabs[i].panes, domain_id);
                let focus = refocus(self.tabs[i].active_pane, &rest);
                self.tabs[i].panes = rest;
                self.tabs[i].active_pane = focus;
                assert(self@.tabs[i as int] =~= tab_without_domain(
                    before.tabs[i as int],
                    domain_id,
                ));
                assert forall|k: int| 0 <= k < self.tabs@.len() && k != i implies (
                #[trigger] self@.tabs[k]) == now.tabs[k] by {}
            }
            i += 1;
        }
        assert(self@.tabs =~= tabs_without_domain(before, domain_id));
        proof {
            lemma_without_domain_wf(before, domain_id);
        }
        let ghost clean = self@;
        let mut i: usize = 0;
        assert(dead@.take(0) =~= Seq::empty());
        while i < dead.len()
            invariant
                self.wf(),
                i <= dead@.len(),
                self@ == panes_removed(clean, dead@.take(i as int)),
            decreases dead@.len() - i,
        {
            assert(dead@.take(i + 1).drop_last() =~= dead@.take(i as int));
            self.remove_pane_internal(dead[i]);
            i += 1;
        }
        assert(dead@.take(i as int) =~= dead@);
        self.prune_dead_windows();
    }
}

/// The window in which a tab is spawned, the size of the tab, and the pane
/// whose settings it takes over: those of the window's active tab, or a new
/// window with the requested size.
pub open spec fn spawn_window(
    m: MuxView,
    window_id: Option<WindowId>,
    size: TerminalSize,
    new_window_id: WindowId,
) -> Result<(WindowId, TerminalSize, Option<PaneId>), Seq<char>> {
    match window_id {
        None => Ok((new_window_id, size, None)),
        Some(id) => if !m.has_window(id) {
            Err("window_id "@ + decimal(id as nat) + " not found on this server"@)
        } else {
            match active_tab(m.window(id)) {
                None => Err("window "@ + decimal(id as nat) + " has no tabs"@),
                Some(tab_id) => match m.tab(tab_id).active_pane {
                    None => Err(
                        "active tab in window "@ + decimal(id as nat) + " has no panes"@,
                    ),
                    Some(pane_id) => Ok((id, m.tab(tab_id).size, Some(pane_id))),
                },
            }
        },
    }
}

/// What a tab is spawned with.
pub struct SpawnPlan {
    pub domain_id: DomainId,
    pub window_id: WindowId,
    pub size: TerminalSize,
    pub config_from: Option<PaneId>,
    pub builder: Option<MuxWindowBuilder>,
}

impl Mux {
    /// Chooses domain, window and size for a new tab, and makes the window if
    /// none was named.
    pub fn begin_spawn(
        &mut self,
        window_id: Option<WindowId>,
        domain: &SpawnTabDomain,
        size: TerminalSize,
        current_pane_id: Option<PaneId>,
        workspace_for_new_window: String,
        new_window_id: WindowId,
    ) -> (result: Result<SpawnPlan, String>)
        requires
            old(self).wf(),
            spawn_domain_present(old(self)@, current_pane_id, domain@),
        ensures
            final(self).wf(),
            ({
                let chosen = spawn_domain(old(self)@, current_pane_id, domain@);
                let target = spawn_window(old(self)@, window_id, size, new_window_id);
                match result {
                    Err(reason) => {
                        &&& final(self)@ == old(self)@
                        &&& match chosen {
                            Err(text) => reason@ == "resolve_spawn_tab_domain: "@ + text,
                            Ok(_) => target == Err::<
                                (WindowId, TerminalSize, Option<PaneId>),
                                Seq<char>,
                            >(reason@),
                        }
                    },
                    Ok(plan) => {
                        &&& chosen is Ok && chosen->Ok_0.domain_id == plan.domain_id
                        &&& target == Ok::<(WindowId, TerminalSize, Option<PaneId>), Seq<char>>(
                            (plan.window_id, plan.size, plan.config_from),
                        )
                        &&& match plan.builder {
                            None => window_id is Some && final(self)@ == old(self)@,
                            Some(builder) => window_id is None && builder.id() == new_window_id
                                && !builder.announced() && final(self)@ == (MuxView {
                                activity: counted_up(old(self)@.activity),
                                ..window_put(
                                    old(self)@,
                                    empty_window(new_window_id, workspace_for_new_window@),
                                )
                            }),
                        }
                    },
                }
            }),
    {
        let domain_id = match self.resolve_spawn_tab_domain(current_pane_id, domain) {
            Ok(domain) => domain.domain_id,
            Err(reason) => {
                return Err("resolve_spawn_tab_domain: ".to_owned().concat(reason.as_str()));
            },
        };
        match window_id {
            Some(id) => {
                let place = match self.window_place(id) {
                    Some(place) => place,
                    None => {
                        return Err(
                            "window_id ".to_owned().concat(decimal_text(id as u64).as_str()).concat(
                                " not found on this server",
                            ),
                        );
                    },
                };
                let tab_id = match self.get_active_tab_for_window(id) {
                    Some(tab_id) => tab_id,
                    None => {
                        return Err(
                            "window ".to_owned().concat(decimal_text(id as u64).as_str()).concat(
                                " has no tabs",
                            ),
                        );
                    },
                };
                assert(tab_ids(self@.tabs).contains(
                    self@.windows[place as int].tabs[self@.windows[place as int].active as int],
                ));
                match self.tab_place(tab_id) {
                    Some(at) => match self.tabs[at].active_pane {
                        Some(pane_id) => Ok(
                            SpawnPlan {
                                domain_id,
                                window_id: id,
                                size: self.tabs[at].size,
                                config_from: Some(pane_id),
                                builder: None,
                            },
                        ),
                        None => Err(
                            "active tab in window ".to_owned().concat(
                                decimal_text(id as u64).as_str(),
                            ).concat(" has no panes"),
                        ),
                    },
                    None => {
                        assert(false);
                        Err("".to_owned())
                    },
                }
            },
            None => {
                let builder = self.new_empty_window(
                    new_window_id,
                    Some(workspace_for_new_window),
                );
                Ok(
                    SpawnPlan {
                        domain_id,
                        window_id: new_window_id,
                        size,
                        config_from: None,
                        builder: Some(builder),
                    },
                )
            },
        }
    }

    /// The pane whose directory a new tab starts in: the current pane, where it
    /// is known and in the domain of the new tab.
    pub fn spawn_directory_source(
        &self,
        current_pane_id: Option<PaneId>,
        domain_id: DomainId,
    ) -> (result: Result<Option<PaneId>, String>)
        requires
            self.wf(),
        ensures
            match current_pane_id {
                None => result == Ok::<Option<PaneId>, String>(None),
                Some(id) => match pane_location(self@, id) {
                    None => result is Err && result->Err_0@ == "pane_id "@ + decimal(id as nat)
                        + " invalid"@,
                    Some((pane_domain, _, _)) => result == Ok::<Option<PaneId>, String>(
                        if pane_domain == domain_id && self@.has_pane(id) {
                            Some(id)
                        } else {
                            None
                        },
                    ),
                },
            },
    {
        match current_pane_id {
            None => Ok(None),
            Some(id) => match self.resolve_pane_id(id) {
                None => Err(
                    "pane_id ".to_owned().concat(decimal_text(id as u64).as_str()).concat(
                        " invalid",
                    ),
                ),
                Some((pane_domain, _, _)) => {
                    if pane_domain == domain_id && self.pane_place(id).is_some() {
                        Ok(Some(id))
                    } else {
                        Ok(None)
                    }
                },
            },
        }
    }

    /// Makes a spawned tab active in its window, where the window lists it.
    pub fn finish_spawn(
        &mut self,
        window_id: WindowId,
        tab_id: TabId,
        active_pane: Option<PaneId>,
    ) -> (result: Result<PaneId, String>)
        requires
            old(self).wf(),
        ensures
            final(self).wf(),
            match active_pane {
                None => result is Err && result->Err_0@ == "missing active pane on tab!?"@
                    && final(self)@ == old(self)@,
                Some(pane_id) => if !old(self)@.has_window(window_id) {
                    result is Err && result->Err_0@ == "no such window!?"@ && final(self)@
                        == old(self)@
                } else {
                    result == Ok::<PaneId, String>(pane_id) && final(self)@ == if old(
                        self,
                    )@.window(window_id).tabs.contains(tab_id) {
                        window_activated(old(self)@, window_id, tab_id)
                    } else {
                        old(self)@
                    }
                },
            },
    {
        let pane_id = match active_pane {
            Some(pane_id) => pane_id,
            None => {
                return Err("missing active pane on tab!?".to_owned());
            },
        };
        if self.window_place(window_id).is_none() {
            return Err("no such window!?".to_owned());
        }
        let found = self.activate_tab(window_id, tab_id);
        Ok(pane_id)
    }
}

/// What a pane is split with.
#[derive(Debug)]
pub struct SplitPlan {
    pub window_id: WindowId,
    pub tab_id: TabId,
    pub domain_id: DomainId,
}

/// The dimensions of a pane that was split off.
#[derive(Clone, Copy, Debug, PartialEq, Eq, Structural)]
pub struct PaneDimensions {
    pub cols: usize,
    pub viewport_rows: usize,
    pub dpi: u32,
}

/// The size of a pane that was split off. Its pixels are not known.
pub fn split_size(dims: PaneDimensions) -> (size: TerminalSize)
    ensures
        size == (TerminalSize {
            rows: dims.viewport_rows,
            cols: dims.cols,
            pixel_width: 0,
            pixel_height: 0,
            dpi: dims.dpi,
        }),
{
    TerminalSize {
        rows: dims.viewport_rows,
        cols: dims.cols,
        pixel_width: 0,
        pixel_height: 0,
        dpi: dims.dpi,
    }
}

impl Mux {
    /// Chooses window, tab and domain for a split.
    pub fn plan_split(&self, pane_id: PaneId, domain: &SpawnTabDomain) -> (result: Result<
        SplitPlan,
        String,
    >)
        requires
            self.wf(),
            spawn_domain_present(self@, Some(pane_id), domain@),
        ensures
            match pane_location(self@, pane_id) {
                None => result is Err && result->Err_0@ == "pane_id "@ + decimal(pane_id as nat)
                    + " invalid"@,
                Some((_, window_id, tab_id)) => match spawn_domain(
                    self@,
                    Some(pane_id),
                    domain@,
                ) {
                    Err(text) => result is Err && result->Err_0@ == "resolve_spawn_tab_domain: "@
                        + text,
                    Ok(chosen) => result is Ok && result->Ok_0 == (SplitPlan {
                        window_id,
                        tab_id,
                        domain_id: chosen.domain_id,
                    }),
                },
            },
    {
        match self.resolve_pane_id(pane_id) {
            None => Err(
                "pane_id ".to_owned().concat(decimal_text(pane_id as u64).as_str()).concat(
                    " invalid",
                ),
            ),
            Some((_, window_id, tab_id)) => match self.resolve_spawn_tab_domain(
                Some(pane_id),
                domain,
            ) {
                Err(reason) => Err(
                    "resolve_spawn_tab_domain: ".to_owned().concat(reason.as_str()),
                ),
                Ok(chosen) => Ok(SplitPlan { window_id, tab_id, domain_id: chosen.domain_id }),
            },
        }
    }

    /// Checks that a pane is still known after its domain was attached.
    pub fn require_pane(&self, pane_id: PaneId) -> (result: Result<(), String>)
        requires
            self.wf(),
        ensures
            match result {
                Ok(()) => self@.has_pane(pane_id),
                Err(reason) => !self@.has_pane(pane_id) && reason@ == "pane_id "@ + decimal(
                    pane_id as nat,
                ) + " is invalid"@,
            },
    {
        if self.pane_place(pane_id).is_some() {
            Ok(())
        } else {
            Err(
                "pane_id ".to_owned().concat(decimal_text(pane_id as u64).as_str()).concat(
                    " is invalid",
                ),
            )
        }
    }

    /// Finds the domain and the tab of a pane that is to be moved.
    pub fn plan_move(&self, pane_id: PaneId) -> (result: Result<(DomainId, TabId), String>)
        requires
            self.wf(),
        ensures
            match pane_location(self@, pane_id) {
                None => result is Err && result->Err_0@ == "pane "@ + decimal(pane_id as nat)
                    + " not found"@,
                Some((domain_id, _, tab_id)) => if domain_with_id(self@.domains, domain_id)
                    is None {
                    result is Err && result->Err_0@ == "domain "@ + decimal(domain_id as nat)
                        + " of pane "@ + decimal(pane_id as nat) + " not found"@
                } else {
                    result == Ok::<(DomainId, TabId), String>((domain_id, tab_id))
                },
            },
    {
        match self.resolve_pane_id(pane_id) {
            None => Err(
                "pane ".to_owned().concat(decimal_text(pane_id as u64).as_str()).concat(
                    " not found",
                ),
            ),
            Some((domain_id, _, tab_id)) => {
                if self.get_domain(domain_id).is_none() {
                    Err(
                        "domain ".to_owned().concat(decimal_text(domain_id as u64).as_str()).concat(
                            " of pane ",
                        ).concat(decimal_text(pane_id as u64).as_str()).concat(" not found"),
                    )
                } else {
                    Ok((domain_id, tab_id))
                }
            },
        }
    }
}

/// Where a moved pane goes, and the size of its tab: that of the active tab of
/// the named window, or of the tab that it leaves, in a new window.
pub open spec fn move_target(
    m: MuxView,
    src_tab: TabId,
    window_id: Option<WindowId>,
    new_window_id: WindowId,
) -> Result<(WindowId, TerminalSize), Seq<char>> {
    if !m.has_tab(src_tab) {
        Err("Invalid tab id "@ + decimal(src_tab as nat))
    } else {
        match window_id {
            None => Ok((new_window_id, m.tab(src_tab).size)),
            Some(id) => if !m.has_window(id) {
                Err("window_id "@ + decimal(id as nat) + " not found on this server"@)
            } else {
                match active_tab(m.window(id)) {
                    None => Err("window "@ + decimal(id as nat) + " has no tabs"@),
                    Some(tab_id) => Ok((id, m.tab(tab_id).size)),
                }
            },
        }
    }
}

/// The state with the window of a moved pane made, where none was named.
pub open spec fn move_window_made(
    m: MuxView,
    window_id: Option<WindowId>,
    workspace: Option<Seq<char>>,
    new_window_id: WindowId,
) -> MuxView {
    match window_id {
        Some(_) => m,
        None => MuxView {
            activity: counted_up(m.activity),
            ..window_put(
                m,
                empty_window(
                    new_window_id,
                    match workspace {
                        Some(name) => name,
                        None => current_workspace(m),
                    },
                ),
            )
        },
    }
}

/// The state with the window of a moved pane announced, where none was named.
pub open spec fn move_window_announced(
    m: MuxView,
    window_id: Option<WindowId>,
    new_window_id: WindowId,
) -> MuxView {
    match window_id {
        Some(_) => m,
        None => notified(
            MuxView { activity: counted_down(m.activity), ..m },
            NotificationView::WindowCreated(new_window_id),
        ),
    }
}

/// What a moved pane is put back with.
pub struct MovePlan {
    pub window_id: WindowId,
    pub size: TerminalSize,
    pub pane: TabPane,
    pub builder: Option<MuxWindowBuilder>,
}

impl Mux {
    /// Takes a pane out of its tab, and chooses or makes the window that it
    /// moves to. A window that was made for a pane that is not there is announced
    /// all the same.
    pub fn begin_move(
        &mut self,
        pane_id: PaneId,
        src_tab: TabId,
        window_id: Option<WindowId>,
        workspace_for_new_window: Option<String>,
        new_window_id: WindowId,
    ) -> (result: Result<MovePlan, String>)
        requires
            old(self).wf(),
        ensures
            final(self).wf(),
            match move_target(old(self)@, src_tab, window_id, new_window_id) {
                Err(text) => result is Err && result->Err_0@ == text && final(self)@
                    == old(self)@,
                Ok((target, size)) => {
                    let made = move_window_made(
                        old(self)@,
                        window_id,
                        optional_string(workspace_for_new_window),
                        new_window_id,
                    );
                    let panes = old(self)@.tab(src_tab).panes;
                    if tab_pane_ids(panes).contains(pane_id) {
                        &&& result is Ok
                        &&& result->Ok_0.window_id == target
                        &&& result->Ok_0.size == size
                        &&& result->Ok_0.pane == panes[tab_pane_ids(panes).index_of(pane_id)]
                        &&& match result->Ok_0.builder {
                            Some(builder) => window_id is None && builder.id() == new_window_id
                                && !builder.announced(),
                            None => window_id is Some,
                        }
                        &&& final(self)@ == pane_taken(made, src_tab, pane_id)
                    } else {
                        &&& result is Err
                        &&& result->Err_0@ == "pane "@ + decimal(pane_id as nat)
                            + " wasn't in its containing tab!?"@
                        &&& final(self)@ == move_window_announced(made, window_id, new_window_id)
                    }
                },
            },
    {
        let at = match self.tab_place(src_tab) {
            Some(place) => place,
            None => {
                return Err(
                    "Invalid tab id ".to_owned().concat(decimal_text(src_tab as u64).as_str()),
                );
            },
        };
        if !self.tabs[at].registered {
            return Err(
                "Invalid tab id ".to_owned().concat(decimal_text(src_tab as u64).as_str()),
            );
        }
        let ghost before = self@;
        let mut builder: Option<MuxWindowBuilder> = None;
        let target: WindowId;
        let size: TerminalSize;
        match window_id {
            Some(id) => {
                let place = match self.window_place(id) {
                    Some(place) => place,
                    None => {
                        return Err(
                            "window_id ".to_owned().concat(decimal_text(id as u64).as_str()).concat(
                                " not found on this server",
                            ),
                        );
                    },
                };
                let tab_id = match self.get_active_tab_for_window(id) {
                    Some(tab_id) => tab_id,
                    None => {
                        return Err(
                            "window ".to_owned().concat(decimal_text(id as u64).as_str()).concat(
                                " has no tabs",
                            ),
                        );
                    },
                };
                assert(tab_ids(self@.tabs).contains(
                    self@.windows[place as int].tabs[self@.windows[place as int].active as int],
                ));
                target = id;
                size = match self.tab_place(tab_id) {
                    Some(tab_at) => self.tabs[tab_at].size,
                    None => self.tabs[at].size,
                };
            },
            None => {
                target = new_window_id;
                size = self.tabs[at].size;
                builder = Some(self.new_empty_window(new_window_id, workspace_for_new_window));
            },
        }
        let ghost made = self@;
        assert(made.tabs == before.tabs);
        assert(self.tabs@[at as int]@ == made.tabs[at as int]);
        assert(tab_pane_ids(made.tabs[at as int].panes).no_duplicates());
        let pane = match self.tabs[at].pane_place(pane_id) {
            Some(place) => self.tabs[at].panes[place],
            None => {
                if let Some(mut builder) = builder {
                    builder.notify(self);
                }
                return Err(
                    "pane ".to_owned().concat(decimal_text(pane_id as u64).as_str()).concat(
                        " wasn't in its containing tab!?",
                    ),
                );
            },
        };
        self.take_pane(src_tab, pane_id);
        Ok(MovePlan { window_id: target, size, pane, builder })
    }

    /// Puts a moved pane into a new tab of its window, and removes the tab that
    /// it left if that is dead.
    pub fn finish_move(
        &mut self,
        pane: TabPane,
        src_tab: TabId,
        window_id: WindowId,
        new_tab_id: TabId,
        size: TerminalSize,
        reader: Result<bool, String>,
    ) -> (result: Result<(), String>)
        requires
            old(self).wf(),
            old(self)@.has_window(window_id) ==> !old(self)@.window(window_id).tabs.contains(
                new_tab_id,
            ),
            new_tab_id != src_tab,
        ensures
            final(self).wf(),
            ({
                let tab = TabView {
                    tab_id: new_tab_id,
                    registered: true,
                    panes: seq![pane],
                    active_pane: Some(pane.pane_id),
                    size,
                };
                let known = tab_known(old(self)@, tab);
                let added = pane_added(
                    known,
                    Pane { pane_id: pane.pane_id, domain_id: pane.domain_id },
                    reader_view(reader),
                );
                if !known.has_pane(pane.pane_id) && reader is Err {
                    &&& result is Err
                    &&& result->Err_0@ == reader->Err_0@
                    &&& final(self)@ == added
                } else if !old(self)@.has_window(window_id) {
                    &&& result is Err
                    &&& result->Err_0@ == "add_tab_to_window: no such window_id "@ + decimal(
                        window_id as nat,
                    )
                    &&& final(self)@ == added
                } else {
                    let listed = tab_added_to_window(added, tab, window_id);
                    &&& result is Ok
                    &&& final(self)@ == if listed.has_tab(src_tab) && tab_is_dead(
                        listed.tab(src_tab),
                    ) {
                        pruned(tab_removed(listed, src_tab))
                    } else {
                        listed
                    }
                }
            }),
    {
        let mut panes: Vec<TabPane> = Vec::new();
        panes.push(pane);
        let mut panes_again: Vec<TabPane> = Vec::new();
        panes_again.push(pane);
        let tab = Tab {
            tab_id: new_tab_id,
            registered: true,
            panes,
            active_pane: Some(pane.pane_id),
            size,
        };
        let tab_again = Tab {
            tab_id: new_tab_id,
            registered: true,
            panes: panes_again,
            active_pane: Some(pane.pane_id),
            size,
        };
        proof {
            assert(tab@.panes =~= seq![pane]);
            assert(tab_again@ =~= tab@);
            let ids = tab_pane_ids(tab@.panes);
            assert(ids[0] == pane.pane_id);
            assert(ids.index_of(pane.pane_id) == 0);
        }
        match self.add_tab_and_active_pane(tab, reader) {
            Ok(()) => {},
            Err(reason) => {
                return Err(reason);
            },
        }
        match self.add_tab_to_window(&tab_again, window_id) {
            Ok(()) => {},
            Err(reason) => {
                return Err(reason);
            },
        }
        let dead = match self.get_tab(src_tab) {
            Some(tab) => tab.is_dead(),
            None => false,
        };
        if dead {
            let removed = self.remove_tab(src_tab);
        }
        Ok(())
    }
}

} // verus!
