//! What the operations of the multiplexer keep, take away and bring about.

use crate::mux::{
    active_after, is_not, lemma_filter_members, lemma_tab_holding_pane, lemma_window_holding_tab,
    pane_location, pane_removed, panes_removed, tab_holding_pane, tab_removed, tabs_removed,
    window_removed, window_without_tab,
};
use crate::mux_model::{
    pane_ids, tab_ids, tab_pane_ids, window_ids, EffectView, MuxView, NotificationView, Pane,
    PaneId, TabId, TabView, WindowId, WindowView,
};
use vstd::prelude::*;

verus! {

/// Where a pane is found, a known tab lists it under this domain, and the window
/// lists that tab.
pub proof fn law_located_pane_is_in_its_place(m: MuxView, pane_id: PaneId)
    ensures
        pane_location(m, pane_id) matches Some((domain_id, window_id, tab_id)) ==> {
            &&& exists|i: int, k: int|
                0 <= i < m.tabs.len() && 0 <= k < m.tabs[i].panes.len() && m.tabs[i].registered
                    && m.tabs[i].tab_id == tab_id && (#[trigger] m.tabs[i].panes[k]).pane_id
                    == pane_id && m.tabs[i].panes[k].domain_id == domain_id
            &&& exists|j: int|
                0 <= j < m.windows.len() && (#[trigger] m.windows[j]).window_id == window_id
                    && m.windows[j].tabs.contains(tab_id)
        },
{
    lemma_tab_holding_pane(m.tabs, pane_id);
    if let Some((domain_id, window_id, tab_id)) = pane_location(m, pane_id) {
        let tab = tab_holding_pane(m.tabs, pane_id)->0;
        lemma_window_holding_tab(m.windows, tab.tab_id);
        let i = choose|i: int| 0 <= i < m.tabs.len() && m.tabs[i] == tab;
        let k = tab_pane_ids(tab.panes).index_of(pane_id);
        assert(tab_pane_ids(tab.panes)[k] == pane_id);
        assert(m.tabs[i].panes[k].pane_id == pane_id);
    }
}

/// A pane that a known tab of a window lists is found, unless another known tab
/// lists it, too.
pub proof fn law_listed_pane_is_located(m: MuxView, pane_id: PaneId, i: int, k: int, j: int)
    requires
        m.wf(),
        0 <= i < m.tabs.len(),
        m.tabs[i].registered,
        0 <= k < m.tabs[i].panes.len(),
        m.tabs[i].panes[k].pane_id == pane_id,
        forall|other: int|
            0 <= other < m.tabs.len() && other != i && (#[trigger] m.tabs[other]).registered
                ==> !tab_pane_ids(m.tabs[other].panes).contains(pane_id),
        0 <= j < m.windows.len(),
        m.windows[j].tabs.contains(m.tabs[i].tab_id),
    ensures
        pane_location(m, pane_id) is Some,
        ({
            let place = pane_location(m, pane_id)->0;
            place.0 == m.tabs[i].panes[k].domain_id && place.2 == m.tabs[i].tab_id
        }),
{
    lemma_tab_holding_pane(m.tabs, pane_id);
    let ids = tab_pane_ids(m.tabs[i].panes);
    assert(ids[k] == pane_id);
    assert(ids.contains(pane_id));
    let tab = tab_holding_pane(m.tabs, pane_id)->0;
    let at = choose|at: int| 0 <= at < m.tabs.len() && m.tabs[at] == tab;
    assert(at == i);
    assert(ids.no_duplicates());
    assert(ids.index_of(pane_id) == k);
    lemma_window_holding_tab(m.windows, tab.tab_id);
}

/// A removed pane is gone, and killed and reported as removed. Every other pane,
/// and every window, tab and client, is as before. A pane that is not known
/// changes nothing.
pub proof fn law_removed_pane_is_gone(m: MuxView, pane_id: PaneId)
    ensures
        ({
            let after = pane_removed(m, pane_id);
            &&& forall|p: Pane| #[trigger]
                after.panes.contains(p) <==> m.panes.contains(p) && p.pane_id != pane_id
            &&& after.windows == m.windows
            &&& after.tabs == m.tabs
            &&& after.clients == m.clients
            &&& after.identity == m.identity
            &&& after.domains == m.domains
            &&& after.default_domain == m.default_domain
            &&& after.activity == m.activity
            &&& m.has_pane(pane_id) ==> after.effects == m.effects.push(
                EffectView::KillPane(pane_id),
            ).push(EffectView::Notify(NotificationView::PaneRemoved(pane_id)))
            &&& !m.has_pane(pane_id) ==> after == m
        }),
{
    let keep = |p: Pane| p.pane_id != pane_id;
    lemma_filter_members(m.panes, keep);
    let after = pane_removed(m, pane_id);
    assert forall|p: Pane| #[trigger] after.panes.contains(p) <==> m.panes.contains(p) && p.pane_id
        != pane_id by {
        if !m.has_pane(pane_id) && m.panes.contains(p) {
            let at = choose|at: int| 0 <= at < m.panes.len() && m.panes[at] == p;
            assert(pane_ids(m.panes)[at] == p.pane_id);
        }
    }
}

/// Of a row of panes, each is gone after its removal, and all others stay.
pub proof fn law_removed_panes_are_gone(m: MuxView, ids: Seq<PaneId>)
    ensures
        ({
            let after = panes_removed(m, ids);
            &&& forall|p: Pane| #[trigger]
                after.panes.contains(p) <==> m.panes.contains(p) && !ids.contains(p.pane_id)
            &&& after.windows == m.windows
            &&& after.tabs == m.tabs
            &&& after.clients == m.clients
            &&& after.identity == m.identity
            &&& after.domains == m.domains
            &&& after.default_domain == m.default_domain
            &&& after.activity == m.activity
        }),
    decreases ids.len(),
{
    if ids.len() > 0 {
        let head = ids.drop_last();
        law_removed_panes_are_gone(m, head);
        law_removed_pane_is_gone(panes_removed(m, head), ids.last());
        let after = panes_removed(m, ids);
        assert forall|p: Pane| #[trigger] after.panes.contains(p) <==> m.panes.contains(p)
            && !ids.contains(p.pane_id) by {
            if ids.contains(p.pane_id) {
                let at = choose|at: int| 0 <= at < ids.len() && ids[at] == p.pane_id;
                if at < head.len() {
                    assert(head[at] == p.pane_id);
                }
            }
            if head.contains(p.pane_id) {
                let at = choose|at: int| 0 <= at < head.len() && head[at] == p.pane_id;
                assert(ids[at] == p.pane_id);
            }
            if ids.last() == p.pane_id {
                assert(ids[ids.len() - 1] == p.pane_id);
            }
            assert(panes_removed(m, head).panes.contains(p) <==> m.panes.contains(p)
                && !head.contains(p.pane_id));
        }
    }
}

/// The active tab of a window stays active as long as it stays; when it goes, the
/// tab that moves into its place becomes active, or the last one where it was the
/// last.
pub proof fn law_active_tab_stays_active(tabs: Seq<TabId>, active: usize, rest: Seq<TabId>)
    requires
        rest.len() <= usize::MAX,
        forall|id: TabId| #[trigger] rest.contains(id) ==> tabs.contains(id),
    ensures
        ({
            let after = active_after(tabs, active, rest);
            &&& active < tabs.len() && rest.contains(tabs[active as int]) ==> after < rest.len()
                && rest[after as int] == tabs[active as int]
            &&& rest.len() > 0 && active < tabs.len() ==> after < rest.len()
            &&& active < tabs.len() && !rest.contains(tabs[active as int]) && active < rest.len()
                ==> after == active
            &&& active < tabs.len() && !rest.contains(tabs[active as int]) && 0 < rest.len()
                <= active ==> after == rest.len() - 1
        }),
{
    if active < tabs.len() && rest.contains(tabs[active as int]) {
        let id = tabs[active as int];
        assert(rest[rest.index_of(id)] == id);
        assert(0 <= rest.index_of(id) < rest.len());
    }
}

/// Whether a window has lost no tab but this one, and nothing else.
pub open spec fn only_lost_tab(before: WindowView, after: WindowView, tab_id: TabId) -> bool {
    &&& after.window_id == before.window_id
    &&& after.workspace == before.workspace
    &&& forall|id: TabId| #[trigger]
        after.tabs.contains(id) <==> before.tabs.contains(id) && id != tab_id
}

/// A removed tab is gone, together with its panes: no window lists it any more.
/// Every other tab, every other pane and every window stays. A tab that is not
/// known changes nothing.
pub proof fn law_removed_tab_is_gone(m: MuxView, tab_id: TabId)
    ensures
        !m.has_tab(tab_id) ==> tab_removed(m, tab_id) == m,
        m.has_tab(tab_id) ==> {
            let after = tab_removed(m, tab_id);
            &&& forall|t: TabView| #[trigger]
                after.tabs.contains(t) <==> m.tabs.contains(t) && t.tab_id != tab_id
            &&& forall|p: Pane| #[trigger]
                after.panes.contains(p) <==> m.panes.contains(p) && !tab_pane_ids(
                    m.tab(tab_id).panes,
                ).contains(p.pane_id)
            &&& after.windows.len() == m.windows.len()
            &&& forall|i: int|
                0 <= i < m.windows.len() ==> only_lost_tab(
                    m.windows[i],
                    #[trigger] after.windows[i],
                    tab_id,
                )
            &&& after.clients == m.clients
            &&& after.identity == m.identity
            &&& after.domains == m.domains
            &&& after.activity == m.activity
        },
{
    if m.has_tab(tab_id) {
        let unlisted = MuxView {
            tabs: m.tabs.filter(|t: TabView| t.tab_id != tab_id),
            windows: m.windows.map_values(|w: WindowView| window_without_tab(w, tab_id)),
            ..m
        };
        lemma_filter_members(m.tabs, |t: TabView| t.tab_id != tab_id);
        law_removed_panes_are_gone(unlisted, tab_pane_ids(m.tab(tab_id).panes));
        let after = tab_removed(m, tab_id);
        assert(after.windows == unlisted.windows);
        assert forall|i: int| 0 <= i < m.windows.len() implies only_lost_tab(
            m.windows[i],
            #[trigger] after.windows[i],
            tab_id,
        ) by {
            lemma_filter_members(m.windows[i].tabs, is_not(tab_id));
            assert(after.windows[i] == window_without_tab(m.windows[i], tab_id));
        }
    }
}

/// Of a row of tabs, every known one is gone after its removal, together with its
/// panes. Every other tab, every other pane and every window stays.
pub proof fn law_removed_tabs_are_gone(m: MuxView, ids: Seq<TabId>)
    requires
        tab_ids(m.tabs).no_duplicates(),
    ensures
        ({
            let after = tabs_removed(m, ids);
            &&& forall|t: TabView| #[trigger]
                after.tabs.contains(t) <==> m.tabs.contains(t) && !(t.registered && ids.contains(
                    t.tab_id,
                ))
            &&& forall|p: Pane| #[trigger]
                after.panes.contains(p) <==> m.panes.contains(p) && !(exists|i: int|
                    0 <= i < m.tabs.len() && (#[trigger] m.tabs[i]).registered && ids.contains(
                        m.tabs[i].tab_id,
                    ) && tab_pane_ids(m.tabs[i].panes).contains(p.pane_id))
            &&& tab_ids(after.tabs).no_duplicates()
            &&& window_ids(after.windows) == window_ids(m.windows)
            &&& after.clients == m.clients
            &&& after.identity == m.identity
            &&& after.domains == m.domains
            &&& after.activity == m.activity
        }),
    decreases ids.len(),
{
    if ids.len() > 0 {
        let head = ids.drop_last();
        let id = ids.last();
        law_removed_tabs_are_gone(m, head);
        let mid = tabs_removed(m, head);
        law_removed_tab_is_gone(mid, id);
        let after = tabs_removed(m, ids);
        assert(ids[ids.len() - 1] == id);
        assert forall|x: TabId| #[trigger] ids.contains(x) <==> head.contains(x) || x == id by {
            if head.contains(x) {
                let at = choose|at: int| 0 <= at < head.len() && head[at] == x;
                assert(ids[at] == x);
            }
            if ids.contains(x) {
                let at = choose|at: int| 0 <= at < ids.len() && ids[at] == x;
                if at < head.len() {
                    assert(head[at] == x);
                }
            }
        }
        lemma_one_tab_more(m, mid, after, head, ids, id);
    } else {
        assert(tabs_removed(m, ids) == m);
    }
}

proof fn lemma_tab_by_id(m: MuxView, t: TabView)
    requires
        tab_ids(m.tabs).no_duplicates(),
        m.tabs.contains(t),
    ensures
        tab_ids(m.tabs).contains(t.tab_id),
        m.tab(t.tab_id) == t,
{
    let at = choose|at: int| 0 <= at < m.tabs.len() && m.tabs[at] == t;
    let ids = tab_ids(m.tabs);
    assert(ids[at] == t.tab_id);
    assert(ids[ids.index_of(t.tab_id)] == t.tab_id);
}

proof fn lemma_one_tab_more(
    m: MuxView,
    mid: MuxView,
    after: MuxView,
    head: Seq<TabId>,
    ids: Seq<TabId>,
    id: TabId,
)
    requires
        tab_ids(m.tabs).no_duplicates(),
        tab_ids(mid.tabs).no_duplicates(),
        after == tab_removed(mid, id),
        forall|x: TabId| #[trigger] ids.contains(x) <==> head.contains(x) || x == id,
        forall|t: TabView| #[trigger]
            mid.tabs.contains(t) <==> m.tabs.contains(t) && !(t.registered && head.contains(
                t.tab_id,
            )),
        forall|p: Pane| #[trigger]
            mid.panes.contains(p) <==> m.panes.contains(p) && !(exists|i: int|
                0 <= i < m.tabs.len() && (#[trigger] m.tabs[i]).registered && head.contains(
                    m.tabs[i].tab_id,
                ) && tab_pane_ids(m.tabs[i].panes).contains(p.pane_id)),
        window_ids(mid.windows) == window_ids(m.windows),
    ensures
        forall|t: TabView| #[trigger]
            after.tabs.contains(t) <==> m.tabs.contains(t) && !(t.registered && ids.contains(
                t.tab_id,
            )),
        forall|p: Pane| #[trigger]
            after.panes.contains(p) <==> m.panes.contains(p) && !(exists|i: int|
                0 <= i < m.tabs.len() && (#[trigger] m.tabs[i]).registered && ids.contains(
                    m.tabs[i].tab_id,
                ) && tab_pane_ids(m.tabs[i].panes).contains(p.pane_id)),
        tab_ids(after.tabs).no_duplicates(),
        window_ids(after.windows) == window_ids(m.windows),
{
    law_removed_tab_is_gone(mid, id);
    if mid.has_tab(id) {
        let gone = mid.tab(id);
        let place = tab_ids(mid.tabs).index_of(id);
        assert(tab_ids(mid.tabs)[place] == id);
        assert(gone.tab_id == id && mid.tabs.contains(gone));
        assert(m.tabs.contains(gone));
        assert(window_ids(after.windows) =~= window_ids(mid.windows)) by {
            assert forall|i: int| 0 <= i < mid.windows.len() implies window_ids(after.windows)[i]
                == window_ids(mid.windows)[i] by {
                assert(only_lost_tab(mid.windows[i], after.windows[i], id));
            }
        }
        assert(after.tabs == mid.tabs.filter(|t: TabView| t.tab_id != id)) by {
            let unlisted = MuxView {
                tabs: mid.tabs.filter(|t: TabView| t.tab_id != id),
                windows: mid.windows.map_values(|w: WindowView| window_without_tab(w, id)),
                ..mid
            };
            law_removed_panes_are_gone(unlisted, tab_pane_ids(mid.tab(id).panes));
        }
        lemma_filtered_tabs_distinct(mid.tabs, |t: TabView| t.tab_id != id);
        assert forall|t: TabView| #[trigger] after.tabs.contains(t) <==> m.tabs.contains(t) && !(
        t.registered && ids.contains(t.tab_id)) by {
            if m.tabs.contains(t) && t.tab_id == id {
                lemma_tab_by_id(m, t);
                lemma_tab_by_id(m, gone);
            }
        }
        assert forall|p: Pane| #[trigger] after.panes.contains(p) <==> m.panes.contains(p) && !(
        exists|i: int|
            0 <= i < m.tabs.len() && (#[trigger] m.tabs[i]).registered && ids.contains(
                m.tabs[i].tab_id,
            ) && tab_pane_ids(m.tabs[i].panes).contains(p.pane_id)) by {
            let at = choose|at: int| 0 <= at < m.tabs.len() && m.tabs[at] == gone;
            assert(m.tabs[at].registered && ids.contains(m.tabs[at].tab_id));
            if exists|i: int|
                0 <= i < m.tabs.len() && (#[trigger] m.tabs[i]).registered && ids.contains(
                    m.tabs[i].tab_id,
                ) && tab_pane_ids(m.tabs[i].panes).contains(p.pane_id) {
                let i = choose|i: int|
                    0 <= i < m.tabs.len() && (#[trigger] m.tabs[i]).registered && ids.contains(
                        m.tabs[i].tab_id,
                    ) && tab_pane_ids(m.tabs[i].panes).contains(p.pane_id);
                if m.tabs[i].tab_id == id {
                    assert(m.tabs.contains(m.tabs[i]));
                    lemma_tab_by_id(m, m.tabs[i]);
                    lemma_tab_by_id(m, gone);
                    assert(!after.panes.contains(p));
                } else {
                    assert(head.contains(m.tabs[i].tab_id));
                    assert(!mid.panes.contains(p));
                }
            }
            if mid.panes.contains(p) && !after.panes.contains(p) {
                assert(tab_pane_ids(m.tabs[at].panes).contains(p.pane_id));
            }
            if m.panes.contains(p) && !mid.panes.contains(p) {
                let i = choose|i: int|
                    0 <= i < m.tabs.len() && (#[trigger] m.tabs[i]).registered && head.contains(
                        m.tabs[i].tab_id,
                    ) && tab_pane_ids(m.tabs[i].panes).contains(p.pane_id);
                assert(ids.contains(m.tabs[i].tab_id));
            }
        }
    } else {
        assert(after == mid);
        assert forall|t: TabView| m.tabs.contains(t) && t.registered && t.tab_id == id implies (
        #[trigger] head.contains(t.tab_id)) by {
            if !head.contains(id) {
                assert(mid.tabs.contains(t));
                lemma_tab_by_id(mid, t);
            }
        }
        assert forall|p: Pane| #[trigger] after.panes.contains(p) <==> m.panes.contains(p) && !(
        exists|i: int|
            0 <= i < m.tabs.len() && (#[trigger] m.tabs[i]).registered && ids.contains(
                m.tabs[i].tab_id,
            ) && tab_pane_ids(m.tabs[i].panes).contains(p.pane_id)) by {
            assert forall|i: int| 0 <= i < m.tabs.len() && (#[trigger] m.tabs[i]).registered implies (
            ids.contains(m.tabs[i].tab_id) <==> head.contains(m.tabs[i].tab_id)) by {
                assert(m.tabs.contains(m.tabs[i]));
            }
        }
    }
}

proof fn lemma_filtered_tabs_distinct(tabs: Seq<TabView>, keep: spec_fn(TabView) -> bool)
    requires
        tab_ids(tabs).no_duplicates(),
    ensures
        tab_ids(tabs.filter(keep)).no_duplicates(),
    decreases tabs.len(),
{
    reveal(Seq::filter);
    if tabs.len() > 0 {
        let head = tabs.drop_last();
        assert(tab_ids(head) =~= tab_ids(tabs).drop_last());
        lemma_filtered_tabs_distinct(head, keep);
        lemma_filter_members(head, keep);
        if keep(tabs.last()) {
            let rest = head.filter(keep);
            assert(tabs.filter(keep) == rest.push(tabs.last()));
            assert forall|i: int, j: int| 0 <= i < j < rest.len() + 1 implies tab_ids(
                tabs.filter(keep),
            )[i] != tab_ids(tabs.filter(keep))[j] by {
                if j == rest.len() {
                    assert(rest.contains(rest[i]));
                    let k = choose|k: int| 0 <= k < head.len() && head[k] == rest[i];
                    assert(tab_ids(tabs)[k] != tab_ids(tabs)[tabs.len() - 1]);
                } else {
                    assert(tab_ids(rest)[i] != tab_ids(rest)[j]);
                }
            }
        }
    }
}

/// A removed window is gone, with every known tab that it lists and with their
/// panes, and its removal is reported last. Every other window, tab and pane stays.
pub proof fn law_removed_window_is_gone(m: MuxView, window_id: WindowId)
    requires
        m.wf(),
    ensures
        ({
            let after = window_removed(m, window_id);
            let listed = m.window(window_id).tabs;
            &&& forall|id: WindowId| #[trigger]
                after.has_window(id) <==> m.has_window(id) && id != window_id
            &&& after.clients == m.clients
            &&& after.identity == m.identity
            &&& after.domains == m.domains
            &&& after.activity == m.activity
            &&& m.has_window(window_id) ==> {
                &&& forall|t: TabView| #[trigger]
                    after.tabs.contains(t) <==> m.tabs.contains(t) && !(t.registered
                        && listed.contains(t.tab_id))
                &&& forall|p: Pane| #[trigger]
                    after.panes.contains(p) <==> m.panes.contains(p) && !(exists|i: int|
                        0 <= i < m.tabs.len() && (#[trigger] m.tabs[i]).registered
                            && listed.contains(m.tabs[i].tab_id) && tab_pane_ids(
                            m.tabs[i].panes,
                        ).contains(p.pane_id))
                &&& after.effects.len() > 0
                &&& after.effects.last() == EffectView::Notify(
                    NotificationView::WindowRemoved(window_id),
                )
            }
            &&& !m.has_window(window_id) ==> after.tabs == m.tabs && after.panes == m.panes
                && after.effects == m.effects && after.windows == m.windows
        }),
{
    if m.has_window(window_id) {
        let unlisted = MuxView {
            windows: m.windows.filter(|w: WindowView| w.window_id != window_id),
            ..m
        };
        law_removed_tabs_are_gone(unlisted, m.window(window_id).tabs);
        lemma_filter_members(m.windows, |w: WindowView| w.window_id != window_id);
        let after = window_removed(m, window_id);
        assert(window_ids(after.windows) == window_ids(unlisted.windows));
        assert forall|id: WindowId| #[trigger] after.has_window(id) <==> m.has_window(id) && id
            != window_id by {
            if after.has_window(id) {
                let at = choose|at: int|
                    0 <= at < unlisted.windows.len() && window_ids(unlisted.windows)[at] == id;
                assert(unlisted.windows.contains(unlisted.windows[at]));
                let k = choose|k: int|
                    0 <= k < m.windows.len() && m.windows[k] == unlisted.windows[at];
                assert(window_ids(m.windows)[k] == id);
            }
            if m.has_window(id) && id != window_id {
                let k = choose|k: int| 0 <= k < m.windows.len() && window_ids(m.windows)[k] == id;
                assert(m.windows.contains(m.windows[k]));
                assert(unlisted.windows.contains(m.windows[k]));
                let at = choose|at: int|
                    0 <= at < unlisted.windows.len() && unlisted.windows[at] == m.windows[k];
                assert(window_ids(unlisted.windows)[at] == id);
            }
        }
    }
}

} // verus!
