//! What pruning takes away and what it keeps.

use crate::mux::{
    is_not, lemma_filter_keeps_all, lemma_filter_members, pane_removed, panes_removed, tab_removed,
    tabs_removed, window_removed, window_without_tab,
};
use crate::mux_laws::{law_removed_panes_are_gone, law_removed_tabs_are_gone};
use crate::mux_model::{
    tab_ids, tab_pane_ids, window_ids, DomainId, EffectView, MuxView, NotificationView, Pane, TabId,
    TabView, WindowId, WindowView,
};
use crate::placement::{
    domain_detached, outside_domain, panes_in_domain, tab_without_domain, tabs_without_domain,
};
use crate::prune::{
    dead_tabs, empty_windows, is_listed, lemma_swept_wf, pane_lives, pruned, swept, tab_is_dead,
    tab_pruned, tab_stays, window_pruned, windows_removed,
};
use vstd::prelude::*;

verus! {

/// While something is going on, pruning does nothing.
pub proof fn law_pruning_waits_for_activity(m: MuxView)
    requires
        m.activity > 0,
    ensures
        pruned(m) == m,
{
}

proof fn lemma_unlisted_tab_removed(m: MuxView, id: TabId)
    requires
        forall|i: int| 0 <= i < m.windows.len() ==> !(#[trigger] m.windows[i]).tabs.contains(id),
    ensures
        tab_removed(m, id).windows.len() == m.windows.len(),
        forall|i: int|
            0 <= i < m.windows.len() ==> (#[trigger] tab_removed(m, id).windows[i]).tabs
                == m.windows[i].tabs && tab_removed(m, id).windows[i].window_id
                == m.windows[i].window_id && tab_removed(m, id).windows[i].workspace
                == m.windows[i].workspace,
{
    let after = tab_removed(m, id);
    if m.has_tab(id) {
        let unlisted = MuxView {
            tabs: m.tabs.filter(|t: TabView| t.tab_id != id),
            windows: m.windows.map_values(|w: WindowView| window_without_tab(w, id)),
            ..m
        };
        law_removed_panes_are_gone(unlisted, tab_pane_ids(m.tab(id).panes));
        assert forall|i: int| 0 <= i < m.windows.len() implies (#[trigger] after.windows[i]).tabs
            == m.windows[i].tabs && after.windows[i].window_id == m.windows[i].window_id
            && after.windows[i].workspace == m.windows[i].workspace by {
            let tabs = m.windows[i].tabs;
            assert forall|k: int| 0 <= k < tabs.len() implies is_not(id)(#[trigger] tabs[k]) by {
                assert(tabs.contains(tabs[k]));
            }
            lemma_filter_keeps_all(tabs, is_not(id));
            assert(after.windows[i] == window_without_tab(m.windows[i], id));
        }
    }
}

proof fn lemma_unlisted_tabs_removed(m: MuxView, ids: Seq<TabId>)
    requires
        forall|i: int, k: int|
            0 <= i < m.windows.len() && 0 <= k < ids.len() ==> !(
            #[trigger] m.windows[i]).tabs.contains(#[trigger] ids[k]),
    ensures
        tabs_removed(m, ids).windows.len() == m.windows.len(),
        forall|i: int|
            0 <= i < m.windows.len() ==> (#[trigger] tabs_removed(m, ids).windows[i]).tabs
                == m.windows[i].tabs && tabs_removed(m, ids).windows[i].window_id
                == m.windows[i].window_id && tabs_removed(m, ids).windows[i].workspace
                == m.windows[i].workspace,
    decreases ids.len(),
{
    if ids.len() > 0 {
        let head = ids.drop_last();
        assert forall|i: int, k: int| 0 <= i < m.windows.len() && 0 <= k < head.len() implies !(
        #[trigger] m.windows[i]).tabs.contains(#[trigger] head[k]) by {
            assert(head[k] == ids[k]);
        }
        lemma_unlisted_tabs_removed(m, head);
        let mid = tabs_removed(m, head);
        assert(ids.last() == ids[ids.len() - 1]);
        assert forall|i: int| 0 <= i < mid.windows.len() implies !(
        #[trigger] mid.windows[i]).tabs.contains(ids.last()) by {
            assert(mid.windows[i].tabs == m.windows[i].tabs);
            assert(!m.windows[i].tabs.contains(ids[ids.len() - 1]));
        }
        lemma_unlisted_tab_removed(mid, ids.last());
        let after = tabs_removed(m, ids);
        assert forall|i: int| 0 <= i < m.windows.len() implies (#[trigger] after.windows[i]).tabs
            == m.windows[i].tabs && after.windows[i].window_id == m.windows[i].window_id
            && after.windows[i].workspace == m.windows[i].workspace by {
            assert(tab_removed(mid, ids.last()).windows[i].tabs == mid.windows[i].tabs);
            assert(mid.windows[i].tabs == m.windows[i].tabs);
        }
    }
}

/// Whether every window of one of these numbers has no tab.
spec fn all_empty(windows: Seq<WindowView>, ids: Seq<WindowId>) -> bool {
    forall|i: int|
        0 <= i < windows.len() && ids.contains((#[trigger] windows[i]).window_id)
            ==> windows[i].tabs.len() == 0
}

proof fn lemma_empty_window_removed(m: MuxView, id: WindowId)
    requires
        m.has_window(id) ==> m.window(id).tabs.len() == 0,
    ensures
        window_removed(m, id).tabs == m.tabs,
        window_removed(m, id).panes == m.panes,
        window_removed(m, id).clients == m.clients,
        window_removed(m, id).activity == m.activity,
        forall|w: WindowView| #[trigger]
            window_removed(m, id).windows.contains(w) <==> m.windows.contains(w) && w.window_id
                != id,
{
    let keep = |w: WindowView| w.window_id != id;
    lemma_filter_members(m.windows, keep);
    if m.has_window(id) {
        let unlisted = MuxView { windows: m.windows.filter(keep), ..m };
        assert(tabs_removed(unlisted, m.window(id).tabs) == unlisted);
    } else {
        assert forall|w: WindowView| m.windows.contains(w) implies w.window_id != id by {
            let at = choose|at: int| 0 <= at < m.windows.len() && m.windows[at] == w;
            assert(window_ids(m.windows)[at] == w.window_id);
        }
    }
}

proof fn lemma_empty_windows_removed(m: MuxView, ids: Seq<WindowId>)
    requires
        all_empty(m.windows, ids),
    ensures
        windows_removed(m, ids).tabs == m.tabs,
        windows_removed(m, ids).panes == m.panes,
        windows_removed(m, ids).clients == m.clients,
        windows_removed(m, ids).activity == m.activity,
        forall|w: WindowView| #[trigger]
            windows_removed(m, ids).windows.contains(w) <==> m.windows.contains(w)
                && !ids.contains(w.window_id),
    decreases ids.len(),
{
    if ids.len() > 0 {
        let head = ids.drop_last();
        let id = ids.last();
        assert(ids[ids.len() - 1] == id);
        assert forall|x: WindowId| #[trigger] ids.contains(x) <==> head.contains(x) || x == id by {
            if head.contains(x) {
                let at = choose|at: int| 0 <= at < head.len() && head[at] == x;
                assert(ids[at] == x);
            }
            if ids.contains(x) {
                let at = choose|at: int| 0 <= at < ids.len() && ids[at] == x;
                if at < head.len() {
                    assert(head[at] == x);
                }
            }
        }
        assert(all_empty(m.windows, head)) by {
            assert forall|i: int|
                0 <= i < m.windows.len() && head.contains((#[trigger] m.windows[i]).window_id)
                implies m.windows[i].tabs.len() == 0 by {
                assert(ids.contains(m.windows[i].window_id));
            }
        }
        lemma_empty_windows_removed(m, head);
        let mid = windows_removed(m, head);
        if mid.has_window(id) {
            let place = window_ids(mid.windows).index_of(id);
            assert(window_ids(mid.windows)[place] == id);
            let window = mid.windows[place];
            assert(mid.windows.contains(window));
            assert(m.windows.contains(window));
            let at = choose|at: int| 0 <= at < m.windows.len() && m.windows[at] == window;
            assert(ids.contains(m.windows[at].window_id));
        }
        lemma_empty_window_removed(mid, id);
        assert forall|w: WindowView| #[trigger]
            windows_removed(m, ids).windows.contains(w) <==> m.windows.contains(w)
                && !ids.contains(w.window_id) by {
            assert(window_removed(mid, id).windows.contains(w) <==> mid.windows.contains(w)
                && w.window_id != id);
        }
    } else {
        assert(windows_removed(m, ids) == m);
    }
}

proof fn lemma_dead_tabs(tabs: Seq<TabView>)
    ensures
        forall|id: TabId| #[trigger]
            dead_tabs(tabs).contains(id) <==> exists|i: int|
                0 <= i < tabs.len() && (#[trigger] tabs[i]).tab_id == id && tabs[i].registered
                    && tab_is_dead(tabs[i]),
    decreases tabs.len(),
{
    if tabs.len() > 0 {
        let rest = tabs.drop_last();
        lemma_dead_tabs(rest);
        let head = dead_tabs(rest);
        let last = tabs.last();
        assert(tabs[tabs.len() - 1] == last);
        assert forall|id: TabId| #[trigger] dead_tabs(tabs).contains(id) <==> exists|i: int|
            0 <= i < tabs.len() && (#[trigger] tabs[i]).tab_id == id && tabs[i].registered
                && tab_is_dead(tabs[i]) by {
            if dead_tabs(tabs).contains(id) {
                let at = choose|at: int| 0 <= at < dead_tabs(tabs).len() && dead_tabs(tabs)[at] == id;
                if at < head.len() {
                    assert(head[at] == id);
                    assert(head.contains(id));
                    let i = choose|i: int|
                        0 <= i < rest.len() && (#[trigger] rest[i]).tab_id == id
                            && rest[i].registered && tab_is_dead(rest[i]);
                    assert(tabs[i] == rest[i]);
                }
            }
            if exists|i: int|
                0 <= i < tabs.len() && (#[trigger] tabs[i]).tab_id == id && tabs[i].registered
                    && tab_is_dead(tabs[i]) {
                let i = choose|i: int|
                    0 <= i < tabs.len() && (#[trigger] tabs[i]).tab_id == id && tabs[i].registered
                        && tab_is_dead(tabs[i]);
                if i < rest.len() {
                    assert(rest[i] == tabs[i]);
                    assert(head.contains(id));
                    let at = choose|at: int| 0 <= at < head.len() && head[at] == id;
                    assert(dead_tabs(tabs)[at] == id);
                } else {
                    assert(dead_tabs(tabs)[head.len() as int] == id);
                }
            }
        }
    }
}

proof fn lemma_empty_windows(windows: Seq<WindowView>)
    ensures
        forall|id: WindowId| #[trigger]
            empty_windows(windows).contains(id) <==> exists|i: int|
                0 <= i < windows.len() && (#[trigger] windows[i]).window_id == id
                    && windows[i].tabs.len() == 0,
    decreases windows.len(),
{
    if windows.len() > 0 {
        let rest = windows.drop_last();
        lemma_empty_windows(rest);
        let head = empty_windows(rest);
        let last = windows.last();
        assert(windows[windows.len() - 1] == last);
        assert forall|id: WindowId| #[trigger] empty_windows(windows).contains(id) <==> exists|
            i: int,
        |
            0 <= i < windows.len() && (#[trigger] windows[i]).window_id == id
                && windows[i].tabs.len() == 0 by {
            if empty_windows(windows).contains(id) {
                let at = choose|at: int|
                    0 <= at < empty_windows(windows).len() && empty_windows(windows)[at] == id;
                if at < head.len() {
                    assert(head[at] == id);
                    assert(head.contains(id));
                    let i = choose|i: int|
                        0 <= i < rest.len() && (#[trigger] rest[i]).window_id == id
                            && rest[i].tabs.len() == 0;
                    assert(windows[i] == rest[i]);
                }
            }
            if exists|i: int|
                0 <= i < windows.len() && (#[trigger] windows[i]).window_id == id
                    && windows[i].tabs.len() == 0 {
                let i = choose|i: int|
                    0 <= i < windows.len() && (#[trigger] windows[i]).window_id == id
                        && windows[i].tabs.len() == 0;
                if i < rest.len() {
                    assert(rest[i] == windows[i]);
                    assert(head.contains(id));
                    let at = choose|at: int| 0 <= at < head.len() && head[at] == id;
                    assert(empty_windows(windows)[at] == id);
                } else {
                    assert(empty_windows(windows)[head.len() as int] == id);
                }
            }
        }
    }
}

/// The state between the sweep and the report: dead tabs and empty windows are
/// gone.
#[verifier::opaque]
spec fn cleared(m: MuxView) -> MuxView {
    let clean = swept(m);
    windows_removed(tabs_removed(clean, dead_tabs(clean.tabs)), empty_windows(clean.windows))
}

/// Whether two windows have the same number, the same workspace and the same tabs.
spec fn lists_the_same(left: WindowView, right: WindowView) -> bool {
    &&& left.window_id == right.window_id
    &&& left.workspace == right.workspace
    &&& left.tabs == right.tabs
}

proof fn lemma_dead_tabs_are_unlisted(m: MuxView)
    requires
        m.wf(),
    ensures
        forall|i: int, k: int|
            0 <= i < swept(m).windows.len() && 0 <= k < dead_tabs(swept(m).tabs).len() ==> !(
            #[trigger] swept(m).windows[i]).tabs.contains(#[trigger] dead_tabs(swept(m).tabs)[k]),
{
    let clean = swept(m);
    lemma_swept_wf(m);
    let dead = dead_tabs(clean.tabs);
    lemma_dead_tabs(clean.tabs);
    assert forall|i: int, k: int| 0 <= i < clean.windows.len() && 0 <= k < dead.len() implies !(
    #[trigger] clean.windows[i]).tabs.contains(#[trigger] dead[k]) by {
        let tabs = clean.tabs;
        assert(clean.windows[i] == window_pruned(m.windows[i], tabs));
        lemma_filter_members(m.windows[i].tabs, tab_stays(tabs));
        if clean.windows[i].tabs.contains(dead[k]) {
            assert(tab_stays(tabs)(dead[k]));
            assert(dead.contains(dead[k]));
            let at = choose|at: int|
                0 <= at < tabs.len() && (#[trigger] tabs[at]).tab_id == dead[k]
                    && tabs[at].registered && tab_is_dead(tabs[at]);
            let ids = tab_ids(tabs);
            assert(ids[at] == dead[k]);
            let place = ids.index_of(dead[k]);
            assert(ids[place] == dead[k]);
            assert(place == at);
        }
    }
}

proof fn lemma_empty_windows_are_empty(m: MuxView)
    requires
        m.wf(),
    ensures
        ({
            let clean = swept(m);
            let mid = tabs_removed(clean, dead_tabs(clean.tabs));
            &&& mid.windows.len() == clean.windows.len()
            &&& forall|i: int|
                0 <= i < clean.windows.len() ==> lists_the_same(
                    #[trigger] mid.windows[i],
                    clean.windows[i],
                )
            &&& forall|i: int|
                0 <= i < clean.windows.len() ==> (empty_windows(clean.windows).contains(
                    (#[trigger] clean.windows[i]).window_id,
                ) <==> clean.windows[i].tabs.len() == 0)
            &&& all_empty(mid.windows, empty_windows(clean.windows))
        }),
{
    let clean = swept(m);
    let dead = dead_tabs(clean.tabs);
    let mid = tabs_removed(clean, dead);
    let empty = empty_windows(clean.windows);
    lemma_swept_wf(m);
    lemma_dead_tabs_are_unlisted(m);
    lemma_unlisted_tabs_removed(clean, dead);
    lemma_empty_windows(clean.windows);
    let ids = window_ids(clean.windows);
    assert forall|i: int| 0 <= i < clean.windows.len() implies lists_the_same(
        #[trigger] mid.windows[i],
        clean.windows[i],
    ) by {
        assert(mid.windows[i].tabs == clean.windows[i].tabs);
    }
    assert forall|i: int| 0 <= i < clean.windows.len() implies (empty.contains(
        (#[trigger] clean.windows[i]).window_id,
    ) <==> clean.windows[i].tabs.len() == 0) by {
        let id = clean.windows[i].window_id;
        if empty.contains(id) {
            let k = choose|k: int|
                0 <= k < clean.windows.len() && (#[trigger] clean.windows[k]).window_id == id
                    && clean.windows[k].tabs.len() == 0;
            assert(ids[k] == id && ids[i] == id);
            assert(k == i);
        }
    }
    assert forall|i: int|
        0 <= i < mid.windows.len() && empty.contains((#[trigger] mid.windows[i]).window_id)
        implies mid.windows[i].tabs.len() == 0 by {
        assert(lists_the_same(mid.windows[i], clean.windows[i]));
        assert(empty.contains(clean.windows[i].window_id));
    }
}

/// The tabs and panes that are left: the tabs that are not both known and dead, and
/// the panes that no removed tab lists.
proof fn lemma_cleared_rest(m: MuxView)
    requires
        m.wf(),
    ensures
        ({
            let clean = swept(m);
            let after = cleared(m);
            &&& forall|t: TabView| #[trigger]
                after.tabs.contains(t) <==> clean.tabs.contains(t) && !(t.registered
                    && dead_tabs(clean.tabs).contains(t.tab_id))
            &&& forall|p: Pane| #[trigger]
                after.panes.contains(p) <==> m.panes.contains(p) && !(exists|i: int|
                    0 <= i < clean.tabs.len() && (#[trigger] clean.tabs[i]).registered
                        && dead_tabs(clean.tabs).contains(clean.tabs[i].tab_id) && tab_pane_ids(
                        clean.tabs[i].panes,
                    ).contains(p.pane_id))
            &&& after.clients == m.clients
            &&& after.activity == m.activity
        }),
{
    reveal(cleared);
    let clean = swept(m);
    lemma_swept_wf(m);
    law_removed_tabs_are_gone(clean, dead_tabs(clean.tabs));
    lemma_empty_windows_are_empty(m);
    lemma_empty_windows_removed(
        tabs_removed(clean, dead_tabs(clean.tabs)),
        empty_windows(clean.windows),
    );
}

/// The windows that are left: those that still list a tab.
proof fn lemma_cleared_windows(m: MuxView)
    requires
        m.wf(),
    ensures
        ({
            let clean = swept(m);
            let after = cleared(m);
            &&& forall|i: int|
                0 <= i < clean.windows.len() && (#[trigger] clean.windows[i]).tabs.len() > 0
                    ==> exists|w: WindowView| #[trigger]
                    after.windows.contains(w) && lists_the_same(w, clean.windows[i])
            &&& forall|w: WindowView| #[trigger]
                after.windows.contains(w) ==> exists|i: int|
                    0 <= i < clean.windows.len() && lists_the_same(
                        w,
                        #[trigger] clean.windows[i],
                    ) && clean.windows[i].tabs.len() > 0
        }),
{
    reveal(cleared);
    let clean = swept(m);
    let mid = tabs_removed(clean, dead_tabs(clean.tabs));
    let empty = empty_windows(clean.windows);
    let after = cleared(m);
    lemma_empty_windows_are_empty(m);
    lemma_empty_windows_removed(mid, empty);
    assert forall|i: int|
        0 <= i < clean.windows.len() && (#[trigger] clean.windows[i]).tabs.len() > 0 implies exists|
        w: WindowView,
    | #[trigger] after.windows.contains(w) && lists_the_same(w, clean.windows[i]) by {
        let w = mid.windows[i];
        assert(lists_the_same(w, clean.windows[i]));
        assert(mid.windows.contains(w));
        assert(after.windows.contains(w));
    }
    assert forall|w: WindowView| #[trigger] after.windows.contains(w) implies exists|i: int|
        0 <= i < clean.windows.len() && lists_the_same(w, #[trigger] clean.windows[i])
            && clean.windows[i].tabs.len() > 0 by {
        assert(mid.windows.contains(w));
        let i = choose|i: int| 0 <= i < mid.windows.len() && mid.windows[i] == w;
        assert(lists_the_same(mid.windows[i], clean.windows[i]));
        assert(!empty.contains(clean.windows[i].window_id));
    }
}

proof fn lemma_pruned_is_cleared(m: MuxView)
    requires
        m.activity == 0,
    ensures
        pruned(m).windows == cleared(m).windows,
        pruned(m).tabs == cleared(m).tabs,
        pruned(m).panes == cleared(m).panes,
        pruned(m).clients == cleared(m).clients,
        pruned(m).activity == cleared(m).activity,
        pruned(m).panes.len() == 0 ==> pruned(m).effects.len() > 0 && pruned(m).effects.last()
            == EffectView::Notify(NotificationView::Empty),
{
    reveal(cleared);
}

/// The tab of a living pane stays.
proof fn lemma_living_tab(m: MuxView, i: int, k: int, j: int)
    requires
        m.wf(),
        0 <= i < m.tabs.len(),
        m.tabs[i].registered,
        0 <= k < m.tabs[i].panes.len(),
        !m.tabs[i].panes[k].dead,
        m.has_pane(m.tabs[i].panes[k].pane_id),
        0 <= j < m.windows.len(),
        m.windows[j].tabs.contains(m.tabs[i].tab_id),
    ensures
        swept(m).tabs[i] == tab_pruned(m, m.tabs[i]),
        swept(m).tabs[i].panes.contains(m.tabs[i].panes[k]),
        swept(m).tabs.contains(swept(m).tabs[i]),
        !dead_tabs(swept(m).tabs).contains(m.tabs[i].tab_id),
        swept(m).windows.len() == m.windows.len(),
        swept(m).windows[j].window_id == m.windows[j].window_id,
        swept(m).windows[j].workspace == m.windows[j].workspace,
        swept(m).windows[j].tabs.contains(m.tabs[i].tab_id),
{
    let pane = m.tabs[i].panes[k];
    let clean = swept(m);
    lemma_swept_wf(m);
    lemma_dead_tabs(clean.tabs);
    let tab = clean.tabs[i];
    assert(is_listed(m.windows, m.tabs[i].tab_id));
    assert(tab == tab_pruned(m, m.tabs[i]));
    lemma_filter_members(m.tabs[i].panes, pane_lives(m));
    assert(m.tabs[i].panes.contains(pane));
    assert(pane_lives(m)(pane));
    assert(tab.panes.contains(pane));
    let at = choose|at: int| 0 <= at < tab.panes.len() && tab.panes[at] == pane;
    assert(!tab_is_dead(tab));
    let ids = tab_ids(clean.tabs);
    assert(ids[i] == tab.tab_id);
    assert(ids.index_of(tab.tab_id) == i);
    assert(!dead_tabs(clean.tabs).contains(tab.tab_id)) by {
        if dead_tabs(clean.tabs).contains(tab.tab_id) {
            let x = choose|x: int|
                0 <= x < clean.tabs.len() && (#[trigger] clean.tabs[x]).tab_id == tab.tab_id
                    && clean.tabs[x].registered && tab_is_dead(clean.tabs[x]);
            assert(ids[x] == ids[i]);
        }
    }
    assert(tab_stays(clean.tabs)(tab.tab_id));
    lemma_filter_members(m.windows[j].tabs, tab_stays(clean.tabs));
    assert(clean.windows[j] == window_pruned(m.windows[j], clean.tabs));
    assert(clean.windows[j].tabs.contains(tab.tab_id));
}

/// A living pane survives pruning: where a known tab of a window lists a pane that
/// is known and not dead, and no other known tab lists it, the pane stays known,
/// its tab keeps it, and its window keeps the tab.
pub proof fn law_living_pane_survives_pruning(m: MuxView, i: int, k: int, j: int)
    requires
        m.wf(),
        0 <= i < m.tabs.len(),
        m.tabs[i].registered,
        0 <= k < m.tabs[i].panes.len(),
        !m.tabs[i].panes[k].dead,
        m.has_pane(m.tabs[i].panes[k].pane_id),
        forall|other: int|
            0 <= other < m.tabs.len() && other != i && (#[trigger] m.tabs[other]).registered
                ==> !tab_pane_ids(m.tabs[other].panes).contains(m.tabs[i].panes[k].pane_id),
        0 <= j < m.windows.len(),
        m.windows[j].tabs.contains(m.tabs[i].tab_id),
    ensures
        forall|p: Pane|
            p.pane_id == m.tabs[i].panes[k].pane_id ==> (#[trigger] pruned(m).panes.contains(p)
                <==> m.panes.contains(p)),
        exists|t: TabView| #[trigger]
            pruned(m).tabs.contains(t) && t.tab_id == m.tabs[i].tab_id && t.registered
                && t.panes.contains(m.tabs[i].panes[k]) && t.size == m.tabs[i].size,
        exists|w: WindowView| #[trigger]
            pruned(m).windows.contains(w) && w.window_id == m.windows[j].window_id && w.workspace
                == m.windows[j].workspace && w.tabs.contains(m.tabs[i].tab_id),
{
    let pane = m.tabs[i].panes[k];
    if m.activity > 0 {
        assert(m.tabs.contains(m.tabs[i]));
        assert(m.tabs[i].panes.contains(pane));
        assert(m.windows.contains(m.windows[j]));
    } else {
        let clean = swept(m);
        let after = cleared(m);
        lemma_pruned_is_cleared(m);
        lemma_living_tab(m, i, k, j);
        lemma_cleared_windows(m);
        lemma_cleared_rest(m);
        assert(after.tabs.contains(clean.tabs[i]));
        assert(clean.windows[j].tabs.len() > 0);
        let w = choose|w: WindowView| #[trigger]
            after.windows.contains(w) && lists_the_same(w, clean.windows[j]);
        assert(pruned(m).windows.contains(w));
        assert(pruned(m).tabs.contains(clean.tabs[i]));
        lemma_living_pane_is_not_removed(m, i, pane.pane_id);
        assert forall|p: Pane| p.pane_id == pane.pane_id implies (#[trigger] pruned(
            m,
        ).panes.contains(p) <==> m.panes.contains(p)) by {
            assert(after.panes.contains(p) <==> m.panes.contains(p));
        }
    }
}

proof fn lemma_living_pane_is_not_removed(m: MuxView, i: int, pane_id: usize)
    requires
        m.wf(),
        0 <= i < m.tabs.len(),
        !dead_tabs(swept(m).tabs).contains(m.tabs[i].tab_id),
        forall|other: int|
            0 <= other < m.tabs.len() && other != i && (#[trigger] m.tabs[other]).registered
                ==> !tab_pane_ids(m.tabs[other].panes).contains(pane_id),
    ensures
        forall|p: Pane|
            p.pane_id == pane_id ==> (#[trigger] cleared(m).panes.contains(p)
                <==> m.panes.contains(p)),
{
    let clean = swept(m);
    lemma_cleared_rest(m);
    assert forall|x: int| 0 <= x < clean.tabs.len() && (#[trigger] clean.tabs[x]).registered
        && dead_tabs(clean.tabs).contains(clean.tabs[x].tab_id) implies !tab_pane_ids(
        clean.tabs[x].panes,
    ).contains(pane_id) by {
        if tab_pane_ids(clean.tabs[x].panes).contains(pane_id) {
            assert(clean.tabs[x].tab_id == m.tabs[x].tab_id);
            lemma_swept_panes_listed(m, x, pane_id);
            assert(m.tabs[x].registered);
        }
    }
}

proof fn lemma_swept_panes_listed(m: MuxView, x: int, pane_id: usize)
    requires
        0 <= x < m.tabs.len(),
        tab_pane_ids(swept(m).tabs[x].panes).contains(pane_id),
    ensures
        tab_pane_ids(m.tabs[x].panes).contains(pane_id),
        swept(m).tabs[x].registered == m.tabs[x].registered,
{
    let clean = swept(m);
    lemma_filter_members(m.tabs[x].panes, pane_lives(m));
    let row = clean.tabs[x].panes;
    let at = choose|at: int| 0 <= at < row.len() && tab_pane_ids(row)[at] == pane_id;
    assert(row.contains(row[at]));
    assert(m.tabs[x].panes.contains(row[at]));
    let k = choose|k: int| 0 <= k < m.tabs[x].panes.len() && m.tabs[x].panes[k] == row[at];
    assert(tab_pane_ids(m.tabs[x].panes)[k] == pane_id);
}

/// Whether there is a known tab of this number with a pane that is not dead.
pub open spec fn holds_a_living_pane(tabs: Seq<TabView>, tab_id: TabId) -> bool {
    exists|i: int, k: int|
        0 <= i < tabs.len() && 0 <= k < tabs[i].panes.len() && tabs[i].tab_id == tab_id
            && tabs[i].registered && !(#[trigger] tabs[i].panes[k]).dead
}

/// After pruning, every window lists a tab, and every tab that a window lists is
/// known and holds a living pane; no pane, and no window, is new. The end of the
/// last pane is reported.
pub proof fn law_nothing_dead_is_left(m: MuxView)
    requires
        m.wf(),
        m.activity == 0,
    ensures
        ({
            let after = pruned(m);
            &&& forall|i: int| 0 <= i < after.windows.len() ==> (#[trigger] after.windows[i]).tabs.len() > 0
            &&& forall|i: int, x: int|
                0 <= i < after.windows.len() && 0 <= x < after.windows[i].tabs.len()
                    ==> holds_a_living_pane(after.tabs, #[trigger] after.windows[i].tabs[x])
            &&& forall|p: Pane| #[trigger] after.panes.contains(p) ==> m.panes.contains(p)
            &&& forall|i: int|
                0 <= i < after.windows.len() ==> m.has_window(
                    (#[trigger] after.windows[i]).window_id,
                )
            &&& after.panes.len() == 0 ==> after.effects.len() > 0 && after.effects.last()
                == EffectView::Notify(NotificationView::Empty)
            &&& after.clients == m.clients
            &&& after.activity == 0
        }),
{
    let clean = swept(m);
    let after = pruned(m);
    lemma_pruned_is_cleared(m);
    lemma_cleared_rest(m);
    lemma_cleared_windows(m);
    assert forall|i: int| 0 <= i < after.windows.len() implies (#[trigger] after.windows[i]).tabs.len()
        > 0 && m.has_window(after.windows[i].window_id) by {
        assert(cleared(m).windows.contains(after.windows[i]));
        let k = choose|k: int|
            0 <= k < clean.windows.len() && lists_the_same(
                after.windows[i],
                #[trigger] clean.windows[k],
            ) && clean.windows[k].tabs.len() > 0;
        assert(window_ids(m.windows)[k] == after.windows[i].window_id);
    }
    assert forall|i: int, x: int|
        0 <= i < after.windows.len() && 0 <= x < after.windows[i].tabs.len()
        implies holds_a_living_pane(after.tabs, #[trigger] after.windows[i].tabs[x]) by {
        assert(cleared(m).windows.contains(after.windows[i]));
        let k = choose|k: int|
            0 <= k < clean.windows.len() && lists_the_same(
                after.windows[i],
                #[trigger] clean.windows[k],
            ) && clean.windows[k].tabs.len() > 0;
        lemma_listed_tab_lives(m, k, x);
        let t = clean.tab(clean.windows[k].tabs[x]);
        assert(cleared(m).tabs.contains(t));
        let at = choose|at: int| 0 <= at < after.tabs.len() && after.tabs[at] == t;
        let y = choose|y: int| 0 <= y < t.panes.len() && !(#[trigger] t.panes[y]).dead;
        assert(!after.tabs[at].panes[y].dead);
    }
    assert forall|p: Pane| #[trigger] after.panes.contains(p) implies m.panes.contains(p) by {
        assert(cleared(m).panes.contains(p));
    }
}

proof fn lemma_listed_tab_lives(m: MuxView, k: int, x: int)
    requires
        m.wf(),
        0 <= k < swept(m).windows.len(),
        0 <= x < swept(m).windows[k].tabs.len(),
    ensures
        ({
            let clean = swept(m);
            let id = clean.windows[k].tabs[x];
            let t = clean.tab(id);
            &&& clean.tabs.contains(t)
            &&& t.tab_id == id
            &&& t.registered
            &&& !tab_is_dead(t)
            &&& !dead_tabs(clean.tabs).contains(id)
        }),
{
    let clean = swept(m);
    lemma_swept_wf(m);
    lemma_dead_tabs(clean.tabs);
    let id = clean.windows[k].tabs[x];
    assert(clean.windows[k] == window_pruned(m.windows[k], clean.tabs));
    lemma_filter_members(m.windows[k].tabs, tab_stays(clean.tabs));
    assert(clean.windows[k].tabs.contains(id));
    assert(tab_stays(clean.tabs)(id));
    let ids = tab_ids(clean.tabs);
    let place = ids.index_of(id);
    assert(ids[place] == id);
    if dead_tabs(clean.tabs).contains(id) {
        let at = choose|at: int|
            0 <= at < clean.tabs.len() && (#[trigger] clean.tabs[at]).tab_id == id
                && clean.tabs[at].registered && tab_is_dead(clean.tabs[at]);
        assert(ids[at] == id);
    }
}

proof fn lemma_panes_in_domain(panes: Seq<Pane>, domain_id: DomainId)
    ensures
        forall|p: Pane|
            panes.contains(p) && p.domain_id == domain_id ==> #[trigger] panes_in_domain(
                panes,
                domain_id,
            ).contains(p.pane_id),
        forall|id: usize| #[trigger]
            panes_in_domain(panes, domain_id).contains(id) ==> exists|p: Pane| #[trigger]
                panes.contains(p) && p.domain_id == domain_id && p.pane_id == id,
    decreases panes.len(),
{
    if panes.len() > 0 {
        let rest = panes.drop_last();
        lemma_panes_in_domain(rest, domain_id);
        let head = panes_in_domain(rest, domain_id);
        let all = panes_in_domain(panes, domain_id);
        let last = panes.last();
        assert(panes[panes.len() - 1] == last);
        assert forall|p: Pane| panes.contains(p) && p.domain_id == domain_id implies #[trigger] all.contains(
            p.pane_id,
        ) by {
            let at = choose|at: int| 0 <= at < panes.len() && panes[at] == p;
            if at < rest.len() {
                assert(rest[at] == p);
                assert(head.contains(p.pane_id));
                let k = choose|k: int| 0 <= k < head.len() && head[k] == p.pane_id;
                assert(all[k] == p.pane_id);
            } else {
                assert(all[head.len() as int] == p.pane_id);
            }
        }
        assert forall|id: usize| #[trigger] all.contains(id) implies exists|p: Pane| #[trigger]
            panes.contains(p) && p.domain_id == domain_id && p.pane_id == id by {
            let k = choose|k: int| 0 <= k < all.len() && all[k] == id;
            if k < head.len() {
                assert(head[k] == id);
                assert(head.contains(id));
                let p = choose|p: Pane| #[trigger]
                    rest.contains(p) && p.domain_id == domain_id && p.pane_id == id;
                let at = choose|at: int| 0 <= at < rest.len() && rest[at] == p;
                assert(panes[at] == p);
                assert(panes.contains(p));
            } else {
                assert(panes.contains(last));
            }
        }
    }
}

/// After a domain was detached, none of its panes is known any more, and no pane
/// is new.
pub proof fn law_detached_domain_leaves_no_pane(m: MuxView, domain_id: DomainId)
    requires
        m.wf(),
    ensures
        forall|p: Pane| #[trigger]
            domain_detached(m, domain_id).panes.contains(p) ==> m.panes.contains(p) && p.domain_id
                != domain_id,
{
    let shrunk = MuxView { tabs: tabs_without_domain(m, domain_id), ..m };
    let ids = panes_in_domain(m.panes, domain_id);
    crate::placement::lemma_without_domain_wf(m, domain_id);
    law_removed_panes_are_gone(shrunk, ids);
    lemma_panes_in_domain(m.panes, domain_id);
    let mid = panes_removed(shrunk, ids);
    lemma_panes_removed_wf(shrunk, ids);
    if mid.activity == 0 {
        law_nothing_dead_is_left(mid);
    }
}

/// A living pane of another domain survives the detaching of a domain: it stays
/// known, and its tab and its window keep it.
pub proof fn law_other_domains_survive_detaching(
    m: MuxView,
    domain_id: DomainId,
    i: int,
    k: int,
    j: int,
)
    requires
        m.wf(),
        0 <= i < m.tabs.len(),
        m.tabs[i].registered,
        0 <= k < m.tabs[i].panes.len(),
        !m.tabs[i].panes[k].dead,
        m.tabs[i].panes[k].domain_id != domain_id,
        m.has_pane(m.tabs[i].panes[k].pane_id),
        forall|p: Pane| #[trigger]
            m.panes.contains(p) && p.pane_id == m.tabs[i].panes[k].pane_id ==> p.domain_id
                != domain_id,
        forall|other: int|
            0 <= other < m.tabs.len() && other != i && (#[trigger] m.tabs[other]).registered
                ==> !tab_pane_ids(m.tabs[other].panes).contains(m.tabs[i].panes[k].pane_id),
        0 <= j < m.windows.len(),
        m.windows[j].tabs.contains(m.tabs[i].tab_id),
    ensures
        ({
            let after = domain_detached(m, domain_id);
            &&& after.has_pane(m.tabs[i].panes[k].pane_id)
            &&& exists|t: TabView| #[trigger]
                after.tabs.contains(t) && t.tab_id == m.tabs[i].tab_id && t.registered
                    && t.panes.contains(m.tabs[i].panes[k])
            &&& exists|w: WindowView| #[trigger]
                after.windows.contains(w) && w.window_id == m.windows[j].window_id && w.workspace
                    == m.windows[j].workspace && w.tabs.contains(m.tabs[i].tab_id)
        }),
{
    let shrunk = MuxView { tabs: tabs_without_domain(m, domain_id), ..m };
    let ids = panes_in_domain(m.panes, domain_id);
    let pane = m.tabs[i].panes[k];
    let mid = panes_removed(shrunk, ids);
    crate::placement::lemma_without_domain_wf(m, domain_id);
    law_removed_panes_are_gone(shrunk, ids);
    lemma_panes_in_domain(m.panes, domain_id);
    lemma_panes_removed_wf(shrunk, ids);
    assert(is_listed(m.windows, m.tabs[i].tab_id));
    assert(mid.tabs[i] == tab_without_domain(m.tabs[i], domain_id));
    lemma_filter_members(m.tabs[i].panes, outside_domain(domain_id));
    assert(m.tabs[i].panes.contains(pane));
    assert(outside_domain(domain_id)(pane));
    assert(mid.tabs[i].panes.contains(pane));
    let at = choose|at: int| 0 <= at < mid.tabs[i].panes.len() && mid.tabs[i].panes[at] == pane;
    let known = choose|x: int|
        0 <= x < m.panes.len() && crate::mux_model::pane_ids(m.panes)[x] == pane.pane_id;
    let p = m.panes[known];
    assert(m.panes.contains(p));
    if ids.contains(p.pane_id) {
        let q = choose|q: Pane| #[trigger]
            m.panes.contains(q) && q.domain_id == domain_id && q.pane_id == p.pane_id;
    }
    assert(mid.panes.contains(p));
    let y = choose|y: int| 0 <= y < mid.panes.len() && mid.panes[y] == p;
    assert(crate::mux_model::pane_ids(mid.panes)[y] == pane.pane_id);
    assert forall|other: int|
        0 <= other < mid.tabs.len() && other != i && (#[trigger] mid.tabs[other]).registered
        implies !tab_pane_ids(mid.tabs[other].panes).contains(pane.pane_id) by {
        assert(m.tabs[other].registered);
        lemma_shrunk_panes_listed(m, domain_id, other, pane.pane_id);
    }
    law_living_pane_survives_pruning(mid, i, at, j);
    let after = domain_detached(m, domain_id);
    assert(after.panes.contains(p));
    let z = choose|z: int| 0 <= z < after.panes.len() && after.panes[z] == p;
    assert(crate::mux_model::pane_ids(after.panes)[z] == pane.pane_id);
}

proof fn lemma_shrunk_panes_listed(m: MuxView, domain_id: DomainId, x: int, pane_id: usize)
    requires
        0 <= x < m.tabs.len(),
        !tab_pane_ids(m.tabs[x].panes).contains(pane_id),
    ensures
        !tab_pane_ids(tabs_without_domain(m, domain_id)[x].panes).contains(pane_id),
{
    let row = tabs_without_domain(m, domain_id)[x].panes;
    lemma_filter_members(m.tabs[x].panes, outside_domain(domain_id));
    if tab_pane_ids(row).contains(pane_id) {
        let at = choose|at: int| 0 <= at < row.len() && tab_pane_ids(row)[at] == pane_id;
        assert(row.contains(row[at]));
        assert(m.tabs[x].panes.contains(row[at]));
        let k = choose|k: int| 0 <= k < m.tabs[x].panes.len() && m.tabs[x].panes[k] == row[at];
        assert(tab_pane_ids(m.tabs[x].panes)[k] == pane_id);
    }
}

proof fn lemma_panes_removed_wf(m: MuxView, ids: Seq<usize>)
    requires
        m.wf(),
    ensures
        panes_removed(m, ids).wf(),
    decreases ids.len(),
{
    law_removed_panes_are_gone(m, ids);
    if ids.len() > 0 {
        let mid = panes_removed(m, ids.drop_last());
        lemma_panes_removed_wf(m, ids.drop_last());
        let after = panes_removed(m, ids);
        law_removed_panes_are_gone(m, ids.drop_last());
        if mid.has_pane(ids.last()) {
            lemma_filtered_known_panes_distinct(mid.panes, |p: Pane| p.pane_id != ids.last());
        }
        assert forall|i: int, k: int|
            0 <= i < after.windows.len() && 0 <= k < after.windows[i].tabs.len() implies tab_ids(
            after.tabs,
        ).contains(#[trigger] after.windows[i].tabs[k]) by {
            assert(tab_ids(m.tabs).contains(m.windows[i].tabs[k]));
        }
    }
}

proof fn lemma_filtered_known_panes_distinct(panes: Seq<Pane>, keep: spec_fn(Pane) -> bool)
    requires
        crate::mux_model::pane_ids(panes).no_duplicates(),
    ensures
        crate::mux_model::pane_ids(panes.filter(keep)).no_duplicates(),
    decreases panes.len(),
{
    reveal(Seq::filter);
    if panes.len() > 0 {
        let head = panes.drop_last();
        let ids = crate::mux_model::pane_ids(panes);
        assert(crate::mux_model::pane_ids(head) =~= ids.drop_last());
        lemma_filtered_known_panes_distinct(head, keep);
        lemma_filter_members(head, keep);
        if keep(panes.last()) {
            let rest = head.filter(keep);
            let all = crate::mux_model::pane_ids(panes.filter(keep));
            assert(panes.filter(keep) == rest.push(panes.last()));
            assert forall|i: int, j: int| 0 <= i < j < all.len() implies all[i] != all[j] by {
                if j == rest.len() {
                    assert(rest.contains(rest[i]));
                    let k = choose|k: int| 0 <= k < head.len() && head[k] == rest[i];
                    assert(ids[k] != ids[panes.len() - 1]);
                } else {
                    assert(crate::mux_model::pane_ids(rest)[i] != crate::mux_model::pane_ids(rest)[j]);
                }
            }
        }
    }
}

/// Whether a known tab of this window lists a pane that is known and not dead, and
/// is not the excepted one.
pub open spec fn window_lives(m: MuxView, window: WindowView, except: Option<usize>) -> bool {
    exists|i: int, k: int|
        0 <= i < m.tabs.len() && 0 <= k < m.tabs[i].panes.len() && window.tabs.contains(
            m.tabs[i].tab_id,
        ) && m.tabs[i].registered && !(#[trigger] m.tabs[i].panes[k]).dead && m.has_pane(
            m.tabs[i].panes[k].pane_id,
        ) && except != Some(m.tabs[i].panes[k].pane_id)
}

/// Only a window with a living pane survives pruning.
pub proof fn law_only_living_windows_survive(m: MuxView, w: WindowView)
    requires
        m.wf(),
        m.activity == 0,
        pruned(m).windows.contains(w),
    ensures
        exists|j: int|
            0 <= j < m.windows.len() && (#[trigger] m.windows[j]).window_id == w.window_id
                && m.windows[j].workspace == w.workspace && window_lives(m, m.windows[j], None),
{
    lemma_pruned_is_cleared(m);
    lemma_cleared_windows(m);
    assert(cleared(m).windows.contains(w));
    let j = choose|j: int|
        0 <= j < swept(m).windows.len() && lists_the_same(w, #[trigger] swept(m).windows[j])
            && swept(m).windows[j].tabs.len() > 0;
    lemma_swept_window_lives(m, j);
    assert(m.windows[j].window_id == w.window_id);
}

proof fn lemma_swept_window_lives(m: MuxView, j: int)
    requires
        m.wf(),
        0 <= j < swept(m).windows.len(),
        swept(m).windows[j].tabs.len() > 0,
    ensures
        swept(m).windows.len() == m.windows.len(),
        swept(m).windows[j].window_id == m.windows[j].window_id,
        swept(m).windows[j].workspace == m.windows[j].workspace,
        window_lives(m, m.windows[j], None),
{
    let clean = swept(m);
    let id = clean.windows[j].tabs[0];
    lemma_listed_tab_lives(m, j, 0);
    let t = clean.tab(id);
    let i = choose|i: int| 0 <= i < clean.tabs.len() && clean.tabs[i] == t;
    assert(clean.windows[j] == window_pruned(m.windows[j], clean.tabs));
    lemma_filter_members(m.windows[j].tabs, tab_stays(clean.tabs));
    assert(clean.windows[j].tabs.contains(id));
    assert(m.windows[j].tabs.contains(id));
    assert(m.tabs[i].tab_id == id && m.tabs[i].registered);
    let y = choose|y: int| 0 <= y < t.panes.len() && !(#[trigger] t.panes[y]).dead;
    lemma_swept_pane_lives(m, i, y, j);
}

proof fn lemma_swept_pane_lives(m: MuxView, i: int, y: int, j: int)
    requires
        0 <= i < m.tabs.len(),
        0 <= j < m.windows.len(),
        m.windows[j].tabs.contains(m.tabs[i].tab_id),
        m.tabs[i].registered,
        0 <= y < swept(m).tabs[i].panes.len(),
    ensures
        window_lives(m, m.windows[j], None),
{
    let t = swept(m).tabs[i];
    assert(is_listed(m.windows, m.tabs[i].tab_id));
    assert(t == tab_pruned(m, m.tabs[i]));
    lemma_filter_members(m.tabs[i].panes, pane_lives(m));
    assert(t.panes.contains(t.panes[y]));
    assert(m.tabs[i].panes.contains(t.panes[y]) && pane_lives(m)(t.panes[y]));
    let k = choose|k: int| 0 <= k < m.tabs[i].panes.len() && m.tabs[i].panes[k] == t.panes[y];
    assert(!m.tabs[i].panes[k].dead && m.has_pane(m.tabs[i].panes[k].pane_id));
}

/// Removing a pane closes its window where no other living pane is in it: only a
/// window with another living pane is left. The pane itself is not known any more.
pub proof fn law_removing_the_last_pane_closes_the_window(
    m: MuxView,
    pane_id: usize,
    w: WindowView,
)
    requires
        m.wf(),
        m.activity == 0,
        m.has_pane(pane_id),
    ensures
        !pruned(pane_removed(m, pane_id)).has_pane(pane_id),
        pruned(pane_removed(m, pane_id)).windows.contains(w) ==> exists|j: int|
            0 <= j < m.windows.len() && (#[trigger] m.windows[j]).window_id == w.window_id
                && window_lives(m, m.windows[j], Some(pane_id)),
{
    let mid = pane_removed(m, pane_id);
    let one = seq![pane_id];
    assert(one.drop_last() =~= Seq::<usize>::empty());
    assert(panes_removed(m, one.drop_last()) == m);
    assert(panes_removed(m, one) == mid);
    lemma_panes_removed_wf(m, one);
    crate::mux_laws::law_removed_pane_is_gone(m, pane_id);
    law_nothing_dead_is_left(mid);
    let after = pruned(mid);
    if after.has_pane(pane_id) {
        let at = choose|at: int|
            0 <= at < after.panes.len() && crate::mux_model::pane_ids(after.panes)[at] == pane_id;
        assert(after.panes.contains(after.panes[at]));
        assert(mid.panes.contains(after.panes[at]));
    }
    if after.windows.contains(w) {
        law_only_living_windows_survive(mid, w);
        let j = choose|j: int|
            0 <= j < mid.windows.len() && (#[trigger] mid.windows[j]).window_id == w.window_id
                && mid.windows[j].workspace == w.workspace && window_lives(
                mid,
                mid.windows[j],
                None,
            );
        let (i, k) = choose|i: int, k: int|
            0 <= i < mid.tabs.len() && 0 <= k < mid.tabs[i].panes.len()
                && mid.windows[j].tabs.contains(mid.tabs[i].tab_id) && mid.tabs[i].registered && !(
            #[trigger] mid.tabs[i].panes[k]).dead && mid.has_pane(mid.tabs[i].panes[k].pane_id);
        let id = mid.tabs[i].panes[k].pane_id;
        let at = choose|at: int|
            0 <= at < mid.panes.len() && crate::mux_model::pane_ids(mid.panes)[at] == id;
        let p = mid.panes[at];
        assert(mid.panes.contains(p));
        assert(m.panes.contains(p) && p.pane_id != pane_id);
        let x = choose|x: int| 0 <= x < m.panes.len() && m.panes[x] == p;
        assert(crate::mux_model::pane_ids(m.panes)[x] == id);
        assert(!m.tabs[i].panes[k].dead);
        assert(window_lives(m, m.windows[j], Some(pane_id)));
        assert(m.windows[j].window_id == w.window_id);
    }
}

} // verus!
