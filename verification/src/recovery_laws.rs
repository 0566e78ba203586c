//! What holds of every exact removal.

use crate::mux::{
    lemma_remove_is_filter, lemma_tab_unlisted_wf, lemma_window_unlisted_wf, pane_location,
    pane_removed, panes_removed, recounted, tab_removed, tabs_removed, window_holding_tab,
    window_removed, window_without_tab,
};
use crate::mux_model::{
    pane_ids, tab_ids, tab_pane_ids, window_ids, DomainId, MuxView, Pane, PaneId, TabId, TabPane,
    TabView, WindowId, WindowView,
};
use crate::recovery::{
    finding, known_panes, known_tabs, known_windows, lemma_pane_location, lemma_pane_taken_wf,
    lemma_window_listing, neighbor_missing, outcome_is, pane_taken, panes_of_window, removal_state,
    still_present, tab_without_pane, Finding, OutcomeView, RecoveryNodeKind, RecoveryRemoveStatus,
    TargetView,
};
use vstd::prelude::*;

verus! {

proof fn lemma_pane_removed(m: MuxView, pane_id: PaneId)
    requires
        m.wf(),
    ensures
        pane_removed(m, pane_id).wf(),
        pane_removed(m, pane_id).tabs == m.tabs,
        pane_removed(m, pane_id).windows == m.windows,
        known_panes(pane_removed(m, pane_id)) == known_panes(m).remove(pane_id),
{
    let after = pane_removed(m, pane_id);
    let ids = pane_ids(m.panes);
    if m.has_pane(pane_id) {
        let at = ids.index_of(pane_id);
        let keep = |p: Pane| p.pane_id != pane_id;
        assert(ids[at] == pane_id);
        assert forall|i: int| 0 <= i < m.panes.len() && i != at implies keep(
            #[trigger] m.panes[i],
        ) by {
            assert(ids[i] != ids[at]);
        }
        lemma_remove_is_filter(m.panes, at, keep);
        assert(after.panes == m.panes.remove(at));
        assert(pane_ids(after.panes) =~= ids.remove(at));
        assert forall|id: PaneId| known_panes(after).contains(id) <==> known_panes(m).remove(
            pane_id,
        ).contains(id) by {
            let rest = ids.remove(at);
            if rest.contains(id) {
                let k = choose|k: int| 0 <= k < rest.len() && rest[k] == id;
                if k < at {
                    assert(ids[k] == id);
                } else {
                    assert(ids[k + 1] == id);
                }
            }
            if ids.contains(id) && id != pane_id {
                let k = choose|k: int| 0 <= k < ids.len() && ids[k] == id;
                if k < at {
                    assert(rest[k] == id);
                } else {
                    assert(rest[k - 1] == id);
                }
            }
        }
    }
    assert(known_panes(after) =~= known_panes(m).remove(pane_id));
}

proof fn lemma_panes_removed(m: MuxView, ids: Seq<PaneId>)
    requires
        m.wf(),
    ensures
        panes_removed(m, ids).wf(),
        panes_removed(m, ids).tabs == m.tabs,
        panes_removed(m, ids).windows == m.windows,
        known_panes(panes_removed(m, ids)) == known_panes(m).difference(ids.to_set()),
    decreases ids.len(),
{
    if ids.len() > 0 {
        let head = ids.drop_last();
        lemma_panes_removed(m, head);
        lemma_pane_removed(panes_removed(m, head), ids.last());
        assert forall|id: PaneId| #[trigger]
            ids.to_set().contains(id) <==> head.to_set().contains(id) || id == ids.last() by {
            if ids.contains(id) && id != ids.last() {
                let k = choose|k: int| 0 <= k < ids.len() && ids[k] == id;
                assert(head[k] == id);
            }
            if head.contains(id) {
                let k = choose|k: int| 0 <= k < head.len() && head[k] == id;
                assert(ids[k] == id);
            }
            assert(ids[ids.len() - 1] == ids.last());
        }
    }
    assert(known_panes(panes_removed(m, ids)) =~= known_panes(m).difference(ids.to_set()));
}

/// Removing a known tab takes exactly that tab and its panes, and leaves every
/// other tab and every window in place.
pub proof fn lemma_tab_removed(m: MuxView, tab_id: TabId)
    requires
        m.wf(),
        m.has_tab(tab_id),
    ensures
        tab_removed(m, tab_id).wf(),
        known_tabs(tab_removed(m, tab_id)) == known_tabs(m).remove(tab_id),
        known_panes(tab_removed(m, tab_id)) == known_panes(m).difference(
            tab_pane_ids(m.tab(tab_id).panes).to_set(),
        ),
        window_ids(tab_removed(m, tab_id).windows) == window_ids(m.windows),
        tab_removed(m, tab_id).windows == m.windows.map_values(
            |w: WindowView| window_without_tab(w, tab_id),
        ),
        forall|id: TabId|
            id != tab_id && #[trigger] tab_ids(m.tabs).contains(id) ==> tab_ids(
                tab_removed(m, tab_id).tabs,
            ).contains(id) && tab_removed(m, tab_id).tab(id) == m.tab(id),
{
    let place = tab_ids(m.tabs).index_of(tab_id);
    let ids = tab_ids(m.tabs);
    assert(ids[place] == tab_id);
    let keep = |t: TabView| t.tab_id != tab_id;
    assert forall|i: int| 0 <= i < m.tabs.len() && i != place implies keep(
        #[trigger] m.tabs[i],
    ) by {
        assert(ids[i] != ids[place]);
    }
    lemma_remove_is_filter(m.tabs, place, keep);
    let unlisted = MuxView {
        tabs: m.tabs.filter(|t: TabView| t.tab_id != tab_id),
        windows: m.windows.map_values(|w: WindowView| window_without_tab(w, tab_id)),
        ..m
    };
    lemma_tab_unlisted_wf(m, tab_id, unlisted);
    let gone = tab_pane_ids(m.tab(tab_id).panes);
    lemma_panes_removed(unlisted, gone);
    let after = tab_removed(m, tab_id);
    assert(after == recounted(panes_removed(unlisted, gone)));
    assert(after.tabs == m.tabs.remove(place));
    assert(tab_ids(after.tabs) =~= ids.remove(place));
    assert(window_ids(after.windows) =~= window_ids(m.windows));
    assert(known_panes(unlisted) =~= known_panes(m));
    assert(known_panes(after) =~= known_panes(panes_removed(unlisted, gone)));
    assert forall|id: TabId| id != tab_id && #[trigger] ids.contains(id) implies tab_ids(
        after.tabs,
    ).contains(id) && after.tab(id) == m.tab(id) by {
        let k = ids.index_of(id);
        assert(ids[k] == id);
        let rest = ids.remove(place);
        if k < place {
            assert(rest[k] == id);
        } else {
            assert(rest[k - 1] == id);
        }
        let r = rest.index_of(id);
        assert(rest[r] == id);
        assert(rest.no_duplicates());
        assert(after.tabs[r] == m.tabs[k]);
    }
    assert forall|id: TabId| known_tabs(after).contains(id) <==> known_tabs(m).remove(
        tab_id,
    ).contains(id) by {
        let rest = ids.remove(place);
        if rest.contains(id) {
            let k = choose|k: int| 0 <= k < rest.len() && rest[k] == id;
            if k < place {
                assert(ids[k] == id);
            } else {
                assert(ids[k + 1] == id);
            }
            assert(ids.contains(id));
            assert(id != tab_id) by {
                if id == tab_id {
                    if k < place {
                        assert(ids[k] == ids[place]);
                    } else {
                        assert(ids[k + 1] == ids[place]);
                    }
                }
            }
        }
        if ids.contains(id) && id != tab_id {
            assert(after.tab(id) == m.tab(id));
        }
    }
    assert(known_tabs(after) =~= known_tabs(m).remove(tab_id));
}

/// The panes of a row of tabs.
pub open spec fn panes_of_tabs(m: MuxView, ids: Seq<TabId>) -> Set<PaneId> {
    Set::new(
        |id: PaneId|
            exists|k: int|
                0 <= k < ids.len() && tab_pane_ids(m.tab(#[trigger] ids[k]).panes).contains(id),
    )
}

proof fn lemma_tabs_removed(m: MuxView, ids: Seq<TabId>)
    requires
        m.wf(),
        ids.no_duplicates(),
        forall|k: int| 0 <= k < ids.len() ==> m.has_tab(#[trigger] ids[k]),
    ensures
        tabs_removed(m, ids).wf(),
        known_tabs(tabs_removed(m, ids)) == known_tabs(m).difference(ids.to_set()),
        known_panes(tabs_removed(m, ids)) == known_panes(m).difference(panes_of_tabs(m, ids)),
        window_ids(tabs_removed(m, ids).windows) == window_ids(m.windows),
        forall|id: TabId|
            !ids.contains(id) && #[trigger] tab_ids(m.tabs).contains(id) ==> tab_ids(
                tabs_removed(m, ids).tabs,
            ).contains(id) && tabs_removed(m, ids).tab(id) == m.tab(id),
    decreases ids.len(),
{
    if ids.len() == 0 {
        assert(known_tabs(m) =~= known_tabs(m).difference(ids.to_set()));
        assert(known_panes(m) =~= known_panes(m).difference(panes_of_tabs(m, ids)));
    } else {
        let head = ids.drop_last();
        let last = ids.last();
        assert(head.no_duplicates());
        assert forall|k: int| 0 <= k < head.len() implies m.has_tab(#[trigger] head[k]) by {
            assert(head[k] == ids[k]);
        }
        lemma_tabs_removed(m, head);
        let mid = tabs_removed(m, head);
        assert(!head.contains(last)) by {
            if head.contains(last) {
                let k = choose|k: int| 0 <= k < head.len() && head[k] == last;
                assert(ids[k] == ids[ids.len() - 1]);
            }
        }
        assert(m.has_tab(ids[ids.len() - 1]));
        assert(mid.tab(last) == m.tab(last));
        assert(mid.has_tab(last));
        lemma_tab_removed(mid, last);
        let after = tabs_removed(m, ids);
        assert(after == tab_removed(mid, last));
        assert forall|id: TabId| #[trigger]
            ids.to_set().contains(id) <==> head.to_set().contains(id) || id == last by {
            if ids.contains(id) && id != last {
                let k = choose|k: int| 0 <= k < ids.len() && ids[k] == id;
                assert(head[k] == id);
            }
            if head.contains(id) {
                let k = choose|k: int| 0 <= k < head.len() && head[k] == id;
                assert(ids[k] == id);
            }
            assert(ids[ids.len() - 1] == last);
        }
        assert(known_tabs(after) =~= known_tabs(m).difference(ids.to_set()));
        assert forall|id: PaneId| #[trigger]
            panes_of_tabs(m, ids).contains(id) <==> panes_of_tabs(m, head).contains(id)
                || tab_pane_ids(m.tab(last).panes).contains(id) by {
            if panes_of_tabs(m, ids).contains(id) {
                let k = choose|k: int|
                    0 <= k < ids.len() && tab_pane_ids(m.tab(#[trigger] ids[k]).panes).contains(
                        id,
                    );
                if k < head.len() {
                    assert(head[k] == ids[k]);
                }
            }
            if panes_of_tabs(m, head).contains(id) {
                let k = choose|k: int|
                    0 <= k < head.len() && tab_pane_ids(m.tab(#[trigger] head[k]).panes).contains(
                        id,
                    );
                assert(ids[k] == head[k]);
            }
            if tab_pane_ids(m.tab(last).panes).contains(id) {
                assert(ids[ids.len() - 1] == last);
            }
        }
        assert(known_panes(after) =~= known_panes(m).difference(panes_of_tabs(m, ids)));
        assert forall|id: TabId|
            !ids.contains(id) && #[trigger] tab_ids(m.tabs).contains(id) implies tab_ids(
            after.tabs,
        ).contains(id) && after.tab(id) == m.tab(id) by {
            assert(ids[ids.len() - 1] == last);
            assert(!ids.to_set().contains(id));
            assert(!head.to_set().contains(id));
            assert(id != last);
            assert(tab_ids(mid.tabs).contains(id));
        }
    }
}

/// Removing a window, all of whose tabs are known, takes exactly that window,
/// its tabs and their panes.
pub proof fn lemma_window_removed(m: MuxView, window_id: WindowId)
    requires
        m.wf(),
        m.has_window(window_id),
        forall|k: int|
            0 <= k < m.window(window_id).tabs.len() ==> m.has_tab(
                #[trigger] m.window(window_id).tabs[k],
            ),
    ensures
        window_removed(m, window_id).wf(),
        known_windows(window_removed(m, window_id)) == known_windows(m).remove(window_id),
        known_tabs(window_removed(m, window_id)) == known_tabs(m).difference(
            m.window(window_id).tabs.to_set(),
        ),
        known_panes(window_removed(m, window_id)) == known_panes(m).difference(
            panes_of_window(m, m.window(window_id)),
        ),
{
    let ids = window_ids(m.windows);
    let place = ids.index_of(window_id);
    assert(ids[place] == window_id);
    let keep = |w: WindowView| w.window_id != window_id;
    assert forall|i: int| 0 <= i < m.windows.len() && i != place implies keep(
        #[trigger] m.windows[i],
    ) by {
        assert(ids[i] != ids[place]);
    }
    lemma_remove_is_filter(m.windows, place, keep);
    let unlisted = MuxView {
        windows: m.windows.filter(|w: WindowView| w.window_id != window_id),
        ..m
    };
    lemma_window_unlisted_wf(m, place);
    let tabs = m.window(window_id).tabs;
    assert(m.windows[place].tabs.no_duplicates());
    assert forall|k: int| 0 <= k < tabs.len() implies unlisted.has_tab(#[trigger] tabs[k]) by {
        assert(m.has_tab(m.window(window_id).tabs[k]));
    }
    lemma_tabs_removed(unlisted, tabs);
    let after = window_removed(m, window_id);
    let rest = ids.remove(place);
    assert(window_ids(unlisted.windows) =~= rest);
    assert forall|id: WindowId| known_windows(after).contains(id) <==> known_windows(m).remove(
        window_id,
    ).contains(id) by {
        if rest.contains(id) {
            let k = choose|k: int| 0 <= k < rest.len() && rest[k] == id;
            if k < place {
                assert(ids[k] == id);
            } else {
                assert(ids[k + 1] == id);
            }
        }
        if ids.contains(id) && id != window_id {
            let k = choose|k: int| 0 <= k < ids.len() && ids[k] == id;
            if k < place {
                assert(rest[k] == id);
            } else {
                assert(rest[k - 1] == id);
            }
        }
    }
    assert(known_windows(after) =~= known_windows(m).remove(window_id));
    assert(known_tabs(unlisted) =~= known_tabs(m));
    assert(known_panes(unlisted) =~= known_panes(m));
    assert(known_tabs(after) =~= known_tabs(m).difference(tabs.to_set()));
    assert(panes_of_tabs(unlisted, tabs) =~= panes_of_window(m, m.window(window_id)));
    assert(known_panes(after) =~= known_panes(m).difference(
        panes_of_window(m, m.window(window_id)),
    ));
}

/// Whether every tab of a targeted window is known.
pub open spec fn target_tabs_known(m: MuxView, target: TargetView) -> bool {
    match target {
        TargetView::Window { window_id, .. } => forall|k: int|
            0 <= k < m.window(window_id).tabs.len() ==> m.has_tab(
                #[trigger] m.window(window_id).tabs[k],
            ),
        _ => true,
    }
}

proof fn lemma_emptied_window(m: MuxView, window_id: WindowId, tab_id: TabId)
    requires
        m.wf(),
        m.has_tab(tab_id),
        m.has_window(window_id),
        m.window(window_id).tabs.len() == 1,
        m.window(window_id).tabs.contains(tab_id),
    ensures
        tab_removed(m, tab_id).has_window(window_id),
        tab_removed(m, tab_id).window(window_id).tabs.len() == 0,
{
    lemma_tab_removed(m, tab_id);
    let after = tab_removed(m, tab_id);
    let place = window_ids(m.windows).index_of(window_id);
    let tabs = m.window(window_id).tabs;
    assert(tabs[0] == tab_id);
    assert(after.windows[place] == window_without_tab(m.windows[place], tab_id));
    lemma_remove_is_filter(tabs, 0, crate::mux::is_not(tab_id));
}

proof fn lemma_pane_target_removed(m: MuxView, pane_id: PaneId, tab_id: TabId, window_id: WindowId)
    requires
        m.wf(),
        m.has_pane(pane_id),
        m.has_tab(tab_id),
        tab_pane_ids(m.tab(tab_id).panes).contains(pane_id),
        m.has_window(window_id),
        m.window(window_id).tabs.contains(tab_id),
    ensures
        ({
            let alone = pane_removed(pane_taken(m, tab_id, pane_id), pane_id);
            &&& alone.wf()
            &&& alone.windows == m.windows
            &&& known_panes(alone) == known_panes(m).remove(pane_id)
            &&& known_tabs(alone) == known_tabs(m)
            &&& alone.has_tab(tab_id)
            &&& m.tab(tab_id).panes.len() == 1 ==> alone.tab(tab_id).panes.len() == 0
        }),
{
    let taken = pane_taken(m, tab_id, pane_id);
    lemma_pane_taken_wf(m, tab_id, pane_id);
    lemma_pane_removed(taken, pane_id);
    let alone = pane_removed(taken, pane_id);
    assert(known_panes(taken) =~= known_panes(m));
    let ids = tab_ids(m.tabs);
    let place = ids.index_of(tab_id);
    assert(ids[place] == tab_id);
    assert forall|id: TabId| known_tabs(alone).contains(id) <==> known_tabs(m).contains(id) by {
        if ids.contains(id) {
            let k = ids.index_of(id);
            assert(ids[k] == id);
        }
    }
    assert(known_tabs(alone) =~= known_tabs(m));
    if m.tab(tab_id).panes.len() == 1 {
        let panes = m.tab(tab_id).panes;
        let keep = |p: TabPane| p.pane_id != pane_id;
        assert(tab_pane_ids(panes)[0] == pane_id);
        lemma_remove_is_filter(panes, 0, keep);
        assert(taken.tabs[place] == tab_without_pane(m.tab(tab_id), pane_id));
    }
}

/// A removal that is not refused takes exactly what had to go: the target, what
/// is below it, and the ancestors that it leaves empty. All that was known
/// besides is known still.
pub proof fn law_removal_is_exact(m: MuxView, target: TargetView)
    requires
        m.wf(),
        finding(m, target) is Found,
        target_tabs_known(m, target),
    ensures
        known_panes(removal_state(m, target)) == known_panes(m).difference(
            finding(m, target)->panes,
        ),
        known_tabs(removal_state(m, target)) == known_tabs(m).difference(
            finding(m, target)->tabs,
        ),
        known_windows(removal_state(m, target)) == known_windows(m).difference(
            finding(m, target)->windows,
        ),
        !still_present(finding(m, target), removal_state(m, target)),
        !neighbor_missing(m, finding(m, target), removal_state(m, target)),
{
    let found = finding(m, target);
    let after = removal_state(m, target);
    match target {
        TargetView::Pane { pane_id, parent_tab_id, parent_window_id } => {
            lemma_pane_location(m, pane_id);
            lemma_pane_target_removed(m, pane_id, parent_tab_id, parent_window_id);
            let alone = pane_removed(pane_taken(m, parent_tab_id, pane_id), pane_id);
            assert(known_windows(alone) =~= known_windows(m));
            if m.tab(parent_tab_id).panes.len() == 1 {
                lemma_tab_removed(alone, parent_tab_id);
                let emptied = tab_removed(alone, parent_tab_id);
                assert(tab_pane_ids(alone.tab(parent_tab_id).panes).to_set() =~= Set::empty());
                assert(known_panes(emptied) =~= known_panes(alone));
                assert(known_windows(emptied) =~= known_windows(m));
                if m.window(parent_window_id).tabs.len() == 1 {
                    lemma_emptied_window(alone, parent_window_id, parent_tab_id);
                    lemma_window_removed(emptied, parent_window_id);
                    assert(emptied.window(parent_window_id).tabs.to_set() =~= Set::empty());
                    assert(panes_of_window(emptied, emptied.window(parent_window_id))
                        =~= Set::empty());
                }
            }
        },
        TargetView::Tab { tab_id, parent_window_id } => {
            lemma_window_listing(m, tab_id);
            lemma_tab_removed(m, tab_id);
            let emptied = tab_removed(m, tab_id);
            assert(known_windows(emptied) =~= known_windows(m));
            if m.window(parent_window_id).tabs.len() == 1 {
                lemma_emptied_window(m, parent_window_id, tab_id);
                lemma_window_removed(emptied, parent_window_id);
                assert(emptied.window(parent_window_id).tabs.to_set() =~= Set::empty());
                assert(panes_of_window(emptied, emptied.window(parent_window_id)) =~= Set::empty());
            }
        },
        TargetView::Window { window_id, .. } => {
            lemma_window_removed(m, window_id);
        },
    }
    assert(known_panes(after) =~= known_panes(m).difference(found->panes));
    assert(known_tabs(after) =~= known_tabs(m).difference(found->tabs));
    assert(known_windows(after) =~= known_windows(m).difference(found->windows));
}

/// A refused removal changes nothing: not the state, and no subscriber hears of
/// it.
pub proof fn law_refused_removal_changes_nothing(m: MuxView, target: TargetView)
    requires
        finding(m, target) is Refused,
    ensures
        removal_state(m, target) == m,
{
}

/// A removed target is not found again: the retry is refused as not found.
pub proof fn law_removed_target_is_not_found_again(m: MuxView, target: TargetView)
    requires
        m.wf(),
        finding(m, target) is Found,
        target_tabs_known(m, target),
    ensures
        finding(removal_state(m, target), target) == (Finding::Refused {
            status: RecoveryRemoveStatus::NotFound,
            tab_id: None,
            window_id: None,
            workspace: None,
        }),
{
    law_removal_is_exact(m, target);
    let after = removal_state(m, target);
    match target {
        TargetView::Pane { pane_id, .. } => {
            assert(!known_panes(after).contains(pane_id));
        },
        TargetView::Tab { tab_id, .. } => {
            assert(!known_tabs(after).contains(tab_id));
        },
        TargetView::Window { window_id, .. } => {
            assert(!known_windows(after).contains(window_id));
        },
    }
}

/// The window of an optional place.
pub open spec fn window_of(place: Option<(DomainId, WindowId, TabId)>) -> Option<WindowId> {
    match place {
        Some((_, window_id, _)) => Some(window_id),
        None => None,
    }
}

/// The tab of an optional place.
pub open spec fn tab_of(place: Option<(DomainId, WindowId, TabId)>) -> Option<TabId> {
    match place {
        Some((_, _, tab_id)) => Some(tab_id),
        None => None,
    }
}

/// A node is removed exactly where it is there under the parents that were named.
/// One that is not known is not found; for any other mismatch the actual parents
/// are given.
pub proof fn law_removal_needs_the_named_parents(m: MuxView, target: TargetView)
    ensures
        match target {
            TargetView::Pane { pane_id, parent_tab_id, parent_window_id } => {
                let place = pane_location(m, pane_id);
                &&& finding(m, target) is Found <==> m.has_pane(pane_id) && place is Some
                    && tab_of(place) == Some(parent_tab_id) && window_of(place) == Some(
                    parent_window_id,
                )
                &&& !m.has_pane(pane_id) <==> finding(m, target) is Refused && finding(
                    m,
                    target,
                )->status == RecoveryRemoveStatus::NotFound
                &&& finding(m, target) is Refused && m.has_pane(pane_id) ==> finding(
                    m,
                    target,
                )->status == RecoveryRemoveStatus::ParentMismatch && finding(m, target)->Refused_tab_id
                    == tab_of(place) && finding(m, target)->Refused_window_id == window_of(place)
            },
            TargetView::Tab { tab_id, parent_window_id } => {
                let holder = window_holding_tab(m.windows, tab_id);
                &&& finding(m, target) is Found <==> m.has_tab(tab_id) && holder == Some(
                    parent_window_id,
                )
                &&& !m.has_tab(tab_id) <==> finding(m, target) is Refused && finding(
                    m,
                    target,
                )->status == RecoveryRemoveStatus::NotFound
                &&& finding(m, target) is Refused && m.has_tab(tab_id) ==> finding(
                    m,
                    target,
                )->status == RecoveryRemoveStatus::ParentMismatch && finding(
                    m,
                    target,
                )->Refused_window_id == holder
            },
            TargetView::Window { window_id, workspace } => {
                let actual = m.window(window_id).workspace;
                &&& finding(m, target) is Found <==> m.has_window(window_id) && actual == workspace
                &&& !m.has_window(window_id) <==> finding(m, target) is Refused && finding(
                    m,
                    target,
                )->status == RecoveryRemoveStatus::NotFound
                &&& finding(m, target) is Refused && m.has_window(window_id) ==> finding(
                    m,
                    target,
                )->status == RecoveryRemoveStatus::ParentMismatch && finding(
                    m,
                    target,
                )->Refused_workspace == Some(actual)
            },
        },
{
}

/// What a removal takes with it: a pane takes its tab where it is the last one in
/// it, and a tab its window where it is the last one there; a tab takes all its
/// panes, and a window all its tabs and theirs.
pub proof fn law_removal_takes_emptied_parents(m: MuxView, target: TargetView)
    requires
        m.wf(),
        finding(m, target) is Found,
        target_tabs_known(m, target),
    ensures
        ({
            let after = removal_state(m, target);
            match target {
                TargetView::Pane { pane_id, parent_tab_id, parent_window_id } => {
                    let last_pane = m.tab(parent_tab_id).panes.len() == 1;
                    let last_tab = m.window(parent_window_id).tabs.len() == 1;
                    &&& forall|id: PaneId| #[trigger]
                        after.has_pane(id) <==> m.has_pane(id) && id != pane_id
                    &&& forall|id: TabId| #[trigger]
                        after.has_tab(id) <==> m.has_tab(id) && !(last_pane && id == parent_tab_id)
                    &&& forall|id: WindowId| #[trigger]
                        after.has_window(id) <==> m.has_window(id) && !(last_pane && last_tab && id
                            == parent_window_id)
                },
                TargetView::Tab { tab_id, parent_window_id } => {
                    let last_tab = m.window(parent_window_id).tabs.len() == 1;
                    &&& forall|id: PaneId| #[trigger]
                        after.has_pane(id) <==> m.has_pane(id) && !tab_pane_ids(
                            m.tab(tab_id).panes,
                        ).contains(id)
                    &&& forall|id: TabId| #[trigger]
                        after.has_tab(id) <==> m.has_tab(id) && id != tab_id
                    &&& forall|id: WindowId| #[trigger]
                        after.has_window(id) <==> m.has_window(id) && !(last_tab && id
                            == parent_window_id)
                },
                TargetView::Window { window_id, .. } => {
                    let tabs = m.window(window_id).tabs;
                    &&& forall|id: PaneId| #[trigger]
                        after.has_pane(id) <==> m.has_pane(id) && !(exists|k: int|
                            0 <= k < tabs.len() && tab_pane_ids(
                                m.tab(#[trigger] tabs[k]).panes,
                            ).contains(id))
                    &&& forall|id: TabId| #[trigger]
                        after.has_tab(id) <==> m.has_tab(id) && !tabs.contains(id)
                    &&& forall|id: WindowId| #[trigger]
                        after.has_window(id) <==> m.has_window(id) && id != window_id
                },
            }
        }),
{
    law_removal_is_exact(m, target);
    let after = removal_state(m, target);
    let found = finding(m, target);
    assert forall|id: PaneId| #[trigger] after.has_pane(id) <==> m.has_pane(id)
        && !found->panes.contains(id) by {
        assert(known_panes(after).contains(id) <==> known_panes(m).contains(id)
            && !found->panes.contains(id));
    }
    assert forall|id: TabId| #[trigger] after.has_tab(id) <==> m.has_tab(id)
        && !found->tabs.contains(id) by {
        assert(known_tabs(after).contains(id) <==> known_tabs(m).contains(id)
            && !found->tabs.contains(id));
    }
    assert forall|id: WindowId| #[trigger] after.has_window(id) <==> m.has_window(id)
        && !found->windows.contains(id) by {
        assert(known_windows(after).contains(id) <==> known_windows(m).contains(id)
            && !found->windows.contains(id));
    }
}

/// The outcome of a removal names the node that was asked for, and says that it was
/// removed exactly where it was found under its parents. The lists name what is no
/// longer known, each in ascending order; after a refusal they are empty.
pub proof fn law_outcome_tells_what_was_removed(
    m: MuxView,
    target: TargetView,
    outcome: OutcomeView,
)
    requires
        m.wf(),
        target_tabs_known(m, target),
        outcome_is(outcome, m, target, removal_state(m, target)),
    ensures
        outcome.schema_version == 1,
        outcome.kind == match target {
            TargetView::Pane { .. } => RecoveryNodeKind::Pane,
            TargetView::Tab { .. } => RecoveryNodeKind::Tab,
            TargetView::Window { .. } => RecoveryNodeKind::Window,
        },
        outcome.requested_native_id == match target {
            TargetView::Pane { pane_id, .. } => pane_id,
            TargetView::Tab { tab_id, .. } => tab_id,
            TargetView::Window { window_id, .. } => window_id,
        },
        outcome.status == RecoveryRemoveStatus::Removed <==> finding(m, target) is Found,
        outcome.postcondition_error is None,
        ({
            let after = removal_state(m, target);
            &&& forall|id: PaneId| #[trigger]
                outcome.removed_pane_ids.contains(id) <==> m.has_pane(id) && !after.has_pane(id)
            &&& forall|id: TabId| #[trigger]
                outcome.removed_tab_ids.contains(id) <==> m.has_tab(id) && !after.has_tab(id)
            &&& forall|id: WindowId| #[trigger]
                outcome.removed_window_ids.contains(id) <==> m.has_window(id) && !after.has_window(
                    id,
                )
            &&& forall|i: int, j: int|
                0 <= i < j < outcome.removed_pane_ids.len() ==> outcome.removed_pane_ids[i]
                    < outcome.removed_pane_ids[j]
            &&& forall|i: int, j: int|
                0 <= i < j < outcome.removed_tab_ids.len() ==> outcome.removed_tab_ids[i]
                    < outcome.removed_tab_ids[j]
            &&& forall|i: int, j: int|
                0 <= i < j < outcome.removed_window_ids.len() ==> outcome.removed_window_ids[i]
                    < outcome.removed_window_ids[j]
        }),
{
    law_removal_needs_the_named_parents(m, target);
    let after = removal_state(m, target);
    if finding(m, target) is Found {
        law_removal_is_exact(m, target);
    }
    assert forall|id: PaneId| #[trigger] outcome.removed_pane_ids.contains(id) <==> m.has_pane(id)
        && !after.has_pane(id) by {
        assert(known_panes(m).contains(id) == m.has_pane(id));
        assert(known_panes(after).contains(id) == after.has_pane(id));
    }
    assert forall|id: TabId| #[trigger] outcome.removed_tab_ids.contains(id) <==> m.has_tab(id)
        && !after.has_tab(id) by {
        assert(known_tabs(m).contains(id) == m.has_tab(id));
        assert(known_tabs(after).contains(id) == after.has_tab(id));
    }
    assert forall|id: WindowId| #[trigger] outcome.removed_window_ids.contains(id)
        <==> m.has_window(id) && !after.has_window(id) by {
        assert(known_windows(m).contains(id) == m.has_window(id));
        assert(known_windows(after).contains(id) == after.has_window(id));
    }
}

/// A pane that is taken out of its tab is no longer listed there, and all others
/// are. If it had the focus, the first of the others has it; if not, the focus
/// stays. The pane stays known, and no other tab changes.
pub proof fn law_taken_pane_leaves_its_tab(m: MuxView, tab_id: TabId, pane_id: PaneId)
    requires
        tab_ids(m.tabs).no_duplicates(),
        tab_ids(m.tabs).contains(tab_id),
    ensures
        ({
            let after = pane_taken(m, tab_id, pane_id);
            let before = m.tab(tab_id);
            &&& after.tabs.len() == m.tabs.len()
            &&& tab_ids(after.tabs) == tab_ids(m.tabs)
            &&& forall|p: TabPane| #[trigger]
                after.tab(tab_id).panes.contains(p) <==> before.panes.contains(p) && p.pane_id
                    != pane_id
            &&& before.active_pane != Some(pane_id) ==> after.tab(tab_id).active_pane
                == before.active_pane
            &&& before.active_pane == Some(pane_id) ==> after.tab(tab_id).active_pane == if after.tab(
                tab_id,
            ).panes.len() == 0 {
                None
            } else {
                Some(after.tab(tab_id).panes[0].pane_id)
            }
            &&& after.tab(tab_id).size == before.size
            &&& after.tab(tab_id).registered == before.registered
            &&& forall|i: int|
                0 <= i < m.tabs.len() && m.tabs[i].tab_id != tab_id ==> (#[trigger] after.tabs[i])
                    == m.tabs[i]
            &&& after.panes == m.panes
            &&& after.windows == m.windows
            &&& after.effects == m.effects
        }),
{
    let after = pane_taken(m, tab_id, pane_id);
    let ids = tab_ids(m.tabs);
    let place = ids.index_of(tab_id);
    assert(ids[place] == tab_id);
    assert(tab_ids(after.tabs) =~= ids);
    crate::mux::lemma_filter_members(m.tab(tab_id).panes, |p: TabPane| p.pane_id != pane_id);
}

} // verus!
