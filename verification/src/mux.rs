//! The multiplexer: the operations on its windows, tabs, panes and clients.

use crate::mux_model::{
    pane_ids, tab_ids, tab_pane_ids, views, window_ids, ClientId, ClientInfo, Domain, DomainId,
    DomainView, EffectView, MuxEffect, MuxNotification, MuxView, NotificationView, Pane, PaneId,
    Tab, TabId, TabPane, TabView, Window, WindowId, WindowView,
};
use crate::text::{optional_string, same_text};
use crate::text_set::TextSet;
use vstd::prelude::*;

verus! {

/// The multiplexer. What it has to do outside itself waits, in order, in
/// `effects`.
pub struct Mux {
    pub windows: Vec<Window>,
    pub tabs: Vec<Tab>,
    pub panes: Vec<Pane>,
    pub domains: Vec<Domain>,
    pub domains_by_name: Vec<Domain>,
    pub default_domain: Option<Domain>,
    pub clients: Vec<ClientInfo>,
    pub identity: Option<ClientId>,
    pub occupied: TextSet,
    pub banner: Option<String>,
    pub default_workspace: Option<String>,
    pub has_agent: bool,
    pub activity: usize,
    pub effects: Vec<MuxEffect>,
}

/// The view of an optional domain.
pub open spec fn optional_domain(domain: Option<Domain>) -> Option<DomainView> {
    match domain {
        Some(domain) => Some(domain@),
        None => None,
    }
}

impl View for Mux {
    type V = MuxView;

    open spec fn view(&self) -> MuxView {
        MuxView {
            windows: views(self.windows@),
            tabs: views(self.tabs@),
            panes: self.panes@,
            domains: views(self.domains@),
            domains_by_name: views(self.domains_by_name@),
            default_domain: optional_domain(self.default_domain),
            clients: views(self.clients@),
            identity: self.identity,
            occupied: self.occupied@,
            banner: optional_string(self.banner),
            default_workspace: optional_string(self.default_workspace),
            has_agent: self.has_agent,
            activity: self.activity,
            effects: views(self.effects@),
        }
    }
}

/// Taking out one item is keeping all others, where it is the only one that is
/// not kept.
pub proof fn lemma_remove_is_filter<A>(row: Seq<A>, at: int, keep: spec_fn(A) -> bool)
    requires
        0 <= at < row.len(),
        !keep(row[at]),
        forall|i: int| 0 <= i < row.len() && i != at ==> keep(#[trigger] row[i]),
    ensures
        row.filter(keep) == row.remove(at),
    decreases row.len(),
{
    reveal(Seq::filter);
    let head = row.drop_last();
    if at == row.len() - 1 {
        assert forall|i: int| 0 <= i < head.len() implies keep(#[trigger] head[i]) by {
            assert(head[i] == row[i]);
        }
        lemma_filter_keeps_all(head, keep);
        assert(row.remove(at) =~= head);
    } else {
        assert forall|i: int| 0 <= i < head.len() && i != at implies keep(#[trigger] head[i]) by {
            assert(head[i] == row[i]);
        }
        assert(head[at] == row[at]);
        lemma_remove_is_filter(head, at, keep);
        assert(keep(row[row.len() - 1]));
        assert(head.remove(at).push(row.last()) =~= row.remove(at));
    }
}

/// Where all is kept, nothing changes.
pub proof fn lemma_filter_keeps_all<A>(row: Seq<A>, keep: spec_fn(A) -> bool)
    requires
        forall|i: int| 0 <= i < row.len() ==> keep(#[trigger] row[i]),
    ensures
        row.filter(keep) == row,
    decreases row.len(),
{
    reveal(Seq::filter);
    if row.len() > 0 {
        let head = row.drop_last();
        assert forall|i: int| 0 <= i < head.len() implies keep(#[trigger] head[i]) by {
            assert(head[i] == row[i]);
        }
        lemma_filter_keeps_all(head, keep);
        assert(keep(row[row.len() - 1]));
        assert(head.push(row.last()) =~= row);
    }
}

/// A filtered row holds exactly the kept members of the row, each as often as
/// before where all were distinct.
pub proof fn lemma_filter_members<A>(row: Seq<A>, keep: spec_fn(A) -> bool)
    ensures
        forall|x: A| #[trigger] row.filter(keep).contains(x) <==> row.contains(x) && keep(x),
        row.no_duplicates() ==> row.filter(keep).no_duplicates(),
    decreases row.len(),
{
    reveal(Seq::filter);
    if row.len() > 0 {
        let head = row.drop_last();
        lemma_filter_members(head, keep);
        let kept = head.filter(keep);
        assert forall|x: A| #[trigger] row.filter(keep).contains(x) <==> row.contains(x) && keep(
            x,
        ) by {
            if row.contains(x) && keep(x) {
                let i = choose|i: int| 0 <= i < row.len() && row[i] == x;
                if i < head.len() {
                    assert(head[i] == x);
                    assert(kept.contains(x));
                    let k = choose|k: int| 0 <= k < kept.len() && kept[k] == x;
                    assert(row.filter(keep)[k] == x);
                } else {
                    assert(row.filter(keep)[kept.len() as int] == x);
                }
            }
            if row.filter(keep).contains(x) {
                let k = choose|k: int|
                    0 <= k < row.filter(keep).len() && row.filter(keep)[k] == x;
                if k < kept.len() {
                    assert(kept[k] == x);
                    assert(kept.contains(x));
                    assert(head.contains(x));
                    let i = choose|i: int| 0 <= i < head.len() && head[i] == x;
                    assert(row[i] == x);
                } else {
                    assert(x == row.last());
                    assert(row[row.len() - 1] == x);
                }
            }
        }
        if row.no_duplicates() {
            assert(head.no_duplicates());
            if keep(row.last()) {
                if kept.contains(row.last()) {
                    assert(head.contains(row.last()));
                    let i = choose|i: int| 0 <= i < head.len() && head[i] == row.last();
                    assert(row[i] == row[row.len() - 1]);
                }
                let result = row.filter(keep);
                assert forall|i: int, j: int|
                    0 <= i < result.len() && 0 <= j < result.len() && i != j implies result[i]
                    != result[j] by {
                    if i < kept.len() && j < kept.len() {
                        assert(kept[i] != kept[j]);
                    } else if i < kept.len() {
                        assert(kept.contains(kept[i]));
                    } else {
                        assert(kept.contains(kept[j]));
                    }
                }
            }
        }
    }
}

/// Being another number than this one.
pub open spec fn is_not(id: usize) -> spec_fn(usize) -> bool {
    |x: usize| x != id
}

/// A row of numbers without one of them.
pub open spec fn without(ids: Seq<usize>, id: usize) -> Seq<usize> {
    ids.filter(is_not(id))
}

/// Copies a row of numbers without one of them.
pub fn ids_without(ids: &Vec<usize>, id: usize) -> (rest: Vec<usize>)
    ensures
        rest@ == without(ids@, id),
{
    let ghost keep = is_not(id);
    let mut rest: Vec<usize> = Vec::new();
    let mut i: usize = 0;
    proof {
        reveal(Seq::filter);
        assert(ids@.take(0).filter(keep) =~= Seq::empty());
    }
    while i < ids.len()
        invariant
            i <= ids@.len(),
            keep == is_not(id),
            rest@ == ids@.take(i as int).filter(keep),
        decreases ids@.len() - i,
    {
        proof {
            reveal(Seq::filter);
            assert(ids@.take(i + 1).drop_last() =~= ids@.take(i as int));
            assert(ids@.take(i + 1).last() == ids@[i as int]);
        }
        if ids[i] != id {
            rest.push(ids[i]);
        }
        i += 1;
    }
    assert(ids@.take(i as int) =~= ids@);
    rest
}

/// The place of the active tab after a row of tabs has shrunk: it stays with
/// the tab that was active, or moves to the last one that is left.
pub open spec fn active_after(tabs: Seq<TabId>, active: usize, rest: Seq<TabId>) -> usize {
    if active < tabs.len() && rest.contains(tabs[active as int]) {
        rest.index_of(tabs[active as int]) as usize
    } else if rest.len() > 0 && active >= rest.len() {
        (rest.len() - 1) as usize
    } else {
        active
    }
}

/// A window without one tab.
pub open spec fn window_without_tab(window: WindowView, tab_id: TabId) -> WindowView {
    let rest = without(window.tabs, tab_id);
    WindowView { tabs: rest, active: active_after(window.tabs, window.active, rest), ..window }
}

/// Finds a number in a row without repetition.
pub fn place_of(ids: &Vec<usize>, id: usize) -> (place: Option<usize>)
    requires
        ids@.no_duplicates(),
    ensures
        match place {
            Some(i) => i < ids@.len() && ids@[i as int] == id && ids@.contains(id) && i
                == ids@.index_of(id),
            None => !ids@.contains(id),
        },
{
    let mut i: usize = 0;
    while i < ids.len()
        invariant
            i <= ids@.len(),
            ids@.no_duplicates(),
            forall|k: int| 0 <= k < i ==> ids@[k] != id,
        decreases ids@.len() - i,
    {
        if ids[i] == id {
            proof {
                let w = ids@.index_of(id);
                assert(ids@[i as int] == id);
                assert(ids@.contains(id));
                assert(ids@[w] == id);
            }
            return Some(i);
        }
        i += 1;
    }
    None
}

impl Window {
    /// Takes a tab out of the window.
    pub fn remove_by_id(&mut self, tab_id: TabId)
        requires
            old(self)@.tabs.no_duplicates(),
        ensures
            final(self)@ == window_without_tab(old(self)@, tab_id),
    {
        let rest = ids_without(&self.tabs, tab_id);
        proof {
            lemma_filter_members(self.tabs@, is_not(tab_id));
        }
        let mut active: usize = self.active;
        let mut found = false;
        if self.active < self.tabs.len() {
            match place_of(&rest, self.tabs[self.active]) {
                Some(place) => {
                    active = place;
                    found = true;
                },
                None => {},
            }
        }
        if !found && rest.len() > 0 && active >= rest.len() {
            active = rest.len() - 1;
        }
        self.tabs = rest;
        self.active = active;
    }

    /// Moves the window to a workspace. Tells whether it was in another one.
    pub fn set_workspace(&mut self, workspace: &str) -> (changed: bool)
        ensures
            changed == (old(self)@.workspace != workspace@),
            final(self)@ == (WindowView { workspace: workspace@, ..old(self)@ }),
    {
        if same_text(self.workspace.as_str(), workspace) {
            return false;
        }
        self.workspace = workspace.to_owned();
        true
    }
}

/// The workspaces that hold at least one pane.
pub open spec fn occupied_workspaces(windows: Seq<WindowView>, tabs: Seq<TabView>) -> Set<
    Seq<char>,
> {
    Set::new(
        |workspace: Seq<char>|
            exists|i: int|
                0 <= i < windows.len() && (#[trigger] windows[i]).workspace == workspace
                    && window_holds_pane(windows[i], tabs),
    )
}

/// Whether some tab of a window has a pane.
pub open spec fn window_holds_pane(window: WindowView, tabs: Seq<TabView>) -> bool {
    exists|k: int|
        0 <= k < window.tabs.len() && tab_ids(tabs).contains(#[trigger] window.tabs[k])
            && tabs[tab_ids(tabs).index_of(window.tabs[k])].panes.len() > 0
}

/// The state with the occupied workspaces counted anew.
pub open spec fn recounted(m: MuxView) -> MuxView {
    MuxView { occupied: occupied_workspaces(m.windows, m.tabs), ..m }
}

/// The state with one more effect waiting.
pub open spec fn with_effect(m: MuxView, effect: EffectView) -> MuxView {
    MuxView { effects: m.effects.push(effect), ..m }
}

/// The state with one more notification waiting.
pub open spec fn notified(m: MuxView, notification: NotificationView) -> MuxView {
    with_effect(m, EffectView::Notify(notification))
}

/// The state without one pane: it is killed, and subscribers are told.
pub open spec fn pane_removed(m: MuxView, pane_id: PaneId) -> MuxView {
    if m.has_pane(pane_id) {
        let rest = MuxView { panes: m.panes.filter(|p: Pane| p.pane_id != pane_id), ..m };
        recounted(
            notified(
                with_effect(rest, EffectView::KillPane(pane_id)),
                NotificationView::PaneRemoved(pane_id),
            ),
        )
    } else {
        m
    }
}

/// The state without a row of panes, taken out in their order.
pub open spec fn panes_removed(m: MuxView, ids: Seq<PaneId>) -> MuxView
    decreases ids.len(),
{
    if ids.len() == 0 {
        m
    } else {
        pane_removed(panes_removed(m, ids.drop_last()), ids.last())
    }
}

/// The state without one tab: no window lists it, and its panes are removed.
pub open spec fn tab_removed(m: MuxView, tab_id: TabId) -> MuxView {
    if m.has_tab(tab_id) {
        let unlisted = MuxView {
            tabs: m.tabs.filter(|t: TabView| t.tab_id != tab_id),
            windows: m.windows.map_values(|w: WindowView| window_without_tab(w, tab_id)),
            ..m
        };
        recounted(panes_removed(unlisted, tab_pane_ids(m.tab(tab_id).panes)))
    } else {
        m
    }
}

/// The state without a row of tabs, taken out in their order.
pub open spec fn tabs_removed(m: MuxView, ids: Seq<TabId>) -> MuxView
    decreases ids.len(),
{
    if ids.len() == 0 {
        m
    } else {
        tab_removed(tabs_removed(m, ids.drop_last()), ids.last())
    }
}

/// The state without one window and its tabs.
pub open spec fn window_removed(m: MuxView, window_id: WindowId) -> MuxView {
    if m.has_window(window_id) {
        let unlisted = MuxView {
            windows: m.windows.filter(|w: WindowView| w.window_id != window_id),
            ..m
        };
        recounted(
            notified(
                tabs_removed(unlisted, m.window(window_id).tabs),
                NotificationView::WindowRemoved(window_id),
            ),
        )
    } else {
        recounted(m)
    }
}

/// The last known tab that holds a pane.
pub open spec fn tab_holding_pane(tabs: Seq<TabView>, pane_id: PaneId) -> Option<TabView>
    decreases tabs.len(),
{
    if tabs.len() == 0 {
        None
    } else if tabs.last().registered && tab_pane_ids(tabs.last().panes).contains(pane_id) {
        Some(tabs.last())
    } else {
        tab_holding_pane(tabs.drop_last(), pane_id)
    }
}

/// The last window that lists a tab.
pub open spec fn window_holding_tab(windows: Seq<WindowView>, tab_id: TabId) -> Option<WindowId>
    decreases windows.len(),
{
    if windows.len() == 0 {
        None
    } else if windows.last().tabs.contains(tab_id) {
        Some(windows.last().window_id)
    } else {
        window_holding_tab(windows.drop_last(), tab_id)
    }
}

/// Where a pane is: its domain, its window and its tab.
pub open spec fn pane_location(m: MuxView, pane_id: PaneId) -> Option<
    (DomainId, WindowId, TabId),
> {
    match tab_holding_pane(m.tabs, pane_id) {
        None => None,
        Some(tab) => match window_holding_tab(m.windows, tab.tab_id) {
            None => None,
            Some(window_id) => Some(
                (
                    tab.panes[tab_pane_ids(tab.panes).index_of(pane_id)].domain_id,
                    window_id,
                    tab.tab_id,
                ),
            ),
        },
    }
}

/// A tab that holds a pane is one of the tabs, known, and holds it.
pub proof fn lemma_tab_holding_pane(tabs: Seq<TabView>, pane_id: PaneId)
    ensures
        match tab_holding_pane(tabs, pane_id) {
            Some(tab) => tabs.contains(tab) && tab.registered && tab_pane_ids(
                tab.panes,
            ).contains(pane_id),
            None => forall|i: int|
                0 <= i < tabs.len() ==> !((#[trigger] tabs[i]).registered && tab_pane_ids(
                    tabs[i].panes,
                ).contains(pane_id)),
        },
    decreases tabs.len(),
{
    if tabs.len() > 0 {
        let head = tabs.drop_last();
        lemma_tab_holding_pane(head, pane_id);
        if tabs.last().registered && tab_pane_ids(tabs.last().panes).contains(pane_id) {
            assert(tabs[tabs.len() - 1] == tabs.last());
        } else {
            match tab_holding_pane(head, pane_id) {
                Some(tab) => {
                    let i = choose|i: int| 0 <= i < head.len() && head[i] == tab;
                    assert(tabs[i] == tab);
                },
                None => {
                    assert forall|i: int| 0 <= i < tabs.len() implies !((
                    #[trigger] tabs[i]).registered && tab_pane_ids(tabs[i].panes).contains(
                        pane_id,
                    )) by {
                        if i < head.len() {
                            assert(head[i] == tabs[i]);
                        }
                    }
                },
            }
        }
    }
}

/// A window that lists a tab is one of the windows, and lists it.
pub proof fn lemma_window_holding_tab(windows: Seq<WindowView>, tab_id: TabId)
    ensures
        match window_holding_tab(windows, tab_id) {
            Some(window_id) => exists|i: int|
                0 <= i < windows.len() && (#[trigger] windows[i]).window_id == window_id
                    && windows[i].tabs.contains(tab_id),
            None => forall|i: int|
                0 <= i < windows.len() ==> !(#[trigger] windows[i]).tabs.contains(tab_id),
        },
    decreases windows.len(),
{
    if windows.len() > 0 {
        let head = windows.drop_last();
        lemma_window_holding_tab(head, tab_id);
        if windows.last().tabs.contains(tab_id) {
            assert(windows[windows.len() - 1].tabs.contains(tab_id));
        } else {
            match window_holding_tab(head, tab_id) {
                Some(window_id) => {
                    let i = choose|i: int|
                        0 <= i < head.len() && (#[trigger] head[i]).window_id == window_id
                            && head[i].tabs.contains(tab_id);
                    assert(windows[i] == head[i]);
                },
                None => {
                    assert forall|i: int| 0 <= i < windows.len() implies !(
                    #[trigger] windows[i]).tabs.contains(tab_id) by {
                        if i < head.len() {
                            assert(head[i] == windows[i]);
                        }
                    }
                },
            }
        }
    }
}

fn lists(ids: &Vec<usize>, id: usize) -> (found: bool)
    ensures
        found == ids@.contains(id),
{
    let mut i: usize = 0;
    while i < ids.len()
        invariant
            i <= ids@.len(),
            forall|k: int| 0 <= k < i ==> ids@[k] != id,
        decreases ids@.len() - i,
    {
        if ids[i] == id {
            return true;
        }
        i += 1;
    }
    false
}

impl Tab {
    /// The place of a pane in the tab.
    pub fn pane_place(&self, pane_id: PaneId) -> (place: Option<usize>)
        requires
            tab_pane_ids(self@.panes).no_duplicates(),
        ensures
            match place {
                Some(i) => i < self.panes@.len() && self.panes@[i as int].pane_id == pane_id
                    && tab_pane_ids(self@.panes).contains(pane_id) && i == tab_pane_ids(
                    self@.panes,
                ).index_of(pane_id),
                None => !tab_pane_ids(self@.panes).contains(pane_id),
            },
    {
        let ghost ids = tab_pane_ids(self@.panes);
        let mut i: usize = 0;
        while i < self.panes.len()
            invariant
                i <= self.panes@.len(),
                ids == tab_pane_ids(self@.panes),
                ids.no_duplicates(),
                forall|k: int| 0 <= k < i ==> ids[k] != pane_id,
            decreases self.panes@.len() - i,
        {
            assert(ids[i as int] == self.panes@[i as int].pane_id);
            if self.panes[i].pane_id == pane_id {
                assert(ids.contains(pane_id));
                assert(ids[ids.index_of(pane_id)] == pane_id);
                return Some(i);
            }
            i += 1;
        }
        None
    }
}

impl Mux {
    /// The window that contains a tab, if any.
    pub fn window_containing_tab(&self, tab_id: TabId) -> (window: Option<WindowId>)
        ensures
            window == window_holding_tab(self@.windows, tab_id),
    {
        let mut i: usize = self.windows.len();
        assert(self@.windows.take(i as int) =~= self@.windows);
        while i > 0
            invariant
                i <= self.windows@.len(),
                window_holding_tab(self@.windows, tab_id) == window_holding_tab(
                    self@.windows.take(i as int),
                    tab_id,
                ),
            decreases i,
        {
            i -= 1;
            assert(self@.windows.take(i + 1).drop_last() =~= self@.windows.take(i as int));
            assert(self@.windows.take(i + 1).last() == self.windows@[i as int]@);
            if lists(&self.windows[i].tabs, tab_id) {
                return Some(self.windows[i].window_id);
            }
        }
        None
    }

    /// Where a pane is: its domain, its window and its tab.
    pub fn resolve_pane_id(&self, pane_id: PaneId) -> (location: Option<
        (DomainId, WindowId, TabId),
    >)
        requires
            self.wf(),
        ensures
            location == pane_location(self@, pane_id),
    {
        let mut i: usize = self.tabs.len();
        assert(self@.tabs.take(i as int) =~= self@.tabs);
        while i > 0
            invariant
                i <= self.tabs@.len(),
                self.wf(),
                tab_holding_pane(self@.tabs, pane_id) == tab_holding_pane(
                    self@.tabs.take(i as int),
                    pane_id,
                ),
            decreases i,
        {
            i -= 1;
            assert(self@.tabs.take(i + 1).drop_last() =~= self@.tabs.take(i as int));
            assert(self@.tabs.take(i + 1).last() == self.tabs@[i as int]@);
            assert(self@.tabs[i as int] == self.tabs@[i as int]@);
            assert(tab_pane_ids(self@.tabs[i as int].panes).no_duplicates());
            if self.tabs[i].registered {
                match self.tabs[i].pane_place(pane_id) {
                    Some(place) => {
                        let tab_id = self.tabs[i].tab_id;
                        return match self.window_containing_tab(tab_id) {
                            Some(window_id) => Some(
                                (self.tabs[i].panes[place].domain_id, window_id, tab_id),
                            ),
                            None => None,
                        };
                    },
                    None => {},
                }
            }
        }
        None
    }

    /// Whether the state is well formed.
    pub open spec fn wf(&self) -> bool {
        self@.wf()
    }

    /// The place of a window among the windows.
    pub fn window_place(&self, window_id: WindowId) -> (place: Option<usize>)
        requires
            self.wf(),
        ensures
            match place {
                Some(i) => i < self.windows@.len() && self@.has_window(window_id) && i
                    == window_ids(self@.windows).index_of(window_id) && self.windows@[i as int]@
                    == self@.window(window_id) && self.windows@[i as int].window_id == window_id,
                None => !self@.has_window(window_id),
            },
    {
        let ghost ids = window_ids(self@.windows);
        let mut i: usize = 0;
        while i < self.windows.len()
            invariant
                i <= self.windows@.len(),
                self.wf(),
                ids == window_ids(self@.windows),
                forall|k: int| 0 <= k < i ==> ids[k] != window_id,
            decreases self.windows@.len() - i,
        {
            assert(ids[i as int] == self.windows@[i as int].window_id);
            if self.windows[i].window_id == window_id {
                assert(ids.contains(window_id));
                assert(ids[ids.index_of(window_id)] == window_id);
                return Some(i);
            }
            i += 1;
        }
        None
    }

    /// The place of a tab among the tabs, known or not.
    pub fn tab_place(&self, tab_id: TabId) -> (place: Option<usize>)
        requires
            tab_ids(self@.tabs).no_duplicates(),
        ensures
            match place {
                Some(i) => i < self.tabs@.len() && tab_ids(self@.tabs).contains(tab_id) && i
                    == tab_ids(self@.tabs).index_of(tab_id) && self.tabs@[i as int]@ == self@.tab(
                    tab_id,
                ) && self.tabs@[i as int].tab_id == tab_id,
                None => !tab_ids(self@.tabs).contains(tab_id),
            },
    {
        let ghost ids = tab_ids(self@.tabs);
        let mut i: usize = 0;
        while i < self.tabs.len()
            invariant
                i <= self.tabs@.len(),
                ids.no_duplicates(),
                ids == tab_ids(self@.tabs),
                forall|k: int| 0 <= k < i ==> ids[k] != tab_id,
            decreases self.tabs@.len() - i,
        {
            assert(ids[i as int] == self.tabs@[i as int].tab_id);
            if self.tabs[i].tab_id == tab_id {
                assert(ids.contains(tab_id));
                assert(ids[ids.index_of(tab_id)] == tab_id);
                return Some(i);
            }
            i += 1;
        }
        None
    }

    /// The place of a pane among the panes.
    pub fn pane_place(&self, pane_id: PaneId) -> (place: Option<usize>)
        requires
            pane_ids(self@.panes).no_duplicates(),
        ensures
            match place {
                Some(i) => i < self.panes@.len() && self@.has_pane(pane_id)
                    && self.panes@[i as int].pane_id == pane_id && i == pane_ids(
                    self@.panes,
                ).index_of(pane_id),
                None => !self@.has_pane(pane_id),
            },
    {
        let ghost ids = pane_ids(self@.panes);
        let mut i: usize = 0;
        while i < self.panes.len()
            invariant
                i <= self.panes@.len(),
                ids.no_duplicates(),
                ids == pane_ids(self@.panes),
                forall|k: int| 0 <= k < i ==> ids[k] != pane_id,
            decreases self.panes@.len() - i,
        {
            assert(ids[i as int] == self.panes@[i as int].pane_id);
            if self.panes[i].pane_id == pane_id {
                assert(ids.contains(pane_id));
                assert(ids[ids.index_of(pane_id)] == pane_id);
                return Some(i);
            }
            i += 1;
        }
        None
    }

    fn window_occupied(&self, at: usize) -> (occupied: bool)
        requires
            tab_ids(self@.tabs).no_duplicates(),
            at < self.windows@.len(),
        ensures
            occupied == window_holds_pane(self@.windows[at as int], self@.tabs),
    {
        let ghost window = self@.windows[at as int];
        let mut k: usize = 0;
        while k < self.windows[at].tabs.len()
            invariant
                at < self.windows@.len(),
                k <= window.tabs.len(),
                tab_ids(self@.tabs).no_duplicates(),
                window == self@.windows[at as int],
                window.tabs == self.windows@[at as int].tabs@,
                forall|j: int|
                    0 <= j < k ==> !(tab_ids(self@.tabs).contains(#[trigger] window.tabs[j])
                        && self@.tabs[tab_ids(self@.tabs).index_of(window.tabs[j])].panes.len()
                        > 0),
            decreases window.tabs.len() - k,
        {
            match self.tab_place(self.windows[at].tabs[k]) {
                Some(place) => {
                    assert(self@.tabs[place as int] == self.tabs@[place as int]@);
                    if self.tabs[place].panes.len() > 0 {
                        assert(tab_ids(self@.tabs).contains(window.tabs[k as int]));
                        return true;
                    }
                },
                None => {},
            }
            k += 1;
        }
        false
    }

    /// Counts the occupied workspaces anew.
    pub fn recompute_pane_count(&mut self)
        requires
            old(self).wf(),
        ensures
            final(self)@ == recounted(old(self)@),
            final(self).wf(),
    {
        let mut occupied = TextSet::new();
        let mut i: usize = 0;
        while i < self.windows.len()
            invariant
                self.wf(),
                i <= self.windows@.len(),
                forall|workspace: Seq<char>| #[trigger]
                    occupied@.contains(workspace) <==> exists|j: int|
                        0 <= j < i && (#[trigger] self@.windows[j]).workspace == workspace
                            && window_holds_pane(self@.windows[j], self@.tabs),
            decreases self.windows@.len() - i,
        {
            let ghost before = occupied@;
            assert(self@.windows[i as int] == self.windows@[i as int]@);
            if self.window_occupied(i) {
                let added = occupied.insert(self.windows[i].workspace.clone());
            }
            assert forall|workspace: Seq<char>| #[trigger]
                occupied@.contains(workspace) <==> exists|j: int|
                    0 <= j < i + 1 && (#[trigger] self@.windows[j]).workspace == workspace
                        && window_holds_pane(self@.windows[j], self@.tabs) by {
                if before.contains(workspace) {
                    let j = choose|j: int|
                        0 <= j < i && (#[trigger] self@.windows[j]).workspace == workspace
                            && window_holds_pane(self@.windows[j], self@.tabs);
                    assert(0 <= j < i + 1 && self@.windows[j].workspace == workspace);
                }
                if exists|j: int|
                    0 <= j < i + 1 && (#[trigger] self@.windows[j]).workspace == workspace
                        && window_holds_pane(self@.windows[j], self@.tabs) {
                    let j = choose|j: int|
                        0 <= j < i + 1 && (#[trigger] self@.windows[j]).workspace == workspace
                            && window_holds_pane(self@.windows[j], self@.tabs);
                    if j < i {
                        assert(before.contains(workspace));
                    }
                }
            }
            i += 1;
        }
        self.occupied = occupied;
        assert(self@.occupied =~= occupied_workspaces(old(self)@.windows, old(self)@.tabs));
        assert(self@ =~= recounted(old(self)@));
    }

    /// Adds a waiting effect.
    pub fn push_effect(&mut self, effect: MuxEffect)
        ensures
            final(self)@ == with_effect(old(self)@, effect@),
            old(self).wf() ==> final(self).wf(),
    {
        self.effects.push(effect);
        assert(views(self.effects@) =~= views(old(self).effects@).push(effect@));
    }

    /// Adds a waiting notification.
    pub fn notify(&mut self, notification: MuxNotification)
        ensures
            final(self)@ == notified(old(self)@, notification@),
            old(self).wf() ==> final(self).wf(),
    {
        self.push_effect(MuxEffect::Notify(notification));
    }

    /// Removes one pane, if it is known.
    pub fn remove_pane_internal(&mut self, pane_id: PaneId)
        requires
            old(self).wf(),
        ensures
            final(self)@ == pane_removed(old(self)@, pane_id),
            final(self).wf(),
    {
        match self.pane_place(pane_id) {
            Some(place) => {
                let ghost before = self.panes@;
                let ghost keep = |p: Pane| p.pane_id != pane_id;
                proof {
                    let ids = pane_ids(before);
                    assert forall|i: int| 0 <= i < before.len() && i != place implies keep(
                        #[trigger] before[i],
                    ) by {
                        assert(ids[i] != ids[place as int]);
                    }
                    lemma_remove_is_filter(before, place as int, keep);
                }
                let removed = self.panes.remove(place);
                proof {
                    let ids = pane_ids(before);
                    assert(pane_ids(self.panes@) =~= ids.remove(place as int));
                    assert(pane_ids(self.panes@).no_duplicates());
                }
                self.push_effect(MuxEffect::KillPane(pane_id));
                self.notify(MuxNotification::PaneRemoved(pane_id));
                self.recompute_pane_count();
                assert(self@ =~= pane_removed(old(self)@, pane_id));
            },
            None => {},
        }
    }

    fn unlist_tab(&mut self, tab_id: TabId)
        requires
            forall|i: int|
                0 <= i < old(self)@.windows.len() ==> (
                #[trigger] old(self)@.windows[i]).tabs.no_duplicates(),
        ensures
            final(self)@ == (MuxView {
                windows: old(self)@.windows.map_values(
                    |w: WindowView| window_without_tab(w, tab_id),
                ),
                ..old(self)@
            }),
    {
        let mut i: usize = 0;
        while i < self.windows.len()
            invariant
                i <= self.windows@.len(),
                self.windows@.len() == old(self).windows@.len(),
                self@ == (MuxView { windows: self@.windows, ..old(self)@ }),
                forall|k: int|
                    0 <= k < old(self)@.windows.len() ==> (
                    #[trigger] old(self)@.windows[k]).tabs.no_duplicates(),
                forall|k: int|
                    0 <= k < i ==> (#[trigger] self@.windows[k]) == window_without_tab(
                        old(self)@.windows[k],
                        tab_id,
                    ),
                forall|k: int|
                    i <= k < self.windows@.len() ==> (#[trigger] self@.windows[k])
                        == old(self)@.windows[k],
            decreases self.windows@.len() - i,
        {
            let ghost before = self@;
            assert(self@.windows[i as int] == self.windows@[i as int]@);
            assert(old(self)@.windows[i as int].tabs.no_duplicates());
            self.windows[i].remove_by_id(tab_id);
            assert forall|k: int| 0 <= k < self.windows@.len() && k != i implies (
            #[trigger] self@.windows[k]) == before.windows[k] by {}
            assert(self@.windows[i as int] == window_without_tab(
                old(self)@.windows[i as int],
                tab_id,
            ));
            i += 1;
        }
        assert(self@.windows =~= old(self)@.windows.map_values(
            |w: WindowView| window_without_tab(w, tab_id),
        ));
    }

    fn remove_panes_of(&mut self, panes: &Vec<TabPane>)
        requires
            old(self).wf(),
        ensures
            final(self)@ == panes_removed(old(self)@, tab_pane_ids(panes@)),
            final(self).wf(),
    {
        let ghost ids = tab_pane_ids(panes@);
        let mut i: usize = 0;
        assert(ids.take(0) =~= Seq::empty());
        while i < panes.len()
            invariant
                i <= panes@.len(),
                ids == tab_pane_ids(panes@),
                self.wf(),
                self@ == panes_removed(old(self)@, ids.take(i as int)),
            decreases panes@.len() - i,
        {
            assert(ids.take(i + 1).drop_last() =~= ids.take(i as int));
            assert(ids.take(i + 1).last() == panes@[i as int].pane_id);
            self.remove_pane_internal(panes[i].pane_id);
            i += 1;
        }
        assert(ids.take(i as int) =~= ids);
    }

    /// Removes one tab with its panes, if it is known.
    pub fn remove_tab_internal(&mut self, tab_id: TabId) -> (removed: Option<Tab>)
        requires
            old(self).wf(),
        ensures
            final(self)@ == tab_removed(old(self)@, tab_id),
            final(self).wf(),
            match removed {
                Some(tab) => old(self)@.has_tab(tab_id) && tab@ == old(self)@.tab(tab_id),
                None => !old(self)@.has_tab(tab_id),
            },
    {
        let place = match self.tab_place(tab_id) {
            Some(place) => place,
            None => {
                return None;
            },
        };
        if !self.tabs[place].registered {
            return None;
        }
        let ghost before = self@;
        let ghost keep = |t: TabView| t.tab_id != tab_id;
        let tab = self.tabs.remove(place);
        proof {
            let ids = tab_ids(before.tabs);
            assert forall|i: int| 0 <= i < before.tabs.len() && i != place implies keep(
                #[trigger] before.tabs[i],
            ) by {
                assert(ids[i] != ids[place as int]);
            }
            lemma_remove_is_filter(before.tabs, place as int, keep);
            assert(self@.tabs =~= before.tabs.remove(place as int));
        }
        self.unlist_tab(tab_id);
        proof {
            lemma_tab_unlisted_wf(before, tab_id, self@);
            assert(self@ =~= (MuxView {
                tabs: before.tabs.filter(|t: TabView| t.tab_id != tab_id),
                windows: before.windows.map_values(|w: WindowView| window_without_tab(w, tab_id)),
                ..before
            }));
        }
        self.remove_panes_of(&tab.panes);
        self.recompute_pane_count();
        Some(tab)
    }

    fn remove_tabs(&mut self, ids: &Vec<TabId>)
        requires
            old(self).wf(),
        ensures
            final(self)@ == tabs_removed(old(self)@, ids@),
            final(self).wf(),
    {
        let mut i: usize = 0;
        assert(ids@.take(0) =~= Seq::empty());
        while i < ids.len()
            invariant
                i <= ids@.len(),
                self.wf(),
                self@ == tabs_removed(old(self)@, ids@.take(i as int)),
            decreases ids@.len() - i,
        {
            assert(ids@.take(i + 1).drop_last() =~= ids@.take(i as int));
            let removed = self.remove_tab_internal(ids[i]);
            i += 1;
        }
        assert(ids@.take(i as int) =~= ids@);
    }

    /// Removes exactly one window and its descendants, and detaches no domain.
    pub fn remove_window_internal_for_recovery(&mut self, window_id: WindowId)
        requires
            old(self).wf(),
        ensures
            final(self)@ == window_removed(old(self)@, window_id),
            final(self).wf(),
    {
        let ghost before = self@;
        match self.window_place(window_id) {
            Some(place) => {
                let ghost keep = |w: WindowView| w.window_id != window_id;
                let window = self.windows.remove(place);
                proof {
                    let ids = window_ids(before.windows);
                    assert forall|i: int| 0 <= i < before.windows.len() && i != place implies keep(
                        #[trigger] before.windows[i],
                    ) by {
                        assert(ids[i] != ids[place as int]);
                    }
                    lemma_remove_is_filter(before.windows, place as int, keep);
                    assert(self@.windows =~= before.windows.remove(place as int));
                    lemma_window_unlisted_wf(before, place as int);
                    assert(self@ =~= (MuxView {
                        windows: before.windows.remove(place as int),
                        ..before
                    }));
                }
                self.remove_tabs(&window.tabs);
                self.notify(MuxNotification::WindowRemoved(window_id));
            },
            None => {},
        }
        self.recompute_pane_count();
    }
}

/// Taking a tab out of every row leaves the state well formed.
pub proof fn lemma_tab_unlisted_wf(before: MuxView, tab_id: TabId, after: MuxView)
    requires
        before.wf(),
        tab_ids(before.tabs).contains(tab_id),
        after == (MuxView {
            tabs: before.tabs.remove(tab_ids(before.tabs).index_of(tab_id)),
            windows: before.windows.map_values(|w: WindowView| window_without_tab(w, tab_id)),
            ..before
        }),
    ensures
        after.wf(),
{
    let place = tab_ids(before.tabs).index_of(tab_id);
    let ids = tab_ids(before.tabs);
    assert(tab_ids(after.tabs) =~= ids.remove(place));
    assert(window_ids(after.windows) =~= window_ids(before.windows));
    assert forall|i: int| 0 <= i < after.windows.len() implies (
    #[trigger] after.windows[i]).tabs.no_duplicates() by {
        lemma_filter_members(before.windows[i].tabs, is_not(tab_id));
        assert(before.windows[i].tabs.no_duplicates());
    }
    assert forall|i: int| 0 <= i < after.tabs.len() implies tab_pane_ids(
        (#[trigger] after.tabs[i]).panes,
    ).no_duplicates() by {
        if i < place {
            assert(after.tabs[i] == before.tabs[i]);
        } else {
            assert(after.tabs[i] == before.tabs[i + 1]);
        }
    }
    assert forall|i: int, k: int|
        0 <= i < after.windows.len() && 0 <= k < after.windows[i].tabs.len() implies tab_ids(
        after.tabs,
    ).contains(#[trigger] after.windows[i].tabs[k]) by {
        let old_tabs = before.windows[i].tabs;
        let x = after.windows[i].tabs[k];
        lemma_filter_members(old_tabs, is_not(tab_id));
        assert(after.windows[i].tabs == without(old_tabs, tab_id));
        assert(after.windows[i].tabs.contains(x));
        assert(old_tabs.contains(x) && x != tab_id);
        let j = choose|j: int| 0 <= j < old_tabs.len() && old_tabs[j] == x;
        assert(ids.contains(before.windows[i].tabs[j]));
        let at = choose|at: int| 0 <= at < ids.len() && ids[at] == x;
        if at < place {
            assert(ids.remove(place)[at] == x);
        } else {
            assert(ids.remove(place)[at - 1] == x);
        }
    }
}

/// Taking a window out leaves the state well formed.
pub proof fn lemma_window_unlisted_wf(before: MuxView, place: int)
    requires
        before.wf(),
        0 <= place < before.windows.len(),
    ensures
        (MuxView { windows: before.windows.remove(place), ..before }).wf(),
{
    let after = MuxView { windows: before.windows.remove(place), ..before };
    assert(window_ids(after.windows) =~= window_ids(before.windows).remove(place));
    assert forall|i: int| 0 <= i < after.windows.len() implies (
    #[trigger] after.windows[i]).tabs.no_duplicates() by {
        if i < place {
            assert(after.windows[i] == before.windows[i]);
        } else {
            assert(after.windows[i] == before.windows[i + 1]);
        }
    }
    assert forall|i: int, k: int|
        0 <= i < after.windows.len() && 0 <= k < after.windows[i].tabs.len() implies tab_ids(
        after.tabs,
    ).contains(#[trigger] after.windows[i].tabs[k]) by {
        if i < place {
            assert(after.windows[i] == before.windows[i]);
            assert(tab_ids(before.tabs).contains(before.windows[i].tabs[k]));
        } else {
            assert(after.windows[i] == before.windows[i + 1]);
            assert(tab_ids(before.tabs).contains(before.windows[i + 1].tabs[k]));
        }
    }
}

} // verus!
