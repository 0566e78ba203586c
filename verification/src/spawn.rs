//! Closing windows, listing workspaces, moving the focus, and the decisions
//! around spawning, splitting and moving panes.

use crate::domains::domain_with_id;
use crate::mux::{
    lemma_remove_is_filter, lemma_window_unlisted_wf, notified, recounted, tabs_removed, Mux,
};
use crate::mux_model::{
    tab_ids, views, window_ids, DomainId, MuxNotification, MuxView, NotificationView, TabId,
    WindowId, WindowView,
};
use crate::order::{lemma_text_before_total, lemma_text_before_transitive, text_before, text_less};
use crate::prune::pruned;
use crate::recovery::ascends;
use crate::text::same_text;
use vstd::prelude::*;

verus! {

/// A window that was taken out, with what is still to be done about it.
#[derive(Debug)]
pub struct ClosingWindow {
    pub window_id: WindowId,
    pub tabs: Vec<TabId>,
    pub detach: Vec<DomainId>,
}

/// Whether some pane in a window's tabs is in a domain.
pub open spec fn window_uses_domain(m: MuxView, window: WindowView, domain_id: DomainId) -> bool {
    exists|k: int, j: int|
        0 <= k < window.tabs.len() && 0 <= j < m.tab(window.tabs[k]).panes.len() && (
        #[trigger] m.tab(window.tabs[k]).panes[j]).domain_id == domain_id
}

/// Whether a domain is known and can be detached.
pub open spec fn is_detachable(m: MuxView, domain_id: DomainId) -> bool {
    match domain_with_id(m.domains, domain_id) {
        Some(domain) => domain.detachable,
        None => false,
    }
}

/// The state with a window taken out.
pub open spec fn window_taken(m: MuxView, window_id: WindowId) -> MuxView {
    MuxView { windows: m.windows.filter(|w: WindowView| w.window_id != window_id), ..m }
}

fn listed(ids: &Vec<usize>, id: usize) -> (found: bool)
    ensures
        found == ids@.contains(id),
{
    let mut i: usize = 0;
    while i < ids.len()
        invariant
            i <= ids@.len(),
            forall|k: int| 0 <= k < i ==> ids@[k] != id,
        decreases ids@.len() - i,
    {
        if ids[i] == id {
            return true;
        }
        i += 1;
    }
    false
}

impl Mux {
    fn detachable_domain(&self, domain_id: DomainId) -> (detachable: bool)
        ensures
            detachable == is_detachable(self@, domain_id),
    {
        match self.get_domain(domain_id) {
            Some(domain) => domain.detachable,
            None => false,
        }
    }

    fn push_detachable(&self, at: usize, ids: &mut Vec<DomainId>)
        requires
            self.wf(),
            at < self.tabs@.len(),
            old(ids)@.no_duplicates(),
        ensures
            final(ids)@.no_duplicates(),
            forall|id: DomainId| #[trigger]
                final(ids)@.contains(id) <==> old(ids)@.contains(id) || (is_detachable(self@, id)
                    && exists|j: int|
                    0 <= j < self@.tabs[at as int].panes.len() && (
                    #[trigger] self@.tabs[at as int].panes[j]).domain_id == id),
    {
        let ghost start = ids@;
        let ghost panes = self@.tabs[at as int].panes;
        let mut j: usize = 0;
        while j < self.tabs[at].panes.len()
            invariant
                self.wf(),
                at < self.tabs@.len(),
                panes == self@.tabs[at as int].panes,
                panes == self.tabs@[at as int].panes@,
                j <= panes.len(),
                ids@.no_duplicates(),
                forall|id: DomainId| #[trigger]
                    ids@.contains(id) <==> start.contains(id) || (is_detachable(self@, id)
                        && exists|k: int| 0 <= k < j && (#[trigger] panes[k]).domain_id == id),
            decreases panes.len() - j,
        {
            let domain_id = self.tabs[at].panes[j].domain_id;
            let ghost earlier = ids@;
            if !listed(ids, domain_id) && self.detachable_domain(domain_id) {
                ids.push(domain_id);
            }
            assert forall|id: DomainId| #[trigger]
                ids@.contains(id) <==> start.contains(id) || (is_detachable(self@, id) && exists|
                    k: int,
                |
                    0 <= k < j + 1 && (#[trigger] panes[k]).domain_id == id) by {
                if earlier.contains(id) {
                    let w = choose|w: int| 0 <= w < earlier.len() && earlier[w] == id;
                    assert(ids@[w] == id);
                    if !start.contains(id) {
                        let k = choose|k: int|
                            0 <= k < j && (#[trigger] panes[k]).domain_id == id;
                        assert(0 <= k < j + 1 && panes[k].domain_id == id);
                    }
                }
                if ids@.contains(id) && !earlier.contains(id) {
                    let w = choose|w: int| 0 <= w < ids@.len() && ids@[w] == id;
                    assert(w == earlier.len()) by {
                        if w < earlier.len() {
                            assert(earlier[w] == id);
                        }
                    }
                    assert(panes[j as int].domain_id == id);
                }
                if is_detachable(self@, id) && exists|k: int|
                    0 <= k < j + 1 && (#[trigger] panes[k]).domain_id == id {
                    let k = choose|k: int| 0 <= k < j + 1 && (#[trigger] panes[k]).domain_id == id;
                    if k < j {
                        assert(earlier.contains(id));
                    } else {
                        if !earlier.contains(id) {
                            assert(ids@[earlier.len() as int] == id);
                        }
                    }
                }
            }
            j += 1;
        }
    }

    fn domains_to_detach(&self, place: usize) -> (ids: Vec<DomainId>)
        requires
            self.wf(),
            place < self.windows@.len(),
        ensures
            ids@.no_duplicates(),
            forall|id: DomainId| #[trigger]
                ids@.contains(id) <==> is_detachable(self@, id) && window_uses_domain(
                    self@,
                    self@.windows[place as int],
                    id,
                ),
    {
        let ghost window = self@.windows[place as int];
        let mut ids: Vec<DomainId> = Vec::new();
        let mut k: usize = 0;
        while k < self.windows[place].tabs.len()
            invariant
                self.wf(),
                place < self.windows@.len(),
                window == self@.windows[place as int],
                window.tabs == self.windows@[place as int].tabs@,
                k <= window.tabs.len(),
                ids@.no_duplicates(),
                forall|id: DomainId| #[trigger]
                    ids@.contains(id) <==> is_detachable(self@, id) && exists|m: int, j: int|
                        0 <= m < k && 0 <= j < self@.tab(window.tabs[m]).panes.len() && (
                        #[trigger] self@.tab(window.tabs[m]).panes[j]).domain_id == id,
            decreases window.tabs.len() - k,
        {
            let tab_id = self.windows[place].tabs[k];
            let ghost earlier = ids@;
            assert(tab_ids(self@.tabs).contains(self@.windows[place as int].tabs[k as int]));
            match self.tab_place(tab_id) {
                Some(at) => {
                    assert(self@.tabs[at as int] == self@.tab(tab_id));
                    self.push_detachable(at, &mut ids);
                    assert forall|id: DomainId| #[trigger]
                        ids@.contains(id) <==> is_detachable(self@, id) && exists|m: int, j: int|
                            0 <= m < k + 1 && 0 <= j < self@.tab(window.tabs[m]).panes.len() && (
                            #[trigger] self@.tab(window.tabs[m]).panes[j]).domain_id == id by {
                        if earlier.contains(id) {
                            let (m, j) = choose|m: int, j: int|
                                0 <= m < k && 0 <= j < self@.tab(window.tabs[m]).panes.len() && (
                                #[trigger] self@.tab(window.tabs[m]).panes[j]).domain_id == id;
                            assert(0 <= m < k + 1 && self@.tab(window.tabs[m]).panes[j].domain_id
                                == id);
                        }
                        if is_detachable(self@, id) && exists|j: int|
                            0 <= j < self@.tabs[at as int].panes.len() && (
                            #[trigger] self@.tabs[at as int].panes[j]).domain_id == id {
                            let j = choose|j: int|
                                0 <= j < self@.tabs[at as int].panes.len() && (
                                #[trigger] self@.tabs[at as int].panes[j]).domain_id == id;
                            assert(self@.tab(window.tabs[k as int]).panes[j].domain_id == id);
                        }
                        if is_detachable(self@, id) && exists|m: int, j: int|
                            0 <= m < k + 1 && 0 <= j < self@.tab(window.tabs[m]).panes.len() && (
                            #[trigger] self@.tab(window.tabs[m]).panes[j]).domain_id == id {
                            let (m, j) = choose|m: int, j: int|
                                0 <= m < k + 1 && 0 <= j < self@.tab(window.tabs[m]).panes.len()
                                    && (
                                #[trigger] self@.tab(window.tabs[m]).panes[j]).domain_id == id;
                            if m < k {
                                assert(earlier.contains(id));
                            } else {
                                assert(self@.tabs[at as int].panes[j].domain_id == id);
                            }
                        }
                    }
                },
                None => {},
            }
            k += 1;
        }
        ids
    }

    /// Takes a window out, and says which of its domains have to be detached
    /// before the rest is done. Without such a window, only the occupied
    /// workspaces are counted anew.
    pub fn begin_remove_window(&mut self, window_id: WindowId) -> (closing: Option<ClosingWindow>)
        requires
            old(self).wf(),
        ensures
            final(self).wf(),
            match closing {
                Some(closing) => {
                    &&& old(self)@.has_window(window_id)
                    &&& final(self)@ == window_taken(old(self)@, window_id)
                    &&& closing.window_id == window_id
                    &&& closing.tabs@ == old(self)@.window(window_id).tabs
                    &&& closing.detach@.no_duplicates()
                    &&& forall|id: DomainId| #[trigger]
                        closing.detach@.contains(id) <==> is_detachable(old(self)@, id)
                            && window_uses_domain(old(self)@, old(self)@.window(window_id), id)
                },
                None => !old(self)@.has_window(window_id) && final(self)@ == recounted(
                    old(self)@,
                ),
            },
    {
        let ghost before = self@;
        match self.window_place(window_id) {
            Some(place) => {
                let detach = self.domains_to_detach(place);
                let window = self.windows.remove(place);
                proof {
                    let keep = |w: WindowView| w.window_id != window_id;
                    let ids = window_ids(before.windows);
                    assert forall|i: int| 0 <= i < before.windows.len() && i != place implies keep(
                        #[trigger] before.windows[i],
                    ) by {
                        assert(ids[i] != ids[place as int]);
                    }
                    lemma_remove_is_filter(before.windows, place as int, keep);
                    assert(self@.windows =~= before.windows.remove(place as int));
                    lemma_window_unlisted_wf(before, place as int);
                }
                Some(ClosingWindow { window_id, tabs: window.tabs, detach })
            },
            None => {
                self.recompute_pane_count();
                None
            },
        }
    }

    /// Finishes the removal of a window that was taken out: its tabs are
    /// removed, and subscribers are told.
    pub fn finish_remove_window(&mut self, closing: &ClosingWindow)
        requires
            old(self).wf(),
        ensures
            final(self).wf(),
            final(self)@ == recounted(
                notified(
                    tabs_removed(old(self)@, closing.tabs@),
                    NotificationView::WindowRemoved(closing.window_id),
                ),
            ),
    {
        let mut i: usize = 0;
        assert(closing.tabs@.take(0) =~= Seq::empty());
        while i < closing.tabs.len()
            invariant
                i <= closing.tabs@.len(),
                self.wf(),
                self@ == tabs_removed(old(self)@, closing.tabs@.take(i as int)),
            decreases closing.tabs@.len() - i,
        {
            assert(closing.tabs@.take(i + 1).drop_last() =~= closing.tabs@.take(i as int));
            let removed = self.remove_tab_internal(closing.tabs[i]);
            i += 1;
        }
        assert(closing.tabs@.take(i as int) =~= closing.tabs@);
        self.notify(MuxNotification::WindowRemoved(closing.window_id));
        self.recompute_pane_count();
    }

    /// Kills the window whose removal was begun, once its domains were
    /// detached, and prunes what is dead. Without such a window, it only prunes.
    pub fn kill_window(&mut self, closing: Option<ClosingWindow>)
        requires
            old(self).wf(),
        ensures
            final(self).wf(),
            final(self)@ == pruned(
                match closing {
                    Some(closing) => recounted(
                        notified(
                            tabs_removed(old(self)@, closing.tabs@),
                            NotificationView::WindowRemoved(closing.window_id),
                        ),
                    ),
                    None => old(self)@,
                },
            ),
    {
        match &closing {
            Some(closing) => self.finish_remove_window(closing),
            None => {},
        }
        self.prune_dead_windows();
    }
}

/// Whether a row of texts ascends strictly in byte order.
pub open spec fn names_ascend(names: Seq<Seq<char>>) -> bool {
    forall|i: int, j: int|
        0 <= i < j < names.len() ==> text_before(#[trigger] names[i], #[trigger] names[j])
}

fn insert_name(names: &mut Vec<String>, name: &str)
    requires
        names_ascend(views(old(names)@)),
    ensures
        names_ascend(views(final(names)@)),
        forall|x: Seq<char>| #[trigger]
            views(final(names)@).contains(x) <==> views(old(names)@).contains(x) || x == name@,
{
    let ghost before = views(names@);
    let mut at: usize = 0;
    while at < names.len() && text_less(names[at].as_str(), name)
        invariant
            views(names@) == before,
            at <= names@.len(),
            forall|k: int| 0 <= k < at ==> text_before(#[trigger] before[k], name@),
        ensures
            views(names@) == before,
            at <= names@.len(),
            forall|k: int| 0 <= k < at ==> text_before(#[trigger] before[k], name@),
            at < names@.len() ==> !text_before(before[at as int], name@),
        decreases names@.len() - at,
    {
        assert(before[at as int] == names@[at as int]@);
        at += 1;
    }
    if at < names.len() && same_text(names[at].as_str(), name) {
        assert(before[at as int] == name@);
        assert(before.contains(name@));
        return;
    }
    let ghost whole = names@;
    names.insert(at, name.to_owned());
    proof {
        let after = views(names@);
        assert(after =~= before.insert(at as int, name@));
        assert forall|i: int, j: int| 0 <= i < j < after.len() implies text_before(
            #[trigger] after[i],
            #[trigger] after[j],
        ) by {
            if at < before.len() {
                lemma_text_before_total(before[at as int], name@);
                assert(before[at as int] == whole[at as int]@);
            }
            if i < at && j < at {
                assert(after[i] == before[i] && after[j] == before[j]);
            } else if i < at && j == at {
                assert(after[i] == before[i]);
            } else if i < at {
                assert(after[i] == before[i] && after[j] == before[j - 1]);
            } else if i == at {
                assert(after[j] == before[j - 1]);
                if j - 1 > at {
                    assert(text_before(before[at as int], before[j - 1]));
                    lemma_text_before_transitive(name@, before[at as int], before[j - 1]);
                }
            } else {
                assert(after[i] == before[i - 1] && after[j] == before[j - 1]);
            }
        }
        assert forall|x: Seq<char>| #[trigger] after.contains(x) <==> before.contains(x) || x
            == name@ by {
            if before.contains(x) {
                let k = choose|k: int| 0 <= k < before.len() && before[k] == x;
                if k < at {
                    assert(after[k] == x);
                } else {
                    assert(after[k + 1] == x);
                }
            }
            if x == name@ {
                assert(after[at as int] == x);
            }
            if after.contains(x) {
                let k = choose|k: int| 0 <= k < after.len() && after[k] == x;
                if k < at {
                    assert(before[k] == x);
                } else if k > at {
                    assert(before[k - 1] == x);
                }
            }
        }
    }
}

/// Whether some window is in a workspace.
pub open spec fn is_workspace(m: MuxView, workspace: Seq<char>) -> bool {
    exists|i: int| 0 <= i < m.windows.len() && (#[trigger] m.windows[i]).workspace == workspace
}

/// Whether a text is spelled as a word of the name generator: lower-case letters,
/// and hyphens between them.
pub open spec fn is_word(text: Seq<char>) -> bool {
    &&& text.len() > 0
    &&& text[0] != '-'
    &&& text.last() != '-'
    &&& forall|i: int| 0 <= i < text.len() ==> 'a' <= #[trigger] text[i] <= 'z' || text[i] == '-'
}

/// Whether a text is spelled as a drawn name: an adjective and a noun, joined with
/// a hyphen.
pub open spec fn is_drawn_name(text: Seq<char>) -> bool {
    exists|adjective: Seq<char>, noun: Seq<char>|
        #[trigger] is_word(adjective) && #[trigger] is_word(noun) && text == adjective.push('-')
            + noun
}

/// Draws a name with `names::Generator::default`, whose `next` joins a random
/// adjective and a random noun with a hyphen. Every word of its two lists is
/// spelled with lower-case letters and hyphens between them. Which words are drawn
/// is left open.
#[verifier::external_body]
pub(crate) fn draw_name() -> (name: String)
    ensures
        is_drawn_name(name@),
{
    names::Generator::default().next().expect("the generator is endless")
}

/// Whether a drawn name is new among the used ones.
pub fn name_is_unused(used: &Vec<String>, candidate: &str) -> (unused: bool)
    ensures
        unused == !views(used@).contains(candidate@),
{
    let mut i: usize = 0;
    while i < used.len()
        invariant
            i <= used@.len(),
            forall|k: int| 0 <= k < i ==> (#[trigger] views(used@)[k]) != candidate@,
        decreases used@.len() - i,
    {
        if same_text(used[i].as_str(), candidate) {
            assert(views(used@)[i as int] == candidate@);
            return false;
        }
        assert(views(used@)[i as int] == used@[i as int]@);
        i += 1;
    }
    true
}

impl Mux {
    /// The workspaces that have a window, each once, in byte order.
    pub fn iter_workspaces(&self) -> (names: Vec<String>)
        ensures
            names_ascend(views(names@)),
            forall|x: Seq<char>| #[trigger] views(names@).contains(x) <==> is_workspace(self@, x),
    {
        let mut names: Vec<String> = Vec::new();
        let mut i: usize = 0;
        while i < self.windows.len()
            invariant
                i <= self.windows@.len(),
                names_ascend(views(names@)),
                forall|x: Seq<char>| #[trigger]
                    views(names@).contains(x) <==> exists|k: int|
                        0 <= k < i && (#[trigger] self@.windows[k]).workspace == x,
            decreases self.windows@.len() - i,
        {
            let ghost earlier = views(names@);
            assert(self@.windows[i as int] == self.windows@[i as int]@);
            insert_name(&mut names, self.windows[i].workspace.as_str());
            assert forall|x: Seq<char>| #[trigger] views(names@).contains(x) <==> exists|k: int|
                0 <= k < i + 1 && (#[trigger] self@.windows[k]).workspace == x by {
                if earlier.contains(x) {
                    let k = choose|k: int|
                        0 <= k < i && (#[trigger] self@.windows[k]).workspace == x;
                    assert(0 <= k < i + 1 && self@.windows[k].workspace == x);
                }
                if exists|k: int| 0 <= k < i + 1 && (#[trigger] self@.windows[k]).workspace == x {
                    let k = choose|k: int|
                        0 <= k < i + 1 && (#[trigger] self@.windows[k]).workspace == x;
                    if k < i {
                        assert(earlier.contains(x));
                    }
                }
            }
            i += 1;
        }
        names
    }

    /// Draws names until one is no workspace yet. There is none only if as many
    /// draws as can be counted were all taken; so there is one wherever no workspace
    /// is spelled as a drawn name.
    pub fn generate_workspace_name(&self) -> (name: Option<String>)
        ensures
            match name {
                Some(name) => is_drawn_name(name@) && !is_workspace(self@, name@),
                None => exists|taken: Seq<char>| #[trigger]
                    is_workspace(self@, taken) && is_drawn_name(taken),
            },
    {
        let used = self.iter_workspaces();
        let mut left: usize = usize::MAX;
        while left > 0
            invariant
                forall|x: Seq<char>| #[trigger]
                    views(used@).contains(x) <==> is_workspace(self@, x),
                left < usize::MAX ==> exists|taken: Seq<char>| #[trigger]
                    is_workspace(self@, taken) && is_drawn_name(taken),
            decreases left,
        {
            let candidate = draw_name();
            if name_is_unused(&used, candidate.as_str()) {
                return Some(candidate);
            }
            assert(is_workspace(self@, candidate@) && is_drawn_name(candidate@));
            left -= 1;
        }
        None
    }

    /// The windows in a workspace, in ascending order.
    pub fn iter_windows_in_workspace(&self, workspace: &str) -> (ids: Vec<WindowId>)
        requires
            self.wf(),
        ensures
            ascends(ids@),
            forall|id: WindowId| #[trigger]
                ids@.contains(id) <==> self@.has_window(id) && self@.window(id).workspace
                    == workspace@,
    {
        let mut ids: Vec<WindowId> = Vec::new();
        let mut i: usize = 0;
        let ghost all = window_ids(self@.windows);
        while i < self.windows.len()
            invariant
                self.wf(),
                all == window_ids(self@.windows),
                i <= self.windows@.len(),
                ascends(ids@),
                forall|id: WindowId| #[trigger]
                    ids@.contains(id) <==> exists|k: int|
                        0 <= k < i && (#[trigger] self@.windows[k]).window_id == id
                            && self@.windows[k].workspace == workspace@,
            decreases self.windows@.len() - i,
        {
            let ghost earlier = ids@;
            assert(self@.windows[i as int] == self.windows@[i as int]@);
            assert(all[i as int] == self.windows@[i as int].window_id);
            if same_text(self.windows[i].workspace.as_str(), workspace) {
                let id = self.windows[i].window_id;
                assert(!earlier.contains(id)) by {
                    if earlier.contains(id) {
                        let k = choose|k: int|
                            0 <= k < i && (#[trigger] self@.windows[k]).window_id == id
                                && self@.windows[k].workspace == workspace@;
                        assert(all[k] == all[i as int]);
                    }
                }
                crate::recovery::insert_ascending(&mut ids, id);
            }
            assert forall|id: WindowId| #[trigger] ids@.contains(id) <==> exists|k: int|
                0 <= k < i + 1 && (#[trigger] self@.windows[k]).window_id == id
                    && self@.windows[k].workspace == workspace@ by {
                if earlier.contains(id) {
                    let k = choose|k: int|
                        0 <= k < i && (#[trigger] self@.windows[k]).window_id == id
                            && self@.windows[k].workspace == workspace@;
                    assert(0 <= k < i + 1 && self@.windows[k].window_id == id);
                }
                if exists|k: int|
                    0 <= k < i + 1 && (#[trigger] self@.windows[k]).window_id == id
                        && self@.windows[k].workspace == workspace@ {
                    let k = choose|k: int|
                        0 <= k < i + 1 && (#[trigger] self@.windows[k]).window_id == id
                            && self@.windows[k].workspace == workspace@;
                    if k < i {
                        assert(earlier.contains(id));
                    }
                }
            }
            i += 1;
        }
        assert forall|id: WindowId| #[trigger] ids@.contains(id) <==> self@.has_window(id)
            && self@.window(id).workspace == workspace@ by {
            if ids@.contains(id) {
                let k = choose|k: int|
                    0 <= k < self.windows@.len() && (#[trigger] self@.windows[k]).window_id == id
                        && self@.windows[k].workspace == workspace@;
                assert(all[k] == id);
                assert(all[all.index_of(id)] == id);
            }
            if self@.has_window(id) && self@.window(id).workspace == workspace@ {
                let k = all.index_of(id);
                assert(all[k] == id);
                assert(self@.windows[k].window_id == id);
            }
        }
        ids
    }
}

/// A window that is taken out is gone, and nothing else is: its tabs and their
/// panes stay until the removal is finished.
pub proof fn law_taken_window_is_gone(m: MuxView, window_id: WindowId)
    ensures
        forall|w: WindowView| #[trigger]
            window_taken(m, window_id).windows.contains(w) <==> m.windows.contains(w)
                && w.window_id != window_id,
        window_taken(m, window_id).tabs == m.tabs,
        window_taken(m, window_id).panes == m.panes,
        window_taken(m, window_id).clients == m.clients,
        window_taken(m, window_id).effects == m.effects,
{
    crate::mux::lemma_filter_members(m.windows, |w: WindowView| w.window_id != window_id);
}

/// A domain is detachable only if there is one of its number that says so, and the
/// default answer is no.
pub proof fn law_unknown_domain_is_not_detachable(m: MuxView, domain_id: DomainId)
    ensures
        is_detachable(m, domain_id) ==> exists|i: int|
            0 <= i < m.domains.len() && (#[trigger] m.domains[i]).domain_id == domain_id
                && m.domains[i].detachable,
        (exists|i: int| 0 <= i < m.domains.len() && (#[trigger] m.domains[i]).domain_id == domain_id)
            && (forall|i: int|
            0 <= i < m.domains.len() && (#[trigger] m.domains[i]).domain_id == domain_id
                ==> m.domains[i].detachable) ==> is_detachable(m, domain_id),
{
    crate::domains::law_domain_is_found_by_its_number(m.domains, domain_id);
    if let Some(found) = domain_with_id(m.domains, domain_id) {
        let i = choose|i: int| 0 <= i < m.domains.len() && m.domains[i] == found;
        assert(m.domains[i].domain_id == domain_id);
    }
}

} // verus!
