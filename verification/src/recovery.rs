//! Removal of one exact native node, for crash reconciliation.

use crate::mux::{
    lemma_remove_is_filter, lemma_tab_holding_pane, lemma_window_holding_tab, pane_location,
    pane_removed, tab_removed, window_holding_tab, window_removed, Mux,
};
use crate::mux_model::{
    pane_ids, tab_ids, tab_pane_ids, window_ids, MuxView, Pane, PaneId, Tab, TabId, TabPane,
    TabView, Window, WindowId, WindowView,
};
use crate::text::{optional_string, same_text};
use vstd::prelude::*;

verus! {

/// The kind of a native node.
#[derive(Clone, Copy, Debug, PartialEq, Eq, Structural)]
pub enum RecoveryNodeKind {
    Pane,
    Tab,
    Window,
}

/// The exact node to remove, with the parents that it has to have.
#[derive(Clone, Debug, PartialEq, Eq)]
pub enum RecoveryRemoveTarget {
    Pane { pane_id: PaneId, parent_tab_id: TabId, parent_window_id: WindowId },
    Tab { tab_id: TabId, parent_window_id: WindowId },
    Window { window_id: WindowId, workspace: String },
}

/// The view of a [`RecoveryRemoveTarget`].
pub enum TargetView {
    Pane { pane_id: PaneId, parent_tab_id: TabId, parent_window_id: WindowId },
    Tab { tab_id: TabId, parent_window_id: WindowId },
    Window { window_id: WindowId, workspace: Seq<char> },
}

impl View for RecoveryRemoveTarget {
    type V = TargetView;

    open spec fn view(&self) -> TargetView {
        match *self {
            RecoveryRemoveTarget::Pane { pane_id, parent_tab_id, parent_window_id } =>
                TargetView::Pane { pane_id, parent_tab_id, parent_window_id },
            RecoveryRemoveTarget::Tab { tab_id, parent_window_id } => TargetView::Tab {
                tab_id,
                parent_window_id,
            },
            RecoveryRemoveTarget::Window { window_id, workspace } => TargetView::Window {
                window_id,
                workspace: workspace@,
            },
        }
    }
}

impl TargetView {
    /// The kind of the targeted node.
    pub open spec fn kind(self) -> RecoveryNodeKind {
        match self {
            TargetView::Pane { .. } => RecoveryNodeKind::Pane,
            TargetView::Tab { .. } => RecoveryNodeKind::Tab,
            TargetView::Window { .. } => RecoveryNodeKind::Window,
        }
    }

    /// The number of the targeted node.
    pub open spec fn native_id(self) -> usize {
        match self {
            TargetView::Pane { pane_id, .. } => pane_id,
            TargetView::Tab { tab_id, .. } => tab_id,
            TargetView::Window { window_id, .. } => window_id,
        }
    }
}

impl RecoveryRemoveTarget {
    /// The kind of the targeted node.
    pub fn kind(&self) -> (kind: RecoveryNodeKind)
        ensures
            kind == self@.kind(),
    {
        match self {
            RecoveryRemoveTarget::Pane { .. } => RecoveryNodeKind::Pane,
            RecoveryRemoveTarget::Tab { .. } => RecoveryNodeKind::Tab,
            RecoveryRemoveTarget::Window { .. } => RecoveryNodeKind::Window,
        }
    }

    /// The number of the targeted node.
    pub fn native_id(&self) -> (id: usize)
        ensures
            id == self@.native_id(),
    {
        match self {
            RecoveryRemoveTarget::Pane { pane_id, .. } => *pane_id,
            RecoveryRemoveTarget::Tab { tab_id, .. } => *tab_id,
            RecoveryRemoveTarget::Window { window_id, .. } => *window_id,
        }
    }
}

/// How a removal went.
#[derive(Clone, Copy, Debug, PartialEq, Eq, Structural)]
pub enum RecoveryRemoveStatus {
    Removed,
    NotFound,
    ParentMismatch,
    PostconditionFailed,
    Disabled,
}

/// The typed outcome of a removal.
#[derive(Clone, Debug, PartialEq, Eq)]
pub struct RecoveryRemoveOutcome {
    pub schema_version: u8,
    pub status: RecoveryRemoveStatus,
    pub kind: RecoveryNodeKind,
    pub requested_native_id: usize,
    pub actual_parent_tab_id: Option<TabId>,
    pub actual_parent_window_id: Option<WindowId>,
    pub actual_workspace: Option<String>,
    pub removed_pane_ids: Vec<PaneId>,
    pub removed_tab_ids: Vec<TabId>,
    pub removed_window_ids: Vec<WindowId>,
    pub postcondition_error: Option<String>,
}

/// The view of a [`RecoveryRemoveOutcome`].
#[verifier::ext_equal]
pub struct OutcomeView {
    pub schema_version: u8,
    pub status: RecoveryRemoveStatus,
    pub kind: RecoveryNodeKind,
    pub requested_native_id: usize,
    pub actual_parent_tab_id: Option<TabId>,
    pub actual_parent_window_id: Option<WindowId>,
    pub actual_workspace: Option<Seq<char>>,
    pub removed_pane_ids: Seq<PaneId>,
    pub removed_tab_ids: Seq<TabId>,
    pub removed_window_ids: Seq<WindowId>,
    pub postcondition_error: Option<Seq<char>>,
}

impl View for RecoveryRemoveOutcome {
    type V = OutcomeView;

    open spec fn view(&self) -> OutcomeView {
        OutcomeView {
            schema_version: self.schema_version,
            status: self.status,
            kind: self.kind,
            requested_native_id: self.requested_native_id,
            actual_parent_tab_id: self.actual_parent_tab_id,
            actual_parent_window_id: self.actual_parent_window_id,
            actual_workspace: optional_string(self.actual_workspace),
            removed_pane_ids: self.removed_pane_ids@,
            removed_tab_ids: self.removed_tab_ids@,
            removed_window_ids: self.removed_window_ids@,
            postcondition_error: optional_string(self.postcondition_error),
        }
    }
}

/// The outcome before anything is known: nothing removed, not yet proved.
pub open spec fn blank_outcome(kind: RecoveryNodeKind, requested_native_id: usize) -> OutcomeView {
    OutcomeView {
        schema_version: 1,
        status: RecoveryRemoveStatus::PostconditionFailed,
        kind,
        requested_native_id,
        actual_parent_tab_id: None,
        actual_parent_window_id: None,
        actual_workspace: None,
        removed_pane_ids: Seq::empty(),
        removed_tab_ids: Seq::empty(),
        removed_window_ids: Seq::empty(),
        postcondition_error: None,
    }
}

impl RecoveryRemoveOutcome {
    /// The outcome before anything is known.
    pub fn new(kind: RecoveryNodeKind, requested_native_id: usize) -> (outcome: Self)
        ensures
            outcome@ == blank_outcome(kind, requested_native_id),
    {
        RecoveryRemoveOutcome {
            schema_version: 1,
            status: RecoveryRemoveStatus::PostconditionFailed,
            kind,
            requested_native_id,
            actual_parent_tab_id: None,
            actual_parent_window_id: None,
            actual_workspace: None,
            removed_pane_ids: Vec::new(),
            removed_tab_ids: Vec::new(),
            removed_window_ids: Vec::new(),
            postcondition_error: None,
        }
    }
}

/// What is found where the target is looked for: a refusal, with the parents
/// that are there, or the parents and the nodes that have to go.
pub enum Finding {
    Refused {
        status: RecoveryRemoveStatus,
        tab_id: Option<TabId>,
        window_id: Option<WindowId>,
        workspace: Option<Seq<char>>,
    },
    Found {
        tab_id: Option<TabId>,
        window_id: Option<WindowId>,
        workspace: Option<Seq<char>>,
        panes: Set<PaneId>,
        tabs: Set<TabId>,
        windows: Set<WindowId>,
    },
}

/// The panes of the tabs of a window.
pub open spec fn panes_of_window(m: MuxView, window: WindowView) -> Set<PaneId> {
    Set::new(
        |id: PaneId|
            exists|k: int|
                0 <= k < window.tabs.len() && tab_pane_ids(
                    m.tab(#[trigger] window.tabs[k]).panes,
                ).contains(id),
    )
}

/// What is found where a target is looked for. An emptied tab goes with its
/// last pane, and an emptied window with its last tab.
pub open spec fn finding(m: MuxView, target: TargetView) -> Finding {
    match target {
        TargetView::Pane { pane_id, parent_tab_id, parent_window_id } => if !m.has_pane(pane_id) {
            Finding::Refused {
                status: RecoveryRemoveStatus::NotFound,
                tab_id: None,
                window_id: None,
                workspace: None,
            }
        } else {
            match pane_location(m, pane_id) {
                None => Finding::Refused {
                    status: RecoveryRemoveStatus::ParentMismatch,
                    tab_id: None,
                    window_id: None,
                    workspace: None,
                },
                Some((_, window_id, tab_id)) => if tab_id != parent_tab_id || window_id
                    != parent_window_id {
                    Finding::Refused {
                        status: RecoveryRemoveStatus::ParentMismatch,
                        tab_id: Some(tab_id),
                        window_id: Some(window_id),
                        workspace: None,
                    }
                } else {
                    let last_pane = m.tab(tab_id).panes.len() == 1;
                    let last_tab = m.window(window_id).tabs.len() == 1;
                    Finding::Found {
                        tab_id: Some(tab_id),
                        window_id: Some(window_id),
                        workspace: None,
                        panes: set![pane_id],
                        tabs: if last_pane {
                            set![tab_id]
                        } else {
                            Set::empty()
                        },
                        windows: if last_pane && last_tab {
                            set![window_id]
                        } else {
                            Set::empty()
                        },
                    }
                },
            }
        },
        TargetView::Tab { tab_id, parent_window_id } => if !m.has_tab(tab_id) {
            Finding::Refused {
                status: RecoveryRemoveStatus::NotFound,
                tab_id: None,
                window_id: None,
                workspace: None,
            }
        } else {
            match window_holding_tab(m.windows, tab_id) {
                None => Finding::Refused {
                    status: RecoveryRemoveStatus::ParentMismatch,
                    tab_id: None,
                    window_id: None,
                    workspace: None,
                },
                Some(window_id) => if window_id != parent_window_id {
                    Finding::Refused {
                        status: RecoveryRemoveStatus::ParentMismatch,
                        tab_id: None,
                        window_id: Some(window_id),
                        workspace: None,
                    }
                } else {
                    Finding::Found {
                        tab_id: None,
                        window_id: Some(window_id),
                        workspace: None,
                        panes: tab_pane_ids(m.tab(tab_id).panes).to_set(),
                        tabs: set![tab_id],
                        windows: if m.window(window_id).tabs.len() == 1 {
                            set![window_id]
                        } else {
                            Set::empty()
                        },
                    }
                },
            }
        },
        TargetView::Window { window_id, workspace } => if !m.has_window(window_id) {
            Finding::Refused {
                status: RecoveryRemoveStatus::NotFound,
                tab_id: None,
                window_id: None,
                workspace: None,
            }
        } else if m.window(window_id).workspace != workspace {
            Finding::Refused {
                status: RecoveryRemoveStatus::ParentMismatch,
                tab_id: None,
                window_id: None,
                workspace: Some(m.window(window_id).workspace),
            }
        } else {
            Finding::Found {
                tab_id: None,
                window_id: None,
                workspace: Some(m.window(window_id).workspace),
                panes: panes_of_window(m, m.window(window_id)),
                tabs: m.window(window_id).tabs.to_set(),
                windows: set![window_id],
            }
        },
    }
}

/// The focus of a tab after a pane has left it.
pub open spec fn focus_after(active: Option<PaneId>, rest: Seq<TabPane>, pane_id: PaneId) -> Option<
    PaneId,
> {
    if active != Some(pane_id) {
        active
    } else if rest.len() == 0 {
        None
    } else {
        Some(rest[0].pane_id)
    }
}

/// A tab without one pane.
pub open spec fn tab_without_pane(tab: TabView, pane_id: PaneId) -> TabView {
    let rest = tab.panes.filter(|p: TabPane| p.pane_id != pane_id);
    TabView { panes: rest, active_pane: focus_after(tab.active_pane, rest, pane_id), ..tab }
}

/// The state with a pane taken out of a tab, and still known.
pub open spec fn pane_taken(m: MuxView, tab_id: TabId, pane_id: PaneId) -> MuxView {
    MuxView {
        tabs: m.tabs.update(
            tab_ids(m.tabs).index_of(tab_id),
            tab_without_pane(m.tab(tab_id), pane_id),
        ),
        ..m
    }
}

/// The state after a removal.
pub open spec fn removal_state(m: MuxView, target: TargetView) -> MuxView {
    if finding(m, target) is Refused {
        m
    } else {
        match target {
            TargetView::Pane { pane_id, parent_tab_id, parent_window_id } => {
                let alone = pane_removed(pane_taken(m, parent_tab_id, pane_id), pane_id);
                if m.tab(parent_tab_id).panes.len() != 1 {
                    alone
                } else if m.window(parent_window_id).tabs.len() != 1 {
                    tab_removed(alone, parent_tab_id)
                } else {
                    window_removed(tab_removed(alone, parent_tab_id), parent_window_id)
                }
            },
            TargetView::Tab { tab_id, parent_window_id } => if m.window(
                parent_window_id,
            ).tabs.len() != 1 {
                tab_removed(m, tab_id)
            } else {
                window_removed(tab_removed(m, tab_id), parent_window_id)
            },
            TargetView::Window { window_id, .. } => window_removed(m, window_id),
        }
    }
}

/// Whether a row of numbers ascends strictly.
pub open spec fn ascends(ids: Seq<usize>) -> bool {
    forall|i: int, j: int| 0 <= i < j < ids.len() ==> ids[i] < ids[j]
}

/// Whether a row is, in ascending order, what is in one set and not in another.
pub open spec fn is_difference(ids: Seq<usize>, before: Set<usize>, after: Set<usize>) -> bool {
    ascends(ids) && forall|id: usize| #[trigger]
        ids.contains(id) <==> before.contains(id) && !after.contains(id)
}

/// The numbers of the known panes.
pub open spec fn known_panes(m: MuxView) -> Set<PaneId> {
    Set::new(|id: PaneId| m.has_pane(id))
}

/// The numbers of the known tabs.
pub open spec fn known_tabs(m: MuxView) -> Set<TabId> {
    Set::new(|id: TabId| m.has_tab(id))
}

/// The numbers of the windows.
pub open spec fn known_windows(m: MuxView) -> Set<WindowId> {
    Set::new(|id: WindowId| m.has_window(id))
}

/// Whether something that had to go is still there.
pub open spec fn still_present(found: Finding, after: MuxView) -> bool {
    ||| exists|id: usize| #[trigger] found->panes.contains(id) && known_panes(after).contains(id)
    ||| exists|id: usize| #[trigger] found->tabs.contains(id) && known_tabs(after).contains(id)
    ||| exists|id: usize| #[trigger]
        found->windows.contains(id) && known_windows(after).contains(id)
}

/// Whether something that had to stay is gone.
pub open spec fn neighbor_missing(before: MuxView, found: Finding, after: MuxView) -> bool {
    ||| exists|id: usize| #[trigger]
        known_panes(before).contains(id) && !found->panes.contains(id) && !known_panes(
            after,
        ).contains(id)
    ||| exists|id: usize| #[trigger]
        known_tabs(before).contains(id) && !found->tabs.contains(id) && !known_tabs(
            after,
        ).contains(id)
    ||| exists|id: usize| #[trigger]
        known_windows(before).contains(id) && !found->windows.contains(id) && !known_windows(
            after,
        ).contains(id)
}

/// How a truth value is written.
pub open spec fn bool_text(value: bool) -> Seq<char> {
    if value {
        "true"@
    } else {
        "false"@
    }
}

/// Whether an outcome is the one that is owed to a target, from the state
/// before and the state after.
pub open spec fn outcome_is(
    outcome: OutcomeView,
    before: MuxView,
    target: TargetView,
    after: MuxView,
) -> bool {
    let found = finding(before, target);
    let blank = blank_outcome(target.kind(), target.native_id());
    match found {
        Finding::Refused { status, tab_id, window_id, workspace } => outcome == (OutcomeView {
            status,
            actual_parent_tab_id: tab_id,
            actual_parent_window_id: window_id,
            actual_workspace: workspace,
            ..blank
        }),
        Finding::Found { tab_id, window_id, workspace, panes, tabs, windows } => {
            let present = still_present(found, after);
            let missing = neighbor_missing(before, found, after);
            &&& outcome == (OutcomeView {
                status: if present || missing {
                    RecoveryRemoveStatus::PostconditionFailed
                } else {
                    RecoveryRemoveStatus::Removed
                },
                actual_parent_tab_id: tab_id,
                actual_parent_window_id: window_id,
                actual_workspace: workspace,
                removed_pane_ids: outcome.removed_pane_ids,
                removed_tab_ids: outcome.removed_tab_ids,
                removed_window_ids: outcome.removed_window_ids,
                postcondition_error: if present || missing {
                    Some(
                        "target_still_present="@ + bool_text(present)
                            + " neighboring_node_missing="@ + bool_text(missing),
                    )
                } else {
                    None
                },
                ..blank
            })
            &&& is_difference(outcome.removed_pane_ids, known_panes(before), known_panes(after))
            &&& is_difference(outcome.removed_tab_ids, known_tabs(before), known_tabs(after))
            &&& is_difference(
                outcome.removed_window_ids,
                known_windows(before),
                known_windows(after),
            )
        },
    }
}

fn lists(ids: &Vec<usize>, id: usize) -> (found: bool)
    ensures
        found == ids@.contains(id),
{
    let mut i: usize = 0;
    while i < ids.len()
        invariant
            i <= ids@.len(),
            forall|k: int| 0 <= k < i ==> ids@[k] != id,
        decreases ids@.len() - i,
    {
        if ids[i] == id {
            return true;
        }
        i += 1;
    }
    false
}

/// Puts a number into an ascending row.
pub fn insert_ascending(ids: &mut Vec<usize>, id: usize)
    requires
        ascends(old(ids)@),
        !old(ids)@.contains(id),
    ensures
        ascends(final(ids)@),
        forall|x: usize| #[trigger]
            final(ids)@.contains(x) <==> old(ids)@.contains(x) || x == id,
{
    let ghost before = ids@;
    let mut at: usize = 0;
    while at < ids.len() && ids[at] < id
        invariant
            ids@ == before,
            at <= ids@.len(),
            forall|k: int| 0 <= k < at ==> ids@[k] < id,
        decreases ids@.len() - at,
    {
        at += 1;
    }
    ids.insert(at, id);
    proof {
        let after = ids@;
        assert forall|i: int, j: int| 0 <= i < j < after.len() implies after[i] < after[j] by {
            if at < before.len() {
                assert(before.contains(before[at as int]));
                assert(before[at as int] > id);
            }
            if j > at && j - 1 > at {
                assert(before[at as int] < before[j - 1]);
            }
        }
        assert forall|x: usize| #[trigger] after.contains(x) <==> before.contains(x) || x == id by {
            if before.contains(x) {
                let k = choose|k: int| 0 <= k < before.len() && before[k] == x;
                if k < at {
                    assert(after[k] == x);
                } else {
                    assert(after[k + 1] == x);
                }
            }
            if x == id {
                assert(after[at as int] == x);
            }
            if after.contains(x) {
                let k = choose|k: int| 0 <= k < after.len() && after[k] == x;
                if k < at {
                    assert(before[k] == x);
                } else if k > at {
                    assert(before[k - 1] == x);
                }
            }
        }
    }
}

/// What one row of numbers has and another has not, in ascending order.
fn difference(before: &Vec<usize>, after: &Vec<usize>) -> (ids: Vec<usize>)
    ensures
        ascends(ids@),
        forall|id: usize| #[trigger]
            ids@.contains(id) <==> before@.contains(id) && !after@.contains(id),
{
    let mut ids: Vec<usize> = Vec::new();
    let mut i: usize = 0;
    while i < before.len()
        invariant
            i <= before@.len(),
            ascends(ids@),
            forall|id: usize| #[trigger]
                ids@.contains(id) <==> before@.take(i as int).contains(id) && !after@.contains(id),
        decreases before@.len() - i,
    {
        let id: usize = before[i];
        let ghost seen = ids@;
        assert(before@.take(i + 1) =~= before@.take(i as int).push(id));
        if !lists(after, id) && !lists(&ids, id) {
            insert_ascending(&mut ids, id);
        }
        assert forall|x: usize| #[trigger]
            ids@.contains(x) <==> before@.take(i + 1).contains(x) && !after@.contains(x) by {
            let head = before@.take(i as int);
            if head.contains(x) {
                let k = choose|k: int| 0 <= k < head.len() && head[k] == x;
                assert(before@.take(i + 1)[k] == x);
            }
            if x == id {
                assert(before@.take(i + 1)[i as int] == x);
            }
            if before@.take(i + 1).contains(x) && x != id {
                let longer = before@.take(i + 1);
                let k = choose|k: int| 0 <= k < longer.len() && longer[k] == x;
                assert(head[k] == x);
            }
            assert(seen.contains(x) <==> head.contains(x) && !after@.contains(x));
        }
        i += 1;
    }
    assert(before@.take(i as int) =~= before@);
    ids
}

fn any_left(expected: &Vec<usize>, after: &Vec<usize>) -> (left: bool)
    ensures
        left == exists|id: usize| #[trigger] expected@.contains(id) && after@.contains(id),
{
    let mut i: usize = 0;
    while i < expected.len()
        invariant
            i <= expected@.len(),
            forall|k: int| 0 <= k < i ==> !after@.contains(#[trigger] expected@[k]),
        decreases expected@.len() - i,
    {
        if lists(after, expected[i]) {
            assert(expected@.contains(expected@[i as int]));
            return true;
        }
        i += 1;
    }
    assert forall|id: usize| !(#[trigger] expected@.contains(id) && after@.contains(id)) by {
        if expected@.contains(id) {
            let k = choose|k: int| 0 <= k < expected@.len() && expected@[k] == id;
            assert(!after@.contains(expected@[k]));
        }
    }
    false
}

fn any_lost(before: &Vec<usize>, expected: &Vec<usize>, after: &Vec<usize>) -> (lost: bool)
    ensures
        lost == exists|id: usize| #[trigger]
            before@.contains(id) && !expected@.contains(id) && !after@.contains(id),
{
    let mut i: usize = 0;
    while i < before.len()
        invariant
            i <= before@.len(),
            forall|k: int|
                0 <= k < i ==> expected@.contains(#[trigger] before@[k]) || after@.contains(
                    before@[k],
                ),
        decreases before@.len() - i,
    {
        if !lists(expected, before[i]) && !lists(after, before[i]) {
            assert(before@.contains(before@[i as int]));
            return true;
        }
        i += 1;
    }
    assert forall|id: usize|
        !(#[trigger] before@.contains(id) && !expected@.contains(id) && !after@.contains(id)) by {
        if before@.contains(id) {
            let k = choose|k: int| 0 <= k < before@.len() && before@[k] == id;
            assert(expected@.contains(before@[k]) || after@.contains(before@[k]));
        }
    }
    false
}

fn bool_word(value: bool) -> (text: &'static str)
    ensures
        text@ == bool_text(value),
{
    if value {
        "true"
    } else {
        "false"
    }
}

proof fn lemma_left_agrees(
    expected: Seq<usize>,
    expected_set: Set<usize>,
    after: Seq<usize>,
    after_set: Set<usize>,
)
    requires
        forall|id: usize| #[trigger] expected.contains(id) <==> expected_set.contains(id),
        forall|id: usize| #[trigger] after.contains(id) <==> after_set.contains(id),
    ensures
        (exists|id: usize| #[trigger] expected.contains(id) && after.contains(id)) <==> (exists|
            id: usize,
        | #[trigger] expected_set.contains(id) && after_set.contains(id)),
{
    if exists|id: usize| #[trigger] expected.contains(id) && after.contains(id) {
        let id = choose|id: usize| #[trigger] expected.contains(id) && after.contains(id);
        assert(expected_set.contains(id) && after_set.contains(id));
    }
    if exists|id: usize| #[trigger] expected_set.contains(id) && after_set.contains(id) {
        let id = choose|id: usize| #[trigger] expected_set.contains(id) && after_set.contains(id);
        assert(expected.contains(id) && after.contains(id));
    }
}

proof fn lemma_lost_agrees(
    before: Seq<usize>,
    before_set: Set<usize>,
    expected: Seq<usize>,
    expected_set: Set<usize>,
    after: Seq<usize>,
    after_set: Set<usize>,
)
    requires
        forall|id: usize| #[trigger] before.contains(id) <==> before_set.contains(id),
        forall|id: usize| #[trigger] expected.contains(id) <==> expected_set.contains(id),
        forall|id: usize| #[trigger] after.contains(id) <==> after_set.contains(id),
    ensures
        (exists|id: usize| #[trigger]
            before.contains(id) && !expected.contains(id) && !after.contains(id)) <==> (exists|
            id: usize,
        | #[trigger]
            before_set.contains(id) && !expected_set.contains(id) && !after_set.contains(id)),
{
    if exists|id: usize| #[trigger]
        before.contains(id) && !expected.contains(id) && !after.contains(id) {
        let id = choose|id: usize| #[trigger]
            before.contains(id) && !expected.contains(id) && !after.contains(id);
        assert(before_set.contains(id) && !expected_set.contains(id) && !after_set.contains(id));
    }
    if exists|id: usize| #[trigger]
        before_set.contains(id) && !expected_set.contains(id) && !after_set.contains(id) {
        let id = choose|id: usize| #[trigger]
            before_set.contains(id) && !expected_set.contains(id) && !after_set.contains(id);
        assert(before.contains(id) && !expected.contains(id) && !after.contains(id));
    }
}

/// The numbers of what is known at one moment.
struct Census {
    panes: Vec<PaneId>,
    tabs: Vec<TabId>,
    windows: Vec<WindowId>,
}

spec fn census_of(census: Census, m: MuxView) -> bool {
    &&& forall|id: usize| #[trigger] census.panes@.contains(id) <==> known_panes(m).contains(id)
    &&& forall|id: usize| #[trigger] census.tabs@.contains(id) <==> known_tabs(m).contains(id)
    &&& forall|id: usize| #[trigger]
        census.windows@.contains(id) <==> known_windows(m).contains(id)
}

impl Tab {
    /// Takes a pane out of the tab.
    pub fn remove_pane(&mut self, pane_id: PaneId) -> (removed: bool)
        requires
            tab_pane_ids(old(self)@.panes).no_duplicates(),
        ensures
            removed == tab_pane_ids(old(self)@.panes).contains(pane_id),
            removed ==> final(self)@ == tab_without_pane(old(self)@, pane_id),
            !removed ==> final(self)@ == old(self)@,
    {
        match self.pane_place(pane_id) {
            Some(place) => {
                let ghost before = self.panes@;
                let ghost keep = |p: TabPane| p.pane_id != pane_id;
                proof {
                    let ids = tab_pane_ids(before);
                    assert forall|i: int| 0 <= i < before.len() && i != place implies keep(
                        #[trigger] before[i],
                    ) by {
                        assert(ids[i] != ids[place as int]);
                    }
                    lemma_remove_is_filter(before, place as int, keep);
                }
                let taken = self.panes.remove(place);
                let focused = match self.active_pane {
                    Some(active) => active == pane_id,
                    None => false,
                };
                if focused {
                    self.active_pane = if self.panes.len() == 0 {
                        None
                    } else {
                        Some(self.panes[0].pane_id)
                    };
                }
                assert(self@ =~= tab_without_pane(old(self)@, pane_id));
                true
            },
            None => false,
        }
    }
}

impl Mux {
    fn census(&self) -> (census: Census)
        requires
            self.wf(),
        ensures
            census_of(census, self@),
    {
        let mut panes: Vec<PaneId> = Vec::new();
        let mut i: usize = 0;
        while i < self.panes.len()
            invariant
                i <= self.panes@.len(),
                panes@ == pane_ids(self@.panes).take(i as int),
            decreases self.panes@.len() - i,
        {
            panes.push(self.panes[i].pane_id);
            assert(pane_ids(self@.panes).take(i + 1) =~= pane_ids(self@.panes).take(
                i as int,
            ).push(pane_ids(self@.panes)[i as int]));
            i += 1;
        }
        assert(panes@ =~= pane_ids(self@.panes));
        let mut windows: Vec<WindowId> = Vec::new();
        let mut i: usize = 0;
        while i < self.windows.len()
            invariant
                i <= self.windows@.len(),
                windows@ == window_ids(self@.windows).take(i as int),
            decreases self.windows@.len() - i,
        {
            windows.push(self.windows[i].window_id);
            assert(window_ids(self@.windows)[i as int] == self.windows@[i as int].window_id);
            assert(window_ids(self@.windows).take(i + 1) =~= window_ids(self@.windows).take(
                i as int,
            ).push(window_ids(self@.windows)[i as int]));
            i += 1;
        }
        assert(windows@ =~= window_ids(self@.windows));
        let ghost ids = tab_ids(self@.tabs);
        let mut tabs: Vec<TabId> = Vec::new();
        let mut i: usize = 0;
        while i < self.tabs.len()
            invariant
                self.wf(),
                ids == tab_ids(self@.tabs),
                i <= self.tabs@.len(),
                forall|id: usize| #[trigger]
                    tabs@.contains(id) <==> exists|k: int|
                        0 <= k < i && (#[trigger] self@.tabs[k]).tab_id == id
                            && self@.tabs[k].registered,
            decreases self.tabs@.len() - i,
        {
            let ghost before = tabs@;
            assert(self@.tabs[i as int] == self.tabs@[i as int]@);
            if self.tabs[i].registered {
                tabs.push(self.tabs[i].tab_id);
            }
            assert forall|id: usize| #[trigger] tabs@.contains(id) <==> exists|k: int|
                0 <= k < i + 1 && (#[trigger] self@.tabs[k]).tab_id == id
                    && self@.tabs[k].registered by {
                if before.contains(id) {
                    let k = choose|k: int| 0 <= k < before.len() && before[k] == id;
                    assert(tabs@[k] == id);
                    let m = choose|m: int|
                        0 <= m < i && (#[trigger] self@.tabs[m]).tab_id == id
                            && self@.tabs[m].registered;
                    assert(0 <= m < i + 1 && self@.tabs[m].tab_id == id);
                }
                if exists|k: int|
                    0 <= k < i + 1 && (#[trigger] self@.tabs[k]).tab_id == id
                        && self@.tabs[k].registered {
                    let k = choose|k: int|
                        0 <= k < i + 1 && (#[trigger] self@.tabs[k]).tab_id == id
                            && self@.tabs[k].registered;
                    if k < i {
                        assert(before.contains(id));
                    } else {
                        assert(tabs@[before.len() as int] == id);
                    }
                }
                if tabs@.contains(id) && !before.contains(id) {
                    let k = choose|k: int| 0 <= k < tabs@.len() && tabs@[k] == id;
                    assert(k == before.len()) by {
                        if k < before.len() {
                            assert(before[k] == id);
                        }
                    }
                    assert(self@.tabs[i as int].tab_id == id);
                }
            }
            i += 1;
        }
        assert forall|id: usize| #[trigger] tabs@.contains(id) <==> known_tabs(self@).contains(
            id,
        ) by {
            if tabs@.contains(id) {
                let k = choose|k: int|
                    0 <= k < self.tabs@.len() && (#[trigger] self@.tabs[k]).tab_id == id
                        && self@.tabs[k].registered;
                assert(ids[k] == id);
                assert(ids[ids.index_of(id)] == id);
            }
            if self@.has_tab(id) {
                let k = ids.index_of(id);
                assert(ids[k] == id);
                assert(self@.tabs[k].tab_id == id);
            }
        }
        Census { panes, tabs, windows }
    }

    /// Takes a pane out of a tab. It stays known.
    pub fn take_pane(&mut self, tab_id: TabId, pane_id: PaneId)
        requires
            old(self).wf(),
            tab_ids(old(self)@.tabs).contains(tab_id),
            tab_pane_ids(old(self)@.tab(tab_id).panes).contains(pane_id),
        ensures
            final(self)@ == pane_taken(old(self)@, tab_id, pane_id),
            final(self).wf(),
    {
        match self.tab_place(tab_id) {
            Some(place) => {
                let ghost before = self@;
                assert(before.tabs[place as int] == self.tabs@[place as int]@);
                assert(tab_pane_ids(before.tabs[place as int].panes).no_duplicates());
                let removed = self.tabs[place].remove_pane(pane_id);
                proof {
                    assert(self@.tabs =~= before.tabs.update(
                        place as int,
                        tab_without_pane(before.tab(tab_id), pane_id),
                    ));
                    assert(self@ =~= pane_taken(before, tab_id, pane_id));
                    lemma_pane_taken_wf(before, tab_id, pane_id);
                }
            },
            None => {},
        }
    }
}

proof fn lemma_without_pane_distinct(panes: Seq<TabPane>, pane_id: PaneId)
    requires
        tab_pane_ids(panes).no_duplicates(),
    ensures
        tab_pane_ids(panes.filter(|p: TabPane| p.pane_id != pane_id)).no_duplicates(),
{
    let keep = |p: TabPane| p.pane_id != pane_id;
    let ids = tab_pane_ids(panes);
    if ids.contains(pane_id) {
        let at = ids.index_of(pane_id);
        assert forall|i: int| 0 <= i < panes.len() && i != at implies keep(#[trigger] panes[i]) by {
            assert(ids[i] != ids[at]);
        }
        assert(ids[at] == pane_id);
        lemma_remove_is_filter(panes, at, keep);
        assert(tab_pane_ids(panes.remove(at)) =~= ids.remove(at));
    } else {
        assert forall|i: int| 0 <= i < panes.len() implies keep(#[trigger] panes[i]) by {
            assert(ids[i] == panes[i].pane_id);
            assert(ids.contains(ids[i]));
        }
        crate::mux::lemma_filter_keeps_all(panes, keep);
    }
}

pub proof fn lemma_pane_taken_wf(before: MuxView, tab_id: TabId, pane_id: PaneId)
    requires
        before.wf(),
        tab_ids(before.tabs).contains(tab_id),
    ensures
        pane_taken(before, tab_id, pane_id).wf(),
        tab_ids(pane_taken(before, tab_id, pane_id).tabs) == tab_ids(before.tabs),
{
    let after = pane_taken(before, tab_id, pane_id);
    let place = tab_ids(before.tabs).index_of(tab_id);
    assert(tab_ids(before.tabs)[place] == tab_id);
    assert(tab_ids(after.tabs) =~= tab_ids(before.tabs));
    assert forall|i: int| 0 <= i < after.tabs.len() implies tab_pane_ids(
        (#[trigger] after.tabs[i]).panes,
    ).no_duplicates() by {
        assert(tab_pane_ids(before.tabs[i].panes).no_duplicates());
        if i == place {
            lemma_without_pane_distinct(before.tabs[place].panes, pane_id);
        } else {
            assert(after.tabs[i] == before.tabs[i]);
        }
    }
    assert forall|i: int, k: int|
        0 <= i < after.windows.len() && 0 <= k < after.windows[i].tabs.len() implies tab_ids(
        after.tabs,
    ).contains(#[trigger] after.windows[i].tabs[k]) by {
        assert(tab_ids(before.tabs).contains(before.windows[i].tabs[k]));
    }
}

/// A located pane is held by a known tab, which a window lists.
pub proof fn lemma_pane_location(m: MuxView, pane_id: PaneId)
    requires
        m.wf(),
        pane_location(m, pane_id) is Some,
    ensures
        ({
            let (_, window_id, tab_id) = pane_location(m, pane_id)->0;
            &&& tab_ids(m.tabs).contains(tab_id)
            &&& m.has_tab(tab_id)
            &&& tab_pane_ids(m.tab(tab_id).panes).contains(pane_id)
            &&& m.has_window(window_id)
            &&& m.window(window_id).tabs.contains(tab_id)
            &&& window_holding_tab(m.windows, tab_id) == Some(window_id)
        }),
{
    let (_, window_id, tab_id) = pane_location(m, pane_id)->0;
    lemma_tab_holding_pane(m.tabs, pane_id);
    let tab = crate::mux::tab_holding_pane(m.tabs, pane_id)->0;
    let i = choose|i: int| 0 <= i < m.tabs.len() && m.tabs[i] == tab;
    let ids = tab_ids(m.tabs);
    assert(ids[i] == tab_id);
    assert(ids[ids.index_of(tab_id)] == tab_id);
    lemma_window_listing(m, tab_id);
}

/// The window that holds a tab is there and lists it.
pub proof fn lemma_window_listing(m: MuxView, tab_id: TabId)
    requires
        m.wf(),
        window_holding_tab(m.windows, tab_id) is Some,
    ensures
        m.has_window(window_holding_tab(m.windows, tab_id)->0),
        m.window(window_holding_tab(m.windows, tab_id)->0).tabs.contains(tab_id),
{
    let window_id = window_holding_tab(m.windows, tab_id)->0;
    lemma_window_holding_tab(m.windows, tab_id);
    let i = choose|i: int|
        0 <= i < m.windows.len() && (#[trigger] m.windows[i]).window_id == window_id
            && m.windows[i].tabs.contains(tab_id);
    let ids = window_ids(m.windows);
    assert(ids[i] == window_id);
    assert(ids[ids.index_of(window_id)] == window_id);
}

/// What is found where a target is looked for.
struct Located {
    refused: Option<RecoveryRemoveStatus>,
    tab_id: Option<TabId>,
    window_id: Option<WindowId>,
    workspace: Option<String>,
    panes: Vec<PaneId>,
    tabs: Vec<TabId>,
    windows: Vec<WindowId>,
}

spec fn located_is(located: Located, found: Finding) -> bool {
    match found {
        Finding::Refused { status, tab_id, window_id, workspace } => located.refused == Some(status)
            && located.tab_id == tab_id && located.window_id == window_id && optional_string(
            located.workspace,
        ) == workspace,
        Finding::Found { tab_id, window_id, workspace, panes, tabs, windows } => {
            &&& located.refused is None
            &&& located.tab_id == tab_id
            &&& located.window_id == window_id
            &&& optional_string(located.workspace) == workspace
            &&& forall|id: usize| #[trigger] located.panes@.contains(id) <==> panes.contains(id)
            &&& forall|id: usize| #[trigger] located.tabs@.contains(id) <==> tabs.contains(id)
            &&& forall|id: usize| #[trigger]
                located.windows@.contains(id) <==> windows.contains(id)
        },
    }
}

fn refused(
    status: RecoveryRemoveStatus,
    tab_id: Option<TabId>,
    window_id: Option<WindowId>,
    workspace: Option<String>,
) -> (located: Located)
    ensures
        located_is(
            located,
            Finding::Refused { status, tab_id, window_id, workspace: optional_string(workspace) },
        ),
{
    Located {
        refused: Some(status),
        tab_id,
        window_id,
        workspace,
        panes: Vec::new(),
        tabs: Vec::new(),
        windows: Vec::new(),
    }
}

fn only(id: usize) -> (ids: Vec<usize>)
    ensures
        forall|x: usize| #[trigger] ids@.contains(x) <==> x == id,
{
    let mut ids: Vec<usize> = Vec::new();
    ids.push(id);
    assert(ids@[0] == id);
    ids
}

fn only_if(condition: bool, id: usize) -> (ids: Vec<usize>)
    ensures
        forall|x: usize| #[trigger] ids@.contains(x) <==> condition && x == id,
{
    if condition {
        only(id)
    } else {
        Vec::new()
    }
}

fn push_pane_ids(ids: &mut Vec<PaneId>, panes: &Vec<TabPane>)
    ensures
        forall|x: usize| #[trigger]
            final(ids)@.contains(x) <==> old(ids)@.contains(x) || tab_pane_ids(panes@).contains(x),
{
    let ghost start = ids@;
    let ghost all = tab_pane_ids(panes@);
    let mut i: usize = 0;
    while i < panes.len()
        invariant
            i <= panes@.len(),
            all == tab_pane_ids(panes@),
            ids@ == start + all.take(i as int),
        decreases panes@.len() - i,
    {
        ids.push(panes[i].pane_id);
        assert(all[i as int] == panes@[i as int].pane_id);
        assert(ids@ =~= start + all.take(i + 1));
        i += 1;
    }
    assert(all.take(i as int) =~= all);
    assert forall|x: usize| #[trigger] ids@.contains(x) <==> start.contains(x) || all.contains(
        x,
    ) by {
        if start.contains(x) {
            let k = choose|k: int| 0 <= k < start.len() && start[k] == x;
            assert(ids@[k] == x);
        }
        if all.contains(x) {
            let k = choose|k: int| 0 <= k < all.len() && all[k] == x;
            assert(ids@[start.len() + k] == x);
        }
        if ids@.contains(x) {
            let k = choose|k: int| 0 <= k < ids@.len() && ids@[k] == x;
            if k < start.len() {
                assert(start[k] == x);
            } else {
                assert(all[k - start.len()] == x);
            }
        }
    }
}

impl Mux {
    fn pane_ids_of_tab(&self, tab_id: TabId) -> (ids: Vec<PaneId>)
        requires
            self.wf(),
            tab_ids(self@.tabs).contains(tab_id),
        ensures
            forall|x: usize| #[trigger]
                ids@.contains(x) <==> tab_pane_ids(self@.tab(tab_id).panes).contains(x),
    {
        let mut ids: Vec<PaneId> = Vec::new();
        match self.tab_place(tab_id) {
            Some(place) => {
                push_pane_ids(&mut ids, &self.tabs[place].panes);
            },
            None => {},
        }
        ids
    }

    fn pane_ids_of_window(&self, place: usize) -> (ids: Vec<PaneId>)
        requires
            self.wf(),
            place < self.windows@.len(),
        ensures
            forall|x: usize| #[trigger]
                ids@.contains(x) <==> panes_of_window(
                    self@,
                    self@.windows[place as int],
                ).contains(x),
    {
        let ghost window = self@.windows[place as int];
        let mut ids: Vec<PaneId> = Vec::new();
        let mut k: usize = 0;
        while k < self.windows[place].tabs.len()
            invariant
                self.wf(),
                place < self.windows@.len(),
                window == self@.windows[place as int],
                window.tabs == self.windows@[place as int].tabs@,
                k <= window.tabs.len(),
                forall|x: usize| #[trigger]
                    ids@.contains(x) <==> exists|j: int|
                        0 <= j < k && tab_pane_ids(
                            self@.tab(#[trigger] window.tabs[j]).panes,
                        ).contains(x),
            decreases window.tabs.len() - k,
        {
            let tab_id = self.windows[place].tabs[k];
            let ghost before = ids@;
            assert(tab_ids(self@.tabs).contains(self@.windows[place as int].tabs[k as int]));
            match self.tab_place(tab_id) {
                Some(at) => {
                    push_pane_ids(&mut ids, &self.tabs[at].panes);
                },
                None => {},
            }
            assert forall|x: usize| #[trigger] ids@.contains(x) <==> exists|j: int|
                0 <= j < k + 1 && tab_pane_ids(
                    self@.tab(#[trigger] window.tabs[j]).panes,
                ).contains(x) by {
                if before.contains(x) {
                    let j = choose|j: int|
                        0 <= j < k && tab_pane_ids(
                            self@.tab(#[trigger] window.tabs[j]).panes,
                        ).contains(x);
                    assert(0 <= j < k + 1 && window.tabs[j] == window.tabs[j]);
                }
                if tab_pane_ids(self@.tab(window.tabs[k as int]).panes).contains(x) {
                    assert(ids@.contains(x));
                }
            }
            k += 1;
        }
        ids
    }

    fn locate(&self, target: &RecoveryRemoveTarget) -> (located: Located)
        requires
            self.wf(),
        ensures
            located_is(located, finding(self@, target@)),
    {
        match target {
            RecoveryRemoveTarget::Pane { pane_id, parent_tab_id, parent_window_id } => {
                if self.pane_place(*pane_id).is_none() {
                    return refused(RecoveryRemoveStatus::NotFound, None, None, None);
                }
                match self.resolve_pane_id(*pane_id) {
                    None => refused(RecoveryRemoveStatus::ParentMismatch, None, None, None),
                    Some((_, window_id, tab_id)) => {
                        if tab_id != *parent_tab_id || window_id != *parent_window_id {
                            return refused(
                                RecoveryRemoveStatus::ParentMismatch,
                                Some(tab_id),
                                Some(window_id),
                                None,
                            );
                        }
                        proof {
                            lemma_pane_location(self@, *pane_id);
                        }
                        let last_pane = match self.tab_place(tab_id) {
                            Some(place) => self.tabs[place].panes.len() == 1,
                            None => false,
                        };
                        let last_tab = match self.window_place(window_id) {
                            Some(place) => self.windows[place].tabs.len() == 1,
                            None => false,
                        };
                        Located {
                            refused: None,
                            tab_id: Some(tab_id),
                            window_id: Some(window_id),
                            workspace: None,
                            panes: only(*pane_id),
                            tabs: only_if(last_pane, tab_id),
                            windows: only_if(last_pane && last_tab, window_id),
                        }
                    },
                }
            },
            RecoveryRemoveTarget::Tab { tab_id, parent_window_id } => {
                let known = match self.tab_place(*tab_id) {
                    Some(place) => self.tabs[place].registered,
                    None => false,
                };
                if !known {
                    return refused(RecoveryRemoveStatus::NotFound, None, None, None);
                }
                match self.window_containing_tab(*tab_id) {
                    None => refused(RecoveryRemoveStatus::ParentMismatch, None, None, None),
                    Some(window_id) => {
                        if window_id != *parent_window_id {
                            return refused(
                                RecoveryRemoveStatus::ParentMismatch,
                                None,
                                Some(window_id),
                                None,
                            );
                        }
                        proof {
                            lemma_window_listing(self@, *tab_id);
                        }
                        let last_tab = match self.window_place(window_id) {
                            Some(place) => self.windows[place].tabs.len() == 1,
                            None => false,
                        };
                        Located {
                            refused: None,
                            tab_id: None,
                            window_id: Some(window_id),
                            workspace: None,
                            panes: self.pane_ids_of_tab(*tab_id),
                            tabs: only(*tab_id),
                            windows: only_if(last_tab, window_id),
                        }
                    },
                }
            },
            RecoveryRemoveTarget::Window { window_id, workspace } => {
                match self.window_place(*window_id) {
                    None => refused(RecoveryRemoveStatus::NotFound, None, None, None),
                    Some(place) => {
                        let actual = self.windows[place].workspace.clone();
                        if !same_text(actual.as_str(), workspace.as_str()) {
                            return refused(
                                RecoveryRemoveStatus::ParentMismatch,
                                None,
                                None,
                                Some(actual),
                            );
                        }
                        let mut tabs: Vec<TabId> = Vec::new();
                        let mut k: usize = 0;
                        while k < self.windows[place].tabs.len()
                            invariant
                                place < self.windows@.len(),
                                k <= self.windows@[place as int].tabs@.len(),
                                tabs@ == self.windows@[place as int].tabs@.take(k as int),
                            decreases self.windows@[place as int].tabs@.len() - k,
                        {
                            tabs.push(self.windows[place].tabs[k]);
                            assert(tabs@ =~= self.windows@[place as int].tabs@.take(k + 1));
                            k += 1;
                        }
                        assert(tabs@ =~= self@.window(*window_id).tabs);
                        Located {
                            refused: None,
                            tab_id: None,
                            window_id: None,
                            workspace: Some(actual),
                            panes: self.pane_ids_of_window(place),
                            tabs,
                            windows: only(*window_id),
                        }
                    },
                }
            },
        }
    }

    fn remove_located(&mut self, target: &RecoveryRemoveTarget)
        requires
            old(self).wf(),
            finding(old(self)@, target@) is Found,
        ensures
            final(self).wf(),
            final(self)@ == removal_state(old(self)@, target@),
    {
        match target {
            RecoveryRemoveTarget::Pane { pane_id, parent_tab_id, parent_window_id } => {
                proof {
                    lemma_pane_location(self@, *pane_id);
                }
                let last_pane = match self.tab_place(*parent_tab_id) {
                    Some(place) => self.tabs[place].panes.len() == 1,
                    None => false,
                };
                let last_tab = match self.window_place(*parent_window_id) {
                    Some(place) => self.windows[place].tabs.len() == 1,
                    None => false,
                };
                self.take_pane(*parent_tab_id, *pane_id);
                self.remove_pane_internal(*pane_id);
                if last_pane {
                    let removed = self.remove_tab_internal(*parent_tab_id);
                    if last_tab {
                        self.remove_window_internal_for_recovery(*parent_window_id);
                    }
                }
            },
            RecoveryRemoveTarget::Tab { tab_id, parent_window_id } => {
                proof {
                    lemma_window_listing(self@, *tab_id);
                }
                let last_tab = match self.window_place(*parent_window_id) {
                    Some(place) => self.windows[place].tabs.len() == 1,
                    None => false,
                };
                let removed = self.remove_tab_internal(*tab_id);
                if last_tab {
                    self.remove_window_internal_for_recovery(*parent_window_id);
                }
            },
            RecoveryRemoveTarget::Window { window_id, .. } => {
                self.remove_window_internal_for_recovery(*window_id);
            },
        }
    }

    /// Removes one exact native node. Empty ancestors of the node go with it,
    /// and nothing else does: dead neighbours are not swept up.
    pub fn remove_recovery_node_exact(&mut self, target: RecoveryRemoveTarget) -> (outcome:
        RecoveryRemoveOutcome)
        requires
            old(self).wf(),
        ensures
            final(self).wf(),
            final(self)@ == removal_state(old(self)@, target@),
            outcome_is(outcome@, old(self)@, target@, final(self)@),
    {
        let mut outcome = RecoveryRemoveOutcome::new(target.kind(), target.native_id());
        let located = self.locate(&target);
        outcome.actual_parent_tab_id = located.tab_id;
        outcome.actual_parent_window_id = located.window_id;
        outcome.actual_workspace = located.workspace;
        match located.refused {
            Some(status) => {
                outcome.status = status;
                return outcome;
            },
            None => {},
        }
        let before = self.census();
        self.remove_located(&target);
        let after = self.census();
        let present = any_left(&located.panes, &after.panes) || any_left(
            &located.tabs,
            &after.tabs,
        ) || any_left(&located.windows, &after.windows);
        let missing = any_lost(&before.panes, &located.panes, &after.panes) || any_lost(
            &before.tabs,
            &located.tabs,
            &after.tabs,
        ) || any_lost(&before.windows, &located.windows, &after.windows);
        proof {
            let found = finding(old(self)@, target@);
            let was = old(self)@;
            let now = self@;
            lemma_left_agrees(located.panes@, found->panes, after.panes@, known_panes(now));
            lemma_left_agrees(located.tabs@, found->tabs, after.tabs@, known_tabs(now));
            lemma_left_agrees(located.windows@, found->windows, after.windows@, known_windows(now));
            lemma_lost_agrees(
                before.panes@,
                known_panes(was),
                located.panes@,
                found->panes,
                after.panes@,
                known_panes(now),
            );
            lemma_lost_agrees(
                before.tabs@,
                known_tabs(was),
                located.tabs@,
                found->tabs,
                after.tabs@,
                known_tabs(now),
            );
            lemma_lost_agrees(
                before.windows@,
                known_windows(was),
                located.windows@,
                found->windows,
                after.windows@,
                known_windows(now),
            );
            assert(present == still_present(found, self@));
            assert(missing == neighbor_missing(old(self)@, found, self@));
        }
        outcome.removed_pane_ids = difference(&before.panes, &after.panes);
        outcome.removed_tab_ids = difference(&before.tabs, &after.tabs);
        outcome.removed_window_ids = difference(&before.windows, &after.windows);
        if present || missing {
            outcome.status = RecoveryRemoveStatus::PostconditionFailed;
            outcome.postcondition_error = Some(
                "target_still_present=".to_owned().concat(bool_word(present)).concat(
                    " neighboring_node_missing=",
                ).concat(bool_word(missing)),
            );
        } else {
            outcome.status = RecoveryRemoveStatus::Removed;
        }
        outcome
    }
}

} // verus!
