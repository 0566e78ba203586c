//! Workspaces: which windows are in them, which clients follow them, and how
//! they are renamed.

use crate::failure::{debug_quoted, debug_text};
use crate::mux::{notified, recounted, Mux};
use crate::mux_model::{
    client_ids, tab_ids, window_ids, ClientView, EffectView, MuxNotification, MuxView,
    NotificationView, WindowId, WindowView,
};
use crate::text::{decimal, decimal_text, optional_string, same_text};
use vstd::prelude::*;

verus! {

/// Why a window's workspace was not renamed. Whichever it is, nothing was
/// changed.
#[derive(Clone, Debug, PartialEq, Eq)]
pub enum WorkspaceCasError {
    /// No window with the requested number exists.
    NoSuchWindow,
    /// The window exists but is in a different workspace.
    WorkspaceMismatch { actual: String },
    /// The window had to be alone in its workspace, and is not.
    NotSoleWindow { other_window_ids: Vec<WindowId> },
}

/// The view of a [`WorkspaceCasError`].
pub enum CasErrorView {
    NoSuchWindow,
    WorkspaceMismatch { actual: Seq<char> },
    NotSoleWindow { other_window_ids: Seq<WindowId> },
}

impl View for WorkspaceCasError {
    type V = CasErrorView;

    open spec fn view(&self) -> CasErrorView {
        match *self {
            WorkspaceCasError::NoSuchWindow => CasErrorView::NoSuchWindow,
            WorkspaceCasError::WorkspaceMismatch { actual } => CasErrorView::WorkspaceMismatch {
                actual: actual@,
            },
            WorkspaceCasError::NotSoleWindow { other_window_ids } => CasErrorView::NotSoleWindow {
                other_window_ids: other_window_ids@,
            },
        }
    }
}

/// Numbers in decimal, with commas between them.
pub open spec fn listed(ids: Seq<usize>) -> Seq<char>
    decreases ids.len(),
{
    if ids.len() == 0 {
        Seq::empty()
    } else if ids.len() == 1 {
        decimal(ids[0] as nat)
    } else {
        listed(ids.drop_last()) + ", "@ + decimal(ids.last() as nat)
    }
}

/// The stable token of a refusal.
pub open spec fn cas_token(error: CasErrorView) -> Seq<char> {
    match error {
        CasErrorView::NoSuchWindow => "no_such_window"@,
        CasErrorView::WorkspaceMismatch { actual } => "workspace_mismatch actual="@ + debug_quoted(
            actual,
        ),
        CasErrorView::NotSoleWindow { other_window_ids } => "not_sole_window other_window_ids=["@
            + listed(other_window_ids) + "]"@,
    }
}

/// Writes numbers in decimal, with commas between them.
pub fn list_text(ids: &Vec<usize>) -> (text: String)
    ensures
        text@ == listed(ids@),
{
    let mut text = String::new();
    let mut i: usize = 0;
    assert(text@ =~= Seq::<char>::empty());
    assert(ids@.take(0) =~= Seq::empty());
    while i < ids.len()
        invariant
            i <= ids@.len(),
            text@ == listed(ids@.take(i as int)),
        decreases ids@.len() - i,
    {
        assert(ids@.take(i + 1).drop_last() =~= ids@.take(i as int));
        assert(ids@.take(i + 1).last() == ids@[i as int]);
        let number = decimal_text(ids[i] as u64);
        if i == 0 {
            text = number;
        } else {
            text = text.concat(", ").concat(number.as_str());
        }
        i += 1;
    }
    assert(ids@.take(i as int) =~= ids@);
    text
}

impl WorkspaceCasError {
    /// The stable token of the refusal.
    pub fn to_string(&self) -> (text: String)
        ensures
            text@ == cas_token(self@),
    {
        match self {
            WorkspaceCasError::NoSuchWindow => "no_such_window".to_owned(),
            WorkspaceCasError::WorkspaceMismatch { actual } => "workspace_mismatch actual=".to_owned().concat(
                debug_text(actual.as_str()).as_str(),
            ),
            WorkspaceCasError::NotSoleWindow { other_window_ids } =>
                "not_sole_window other_window_ids=[".to_owned().concat(
                list_text(other_window_ids).as_str(),
            ).concat("]"),
        }
    }
}

/// The other windows in a workspace.
pub open spec fn other_windows(
    windows: Seq<WindowView>,
    window_id: WindowId,
    workspace: Seq<char>,
) -> Seq<WindowId>
    decreases windows.len(),
{
    if windows.len() == 0 {
        Seq::empty()
    } else {
        let head = other_windows(windows.drop_last(), window_id, workspace);
        if windows.last().window_id != window_id && windows.last().workspace == workspace {
            head.push(windows.last().window_id)
        } else {
            head
        }
    }
}

/// Why a conditional rename is refused, if it is.
pub open spec fn cas_refusal(
    m: MuxView,
    window_id: WindowId,
    expected: Seq<char>,
    sole: bool,
) -> Option<CasErrorView> {
    if !m.has_window(window_id) {
        Some(CasErrorView::NoSuchWindow)
    } else if m.window(window_id).workspace != expected {
        Some(CasErrorView::WorkspaceMismatch { actual: m.window(window_id).workspace })
    } else if sole && other_windows(m.windows, window_id, expected).len() > 0 {
        Some(
            CasErrorView::NotSoleWindow {
                other_window_ids: other_windows(m.windows, window_id, expected),
            },
        )
    } else {
        None
    }
}

/// The state with one window in another workspace. Subscribers are told if that
/// is a change.
pub open spec fn window_moved(m: MuxView, window_id: WindowId, workspace: Seq<char>) -> MuxView {
    if m.window(window_id).workspace == workspace {
        m
    } else {
        notified(
            MuxView {
                windows: m.windows.update(
                    window_ids(m.windows).index_of(window_id),
                    WindowView { workspace, ..m.window(window_id) },
                ),
                ..m
            },
            NotificationView::WindowWorkspaceChanged(window_id),
        )
    }
}

/// A client that follows a renamed workspace.
pub open spec fn client_retargeted(
    client: ClientView,
    old_workspace: Seq<char>,
    new_workspace: Seq<char>,
) -> ClientView {
    if client.active_workspace == Some(old_workspace) {
        ClientView { active_workspace: Some(new_workspace), ..client }
    } else {
        client
    }
}

/// The notifications for the clients that follow a workspace.
pub open spec fn retarget_notices(clients: Seq<ClientView>, workspace: Seq<char>) -> Seq<EffectView>
    decreases clients.len(),
{
    if clients.len() == 0 {
        Seq::empty()
    } else {
        let head = retarget_notices(clients.drop_last(), workspace);
        if clients.last().active_workspace == Some(workspace) {
            head.push(
                EffectView::Notify(
                    NotificationView::ActiveWorkspaceChanged(clients.last().client_id),
                ),
            )
        } else {
            head
        }
    }
}

/// The state with all followers of one workspace following another.
pub open spec fn retargeted(
    m: MuxView,
    old_workspace: Seq<char>,
    new_workspace: Seq<char>,
) -> MuxView {
    MuxView {
        clients: m.clients.map_values(
            |c: ClientView| client_retargeted(c, old_workspace, new_workspace),
        ),
        effects: m.effects + retarget_notices(m.clients, old_workspace),
        ..m
    }
}

/// The state after a conditional rename.
pub open spec fn cas_state(
    m: MuxView,
    window_id: WindowId,
    expected: Seq<char>,
    new_workspace: Seq<char>,
    sole: bool,
) -> MuxView {
    if cas_refusal(m, window_id, expected, sole) is Some {
        m
    } else {
        let moved = recounted(window_moved(m, window_id, new_workspace));
        if sole && expected != new_workspace {
            retargeted(moved, expected, new_workspace)
        } else {
            moved
        }
    }
}

/// The windows of a renamed workspace.
pub open spec fn windows_renamed(
    windows: Seq<WindowView>,
    old_workspace: Seq<char>,
    new_workspace: Seq<char>,
) -> Seq<WindowView> {
    windows.map_values(
        |w: WindowView|
            if w.workspace == old_workspace {
                WindowView { workspace: new_workspace, ..w }
            } else {
                w
            },
    )
}

/// The notifications for the windows of a workspace.
pub open spec fn rename_notices(windows: Seq<WindowView>, workspace: Seq<char>) -> Seq<EffectView>
    decreases windows.len(),
{
    if windows.len() == 0 {
        Seq::empty()
    } else {
        let head = rename_notices(windows.drop_last(), workspace);
        if windows.last().workspace == workspace {
            head.push(
                EffectView::Notify(
                    NotificationView::WindowWorkspaceChanged(windows.last().window_id),
                ),
            )
        } else {
            head
        }
    }
}

/// The state after a workspace was renamed everywhere.
pub open spec fn workspace_renamed(
    m: MuxView,
    old_workspace: Seq<char>,
    new_workspace: Seq<char>,
) -> MuxView {
    if old_workspace == new_workspace {
        m
    } else {
        let announced = notified(
            m,
            NotificationView::WorkspaceRenamed { old_workspace, new_workspace },
        );
        let renamed = MuxView {
            windows: windows_renamed(m.windows, old_workspace, new_workspace),
            effects: announced.effects + rename_notices(m.windows, old_workspace),
            ..m
        };
        retargeted(recounted(renamed), old_workspace, new_workspace)
    }
}

/// Replacing windows by ones with the same numbers and tabs keeps the state
/// well formed.
pub proof fn lemma_same_shape_wf(before: MuxView, after: MuxView)
    requires
        before.wf(),
        after.tabs == before.tabs,
        after.panes == before.panes,
        client_ids(after.clients) == client_ids(before.clients),
        after.windows.len() == before.windows.len(),
        forall|i: int|
            0 <= i < before.windows.len() ==> (#[trigger] after.windows[i]).window_id
                == before.windows[i].window_id && after.windows[i].tabs == before.windows[i].tabs,
    ensures
        after.wf(),
{
    assert(window_ids(after.windows) =~= window_ids(before.windows));
    assert forall|i: int| 0 <= i < after.windows.len() implies (
    #[trigger] after.windows[i]).tabs.no_duplicates() by {
        assert(before.windows[i].tabs.no_duplicates());
    }
    assert forall|i: int, k: int|
        0 <= i < after.windows.len() && 0 <= k < after.windows[i].tabs.len() implies tab_ids(
        after.tabs,
    ).contains(#[trigger] after.windows[i].tabs[k]) by {
        assert(tab_ids(before.tabs).contains(before.windows[i].tabs[k]));
    }
}

fn same_optional(value: &Option<String>, expected: &str) -> (same: bool)
    ensures
        same == (optional_string(*value) == Some(expected@)),
{
    match value {
        Some(text) => same_text(text.as_str(), expected),
        None => false,
    }
}

impl Mux {
    fn windows_besides(&self, window_id: WindowId, workspace: &str) -> (ids: Vec<WindowId>)
        ensures
            ids@ == other_windows(self@.windows, window_id, workspace@),
    {
        let mut ids: Vec<WindowId> = Vec::new();
        let mut i: usize = 0;
        assert(self@.windows.take(0) =~= Seq::empty());
        while i < self.windows.len()
            invariant
                i <= self.windows@.len(),
                ids@ == other_windows(self@.windows.take(i as int), window_id, workspace@),
            decreases self.windows@.len() - i,
        {
            assert(self@.windows.take(i + 1).drop_last() =~= self@.windows.take(i as int));
            assert(self@.windows.take(i + 1).last() == self.windows@[i as int]@);
            if self.windows[i].window_id != window_id && same_text(
                self.windows[i].workspace.as_str(),
                workspace,
            ) {
                ids.push(self.windows[i].window_id);
            }
            i += 1;
        }
        assert(self@.windows.take(i as int) =~= self@.windows);
        ids
    }

    fn retarget_clients(&mut self, old_workspace: &str, new_workspace: &str)
        requires
            old(self).wf(),
        ensures
            final(self)@ == retargeted(old(self)@, old_workspace@, new_workspace@),
            final(self).wf(),
    {
        let ghost before = self@;
        let mut i: usize = 0;
        assert(before.clients.take(0) =~= Seq::empty());
        assert(before.effects + retarget_notices(before.clients.take(0), old_workspace@)
            =~= before.effects);
        while i < self.clients.len()
            invariant
                i <= self.clients@.len(),
                self.clients@.len() == before.clients.len(),
                self@ == (MuxView { clients: self@.clients, effects: self@.effects, ..before }),
                self@.effects == before.effects + retarget_notices(
                    before.clients.take(i as int),
                    old_workspace@,
                ),
                forall|k: int|
                    0 <= k < i ==> (#[trigger] self@.clients[k]) == client_retargeted(
                        before.clients[k],
                        old_workspace@,
                        new_workspace@,
                    ),
                forall|k: int|
                    i <= k < self.clients@.len() ==> (#[trigger] self@.clients[k])
                        == before.clients[k],
            decreases self.clients@.len() - i,
        {
            let ghost now = self@;
            assert(self@.clients[i as int] == self.clients@[i as int]@);
            assert(before.clients.take(i + 1).drop_last() =~= before.clients.take(i as int));
            assert(before.clients.take(i + 1).last() == before.clients[i as int]);
            if same_optional(&self.clients[i].active_workspace, old_workspace) {
                let client_id = self.clients[i].client_id;
                self.clients[i].active_workspace = Some(new_workspace.to_owned());
                assert forall|k: int| 0 <= k < self.clients@.len() && k != i implies (
                #[trigger] self@.clients[k]) == now.clients[k] by {}
                let ghost assigned = self@.clients;
                self.notify(MuxNotification::ActiveWorkspaceChanged(client_id));
                assert(self@.clients == assigned && assigned.len() == now.clients.len());
                assert(self@.effects =~= before.effects + retarget_notices(
                    before.clients.take(i + 1),
                    old_workspace@,
                ));
            }
            i += 1;
        }
        assert(before.clients.take(i as int) =~= before.clients);
        assert(self@.clients =~= before.clients.map_values(
            |c: ClientView| client_retargeted(c, old_workspace@, new_workspace@),
        ));
        assert(self@ =~= retargeted(before, old_workspace@, new_workspace@));
        proof {
            assert(client_ids(self@.clients) =~= client_ids(before.clients));
            lemma_same_shape_wf(before, self@);
        }
    }

    fn move_window(&mut self, place: usize, workspace: &str)
        requires
            old(self).wf(),
            place < old(self).windows@.len(),
        ensures
            final(self)@ == window_moved(
                old(self)@,
                old(self).windows@[place as int].window_id,
                workspace@,
            ),
            final(self).wf(),
    {
        let ghost before = self@;
        let window_id = self.windows[place].window_id;
        proof {
            let ids = window_ids(before.windows);
            assert(ids[place as int] == window_id);
            assert(ids[ids.index_of(window_id)] == window_id);
            assert(before.windows[place as int] == self.windows@[place as int]@);
        }
        let changed = self.windows[place].set_workspace(workspace);
        assert(self@.windows =~= before.windows.update(
            place as int,
            WindowView { workspace: workspace@, ..before.windows[place as int] },
        ));
        proof {
            lemma_same_shape_wf(before, self@);
        }
        if changed {
            self.notify(MuxNotification::WindowWorkspaceChanged(window_id));
        } else {
            assert(self@.windows =~= before.windows);
        }
        assert(self@ =~= window_moved(before, window_id, workspace@));
    }

    /// Renames one window's workspace if it is the expected one and, on demand,
    /// if no other window is in it.
    pub fn rename_workspace_for_window_if(
        &mut self,
        window_id: WindowId,
        expected_workspace: &str,
        new_workspace: &str,
        expect_sole_window: bool,
    ) -> (result: Result<(), WorkspaceCasError>)
        requires
            old(self).wf(),
        ensures
            final(self).wf(),
            final(self)@ == cas_state(
                old(self)@,
                window_id,
                expected_workspace@,
                new_workspace@,
                expect_sole_window,
            ),
            match result {
                Ok(()) => cas_refusal(
                    old(self)@,
                    window_id,
                    expected_workspace@,
                    expect_sole_window,
                ) is None,
                Err(error) => cas_refusal(
                    old(self)@,
                    window_id,
                    expected_workspace@,
                    expect_sole_window,
                ) == Some(error@),
            },
    {
        let place = match self.window_place(window_id) {
            Some(place) => place,
            None => {
                return Err(WorkspaceCasError::NoSuchWindow);
            },
        };
        if !same_text(self.windows[place].workspace.as_str(), expected_workspace) {
            return Err(
                WorkspaceCasError::WorkspaceMismatch {
                    actual: self.windows[place].workspace.clone(),
                },
            );
        }
        if expect_sole_window {
            let other_window_ids = self.windows_besides(window_id, expected_workspace);
            if other_window_ids.len() > 0 {
                return Err(WorkspaceCasError::NotSoleWindow { other_window_ids });
            }
        }
        self.move_window(place, new_workspace);
        self.recompute_pane_count();
        if expect_sole_window && !same_text(expected_workspace, new_workspace) {
            self.retarget_clients(expected_workspace, new_workspace);
        }
        Ok(())
    }

    /// Renames a workspace everywhere: its windows move, and its followers
    /// follow.
    pub fn rename_workspace(&mut self, old_workspace: &str, new_workspace: &str)
        requires
            old(self).wf(),
        ensures
            final(self).wf(),
            final(self)@ == workspace_renamed(old(self)@, old_workspace@, new_workspace@),
    {
        if same_text(old_workspace, new_workspace) {
            return;
        }
        self.notify(
            MuxNotification::WorkspaceRenamed {
                old_workspace: old_workspace.to_owned(),
                new_workspace: new_workspace.to_owned(),
            },
        );
        let ghost before = self@;
        let mut i: usize = 0;
        assert(before.windows.take(0) =~= Seq::empty());
        assert(before.effects + rename_notices(before.windows.take(0), old_workspace@)
            =~= before.effects);
        while i < self.windows.len()
            invariant
                self.wf(),
                old_workspace@ != new_workspace@,
                i <= self.windows@.len(),
                self.windows@.len() == before.windows.len(),
                self@ == (MuxView { windows: self@.windows, effects: self@.effects, ..before }),
                self@.effects == before.effects + rename_notices(
                    before.windows.take(i as int),
                    old_workspace@,
                ),
                forall|k: int|
                    0 <= k < i ==> (#[trigger] self@.windows[k]) == windows_renamed(
                        before.windows,
                        old_workspace@,
                        new_workspace@,
                    )[k],
                forall|k: int|
                    i <= k < self.windows@.len() ==> (#[trigger] self@.windows[k])
                        == before.windows[k],
            decreases self.windows@.len() - i,
        {
            let ghost now = self@;
            assert(self@.windows[i as int] == self.windows@[i as int]@);
            assert(before.windows.take(i + 1).drop_last() =~= before.windows.take(i as int));
            assert(before.windows.take(i + 1).last() == before.windows[i as int]);
            if same_text(self.windows[i].workspace.as_str(), old_workspace) {
                proof {
                    let ids = window_ids(now.windows);
                    assert(ids[i as int] == now.windows[i as int].window_id);
                    assert(ids[ids.index_of(ids[i as int])] == ids[i as int]);
                }
                self.move_window(i, new_workspace);
                assert forall|k: int| 0 <= k < self.windows@.len() && k != i implies (
                #[trigger] self@.windows[k]) == now.windows[k] by {}
                assert(self@.effects =~= before.effects + rename_notices(
                    before.windows.take(i + 1),
                    old_workspace@,
                ));
            }
            i += 1;
        }
        assert(before.windows.take(i as int) =~= before.windows);
        assert(self@.windows =~= windows_renamed(before.windows, old_workspace@, new_workspace@));
        self.recompute_pane_count();
        self.retarget_clients(old_workspace, new_workspace);
    }
}

/// A refused conditional rename changes nothing and tells nobody.
pub proof fn law_refused_rename_changes_nothing(
    m: MuxView,
    window_id: WindowId,
    expected: Seq<char>,
    new_workspace: Seq<char>,
    sole: bool,
)
    requires
        cas_refusal(m, window_id, expected, sole) is Some,
    ensures
        cas_state(m, window_id, expected, new_workspace, sole) == m,
{
}

/// A conditional rename moves the named window and no other, and touches no
/// tab, no pane and, unless the window was alone, no client.
pub proof fn law_rename_moves_only_the_named_window(
    m: MuxView,
    window_id: WindowId,
    expected: Seq<char>,
    new_workspace: Seq<char>,
    sole: bool,
)
    requires
        m.wf(),
        cas_refusal(m, window_id, expected, sole) is None,
    ensures
        ({
            let after = cas_state(m, window_id, expected, new_workspace, sole);
            &&& after.windows.len() == m.windows.len()
            &&& forall|i: int|
                0 <= i < m.windows.len() ==> #[trigger] after.windows[i] == if m.windows[i].window_id
                    == window_id {
                    WindowView { workspace: new_workspace, ..m.windows[i] }
                } else {
                    m.windows[i]
                }
            &&& after.tabs == m.tabs
            &&& after.panes == m.panes
            &&& !sole ==> after.clients == m.clients
        }),
{
    let after = cas_state(m, window_id, expected, new_workspace, sole);
    let ids = window_ids(m.windows);
    let place = ids.index_of(window_id);
    assert(ids[place] == window_id);
    assert forall|i: int| 0 <= i < m.windows.len() implies #[trigger] after.windows[i] == if m.windows[i].window_id
        == window_id {
        WindowView { workspace: new_workspace, ..m.windows[i] }
    } else {
        m.windows[i]
    } by {
        assert(ids[i] == m.windows[i].window_id);
        if i != place {
            assert(ids[i] != ids[place]);
        }
    }
}

proof fn lemma_no_other_windows(
    windows: Seq<WindowView>,
    window_id: WindowId,
    workspace: Seq<char>,
    i: int,
)
    requires
        other_windows(windows, window_id, workspace).len() == 0,
        0 <= i < windows.len(),
    ensures
        windows[i].window_id == window_id || windows[i].workspace != workspace,
    decreases windows.len(),
{
    if i < windows.len() - 1 {
        lemma_no_other_windows(windows.drop_last(), window_id, workspace, i);
    }
}

/// A sole-window rename migrates the whole name: afterwards no window is in the
/// old workspace and no client follows it.
pub proof fn law_sole_rename_migrates_the_name(
    m: MuxView,
    window_id: WindowId,
    expected: Seq<char>,
    new_workspace: Seq<char>,
)
    requires
        m.wf(),
        cas_refusal(m, window_id, expected, true) is None,
        expected != new_workspace,
    ensures
        ({
            let after = cas_state(m, window_id, expected, new_workspace, true);
            &&& forall|i: int|
                0 <= i < after.windows.len() ==> (#[trigger] after.windows[i]).workspace
                    != expected
            &&& forall|i: int|
                0 <= i < after.clients.len() ==> (#[trigger] after.clients[i]).active_workspace
                    != Some(expected)
        }),
{
    let after = cas_state(m, window_id, expected, new_workspace, true);
    law_rename_moves_only_the_named_window(m, window_id, expected, new_workspace, true);
    assert forall|i: int| 0 <= i < after.windows.len() implies (
    #[trigger] after.windows[i]).workspace != expected by {
        lemma_no_other_windows(m.windows, window_id, expected, i);
    }
}

/// The retry of an applied rename moves nothing and tells nobody. It succeeds
/// unless it asks for a window that is alone in its workspace.
pub proof fn law_rename_retry_is_silent(
    m: MuxView,
    window_id: WindowId,
    expected: Seq<char>,
    new_workspace: Seq<char>,
    sole: bool,
    retry_sole: bool,
)
    requires
        m.wf(),
        cas_refusal(m, window_id, expected, sole) is None,
    ensures
        ({
            let after = cas_state(m, window_id, expected, new_workspace, sole);
            &&& cas_refusal(after, window_id, new_workspace, false) is None
            &&& cas_state(after, window_id, new_workspace, new_workspace, retry_sole) == after
        }),
{
    let after = cas_state(m, window_id, expected, new_workspace, sole);
    law_rename_moves_only_the_named_window(m, window_id, expected, new_workspace, sole);
    let ids = window_ids(m.windows);
    assert(window_ids(after.windows) =~= ids) by {
        assert forall|i: int| 0 <= i < m.windows.len() implies window_ids(after.windows)[i]
            == ids[i] by {
            assert(after.windows[i].window_id == m.windows[i].window_id);
        }
    }
    let place = ids.index_of(window_id);
    assert(ids[place] == window_id);
    assert(after.windows[place].workspace == new_workspace);
    assert(cas_state(after, window_id, new_workspace, new_workspace, retry_sole) =~= after);
}

/// After an unconditional rename no window is in the old workspace and no client
/// follows it.
pub proof fn law_workspace_rename_migrates_the_name(
    m: MuxView,
    old_workspace: Seq<char>,
    new_workspace: Seq<char>,
)
    requires
        old_workspace != new_workspace,
    ensures
        ({
            let after = workspace_renamed(m, old_workspace, new_workspace);
            &&& forall|i: int|
                0 <= i < after.windows.len() ==> (#[trigger] after.windows[i]).workspace
                    != old_workspace
            &&& forall|i: int|
                0 <= i < after.clients.len() ==> (#[trigger] after.clients[i]).active_workspace
                    != Some(old_workspace)
        }),
{
}

/// The other windows of a workspace are exactly those of another number that are in
/// it.
pub proof fn law_other_windows_share_the_workspace(
    windows: Seq<WindowView>,
    window_id: WindowId,
    workspace: Seq<char>,
)
    ensures
        forall|id: WindowId| #[trigger]
            other_windows(windows, window_id, workspace).contains(id) <==> id != window_id
                && exists|i: int|
                0 <= i < windows.len() && (#[trigger] windows[i]).window_id == id
                    && windows[i].workspace == workspace,
    decreases windows.len(),
{
    if windows.len() > 0 {
        let rest = windows.drop_last();
        law_other_windows_share_the_workspace(rest, window_id, workspace);
        let head = other_windows(rest, window_id, workspace);
        let all = other_windows(windows, window_id, workspace);
        let last = windows.last();
        assert(windows[windows.len() - 1] == last);
        assert forall|id: WindowId| #[trigger] all.contains(id) <==> id != window_id && exists|
            i: int,
        |
            0 <= i < windows.len() && (#[trigger] windows[i]).window_id == id
                && windows[i].workspace == workspace by {
            if all.contains(id) {
                let at = choose|at: int| 0 <= at < all.len() && all[at] == id;
                if at < head.len() {
                    assert(head[at] == id);
                    assert(head.contains(id));
                    let i = choose|i: int|
                        0 <= i < rest.len() && (#[trigger] rest[i]).window_id == id
                            && rest[i].workspace == workspace;
                    assert(windows[i] == rest[i]);
                }
            }
            if id != window_id && exists|i: int|
                0 <= i < windows.len() && (#[trigger] windows[i]).window_id == id
                    && windows[i].workspace == workspace {
                let i = choose|i: int|
                    0 <= i < windows.len() && (#[trigger] windows[i]).window_id == id
                        && windows[i].workspace == workspace;
                if i < rest.len() {
                    assert(rest[i] == windows[i]);
                    assert(head.contains(id));
                    let at = choose|at: int| 0 <= at < head.len() && head[at] == id;
                    assert(all[at] == id);
                } else {
                    assert(all[head.len() as int] == id);
                }
            }
        }
    }
}

/// A conditional rename is granted exactly where the window is there, is in the
/// expected workspace and, where it has to be alone there, is alone. Each refusal
/// says which of the three fails first.
pub proof fn law_rename_is_granted_where_the_conditions_hold(
    m: MuxView,
    window_id: WindowId,
    expected: Seq<char>,
    sole: bool,
)
    requires
        m.wf(),
    ensures
        ({
            let refusal = cas_refusal(m, window_id, expected, sole);
            let there = m.has_window(window_id);
            let as_expected = m.window(window_id).workspace == expected;
            let shared = exists|i: int|
                0 <= i < m.windows.len() && (#[trigger] m.windows[i]).window_id != window_id
                    && m.windows[i].workspace == expected;
            &&& refusal is None <==> there && as_expected && !(sole && shared)
            &&& refusal is Some && refusal->0 is NoSuchWindow <==> !there
            &&& refusal is Some && refusal->0 is WorkspaceMismatch <==> there && !as_expected
            &&& refusal is Some && refusal->0 is WorkspaceMismatch ==> refusal->0->actual
                == m.window(window_id).workspace
            &&& refusal is Some && refusal->0 is NotSoleWindow <==> there && as_expected && sole
                && shared
            &&& refusal is Some && refusal->0 is NotSoleWindow ==> forall|id: WindowId| #[trigger]
                refusal->0->other_window_ids.contains(id) <==> id != window_id && exists|i: int|
                    0 <= i < m.windows.len() && (#[trigger] m.windows[i]).window_id == id
                        && m.windows[i].workspace == expected
        }),
{
    law_other_windows_share_the_workspace(m.windows, window_id, expected);
    let others = other_windows(m.windows, window_id, expected);
    let shared = exists|i: int|
        0 <= i < m.windows.len() && (#[trigger] m.windows[i]).window_id != window_id
            && m.windows[i].workspace == expected;
    if others.len() > 0 {
        assert(others.contains(others[0]));
        let i = choose|i: int|
            0 <= i < m.windows.len() && (#[trigger] m.windows[i]).window_id == others[0]
                && m.windows[i].workspace == expected;
        assert(m.windows[i].window_id != window_id);
        assert(shared);
    }
    if shared {
        let i = choose|i: int|
            0 <= i < m.windows.len() && (#[trigger] m.windows[i]).window_id != window_id
                && m.windows[i].workspace == expected;
        assert(others.contains(m.windows[i].window_id));
        assert(others.len() > 0);
    }
}

/// The clients that are told of a rename are exactly those that followed the old
/// workspace.
proof fn lemma_retarget_notices(clients: Seq<ClientView>, workspace: Seq<char>)
    ensures
        forall|e: EffectView| #[trigger]
            retarget_notices(clients, workspace).contains(e) <==> exists|i: int|
                0 <= i < clients.len() && (#[trigger] clients[i]).active_workspace == Some(
                    workspace,
                ) && e == EffectView::Notify(
                    NotificationView::ActiveWorkspaceChanged(clients[i].client_id),
                ),
    decreases clients.len(),
{
    if clients.len() > 0 {
        let rest = clients.drop_last();
        lemma_retarget_notices(rest, workspace);
        let head = retarget_notices(rest, workspace);
        let all = retarget_notices(clients, workspace);
        let last = clients.last();
        assert(clients[clients.len() - 1] == last);
        assert forall|e: EffectView| #[trigger] all.contains(e) <==> exists|i: int|
            0 <= i < clients.len() && (#[trigger] clients[i]).active_workspace == Some(workspace)
                && e == EffectView::Notify(
                NotificationView::ActiveWorkspaceChanged(clients[i].client_id),
            ) by {
            if all.contains(e) {
                let at = choose|at: int| 0 <= at < all.len() && all[at] == e;
                if at < head.len() {
                    assert(head[at] == e);
                    assert(head.contains(e));
                    let i = choose|i: int|
                        0 <= i < rest.len() && (#[trigger] rest[i]).active_workspace == Some(
                            workspace,
                        ) && e == EffectView::Notify(
                            NotificationView::ActiveWorkspaceChanged(rest[i].client_id),
                        );
                    assert(clients[i] == rest[i]);
                }
            }
            if exists|i: int|
                0 <= i < clients.len() && (#[trigger] clients[i]).active_workspace == Some(
                    workspace,
                ) && e == EffectView::Notify(
                    NotificationView::ActiveWorkspaceChanged(clients[i].client_id),
                ) {
                let i = choose|i: int|
                    0 <= i < clients.len() && (#[trigger] clients[i]).active_workspace == Some(
                        workspace,
                    ) && e == EffectView::Notify(
                        NotificationView::ActiveWorkspaceChanged(clients[i].client_id),
                    );
                if i < rest.len() {
                    assert(rest[i] == clients[i]);
                    assert(head.contains(e));
                    let at = choose|at: int| 0 <= at < head.len() && head[at] == e;
                    assert(all[at] == e);
                } else {
                    assert(all[head.len() as int] == e);
                }
            }
        }
    }
}

/// When the only window of a workspace is renamed, every client that followed the
/// workspace follows the new one and is told so; the others stay. Renaming without
/// that condition leaves all clients, and so does a rename to the same name.
pub proof fn law_clients_follow_a_sole_rename(
    m: MuxView,
    window_id: WindowId,
    expected: Seq<char>,
    new_workspace: Seq<char>,
    sole: bool,
)
    requires
        m.wf(),
        cas_refusal(m, window_id, expected, sole) is None,
    ensures
        ({
            let after = cas_state(m, window_id, expected, new_workspace, sole);
            let follows = sole && expected != new_workspace;
            &&& after.clients.len() == m.clients.len()
            &&& forall|i: int|
                0 <= i < m.clients.len() ==> (#[trigger] after.clients[i]) == if follows
                    && m.clients[i].active_workspace == Some(expected) {
                    ClientView { active_workspace: Some(new_workspace), ..m.clients[i] }
                } else {
                    m.clients[i]
                }
            &&& forall|i: int|
                follows && 0 <= i < m.clients.len() && m.clients[i].active_workspace == Some(
                    expected,
                ) ==> after.effects.contains(
                    EffectView::Notify(
                        NotificationView::ActiveWorkspaceChanged(
                            (#[trigger] m.clients[i]).client_id,
                        ),
                    ),
                )
            &&& expected != new_workspace ==> after.effects.len() > m.effects.len()
                && after.effects[m.effects.len() as int] == EffectView::Notify(
                NotificationView::WindowWorkspaceChanged(window_id),
            )
            &&& expected == new_workspace ==> after.effects == m.effects
            &&& after.identity == m.identity
        }),
{
    let after = cas_state(m, window_id, expected, new_workspace, sole);
    lemma_retarget_notices(m.clients, expected);
    if sole && expected != new_workspace {
        let moved = recounted(window_moved(m, window_id, new_workspace));
        let notices = retarget_notices(m.clients, expected);
        assert(after.effects == moved.effects + notices);
        assert forall|i: int|
            0 <= i < m.clients.len() && m.clients[i].active_workspace == Some(
                expected,
            ) implies after.effects.contains(
            EffectView::Notify(
                NotificationView::ActiveWorkspaceChanged((#[trigger] m.clients[i]).client_id),
            ),
        ) by {
            let e = EffectView::Notify(
                NotificationView::ActiveWorkspaceChanged(m.clients[i].client_id),
            );
            assert(notices.contains(e));
            let at = choose|at: int| 0 <= at < notices.len() && notices[at] == e;
            assert(after.effects[moved.effects.len() + at] == e);
        }
    }
}

/// Renaming a workspace takes every window and every client of it along, and
/// leaves all others. It is announced first, and every client that followed it is
/// told. Renaming it to its own name changes nothing.
pub proof fn law_workspace_rename_takes_all_along(
    m: MuxView,
    old_workspace: Seq<char>,
    new_workspace: Seq<char>,
)
    ensures
        ({
            let after = workspace_renamed(m, old_workspace, new_workspace);
            &&& old_workspace == new_workspace ==> after == m
            &&& after.windows.len() == m.windows.len()
            &&& forall|i: int|
                0 <= i < m.windows.len() ==> (#[trigger] after.windows[i])
                    == if m.windows[i].workspace == old_workspace {
                    WindowView { workspace: new_workspace, ..m.windows[i] }
                } else {
                    m.windows[i]
                }
            &&& after.clients.len() == m.clients.len()
            &&& forall|i: int|
                0 <= i < m.clients.len() ==> (#[trigger] after.clients[i])
                    == if m.clients[i].active_workspace == Some(old_workspace) {
                    ClientView { active_workspace: Some(new_workspace), ..m.clients[i] }
                } else {
                    m.clients[i]
                }
            &&& old_workspace != new_workspace ==> after.effects.len() > m.effects.len()
                && after.effects[m.effects.len() as int] == EffectView::Notify(
                NotificationView::WorkspaceRenamed { old_workspace, new_workspace },
            )
            &&& forall|i: int|
                old_workspace != new_workspace && 0 <= i < m.clients.len()
                    && m.clients[i].active_workspace == Some(old_workspace)
                    ==> after.effects.contains(
                    EffectView::Notify(
                        NotificationView::ActiveWorkspaceChanged(
                            (#[trigger] m.clients[i]).client_id,
                        ),
                    ),
                )
            &&& after.tabs == m.tabs
            &&& after.panes == m.panes
        }),
{
    let after = workspace_renamed(m, old_workspace, new_workspace);
    if old_workspace != new_workspace {
        lemma_retarget_notices(m.clients, old_workspace);
        let notices = retarget_notices(m.clients, old_workspace);
        let before = after.effects.take(after.effects.len() - notices.len());
        assert(after.effects =~= before + notices);
        assert forall|i: int|
            0 <= i < m.clients.len() && m.clients[i].active_workspace == Some(
                old_workspace,
            ) implies after.effects.contains(
            EffectView::Notify(
                NotificationView::ActiveWorkspaceChanged((#[trigger] m.clients[i]).client_id),
            ),
        ) by {
            let e = EffectView::Notify(
                NotificationView::ActiveWorkspaceChanged(m.clients[i].client_id),
            );
            assert(notices.contains(e));
            let at = choose|at: int| 0 <= at < notices.len() && notices[at] == e;
            assert(after.effects[before.len() + at] == e);
        }
    } else {
        assert(forall|i: int|
            0 <= i < m.windows.len() && m.windows[i].workspace == old_workspace ==> (
            #[trigger] m.windows[i]) == (WindowView { workspace: new_workspace, ..m.windows[i] }));
    }
}

/// A list of numbers is written with a comma and a space between each two.
pub proof fn law_numbers_are_listed_with_commas(ids: Seq<usize>, last: usize)
    ensures
        listed(Seq::empty()) == Seq::<char>::empty(),
        listed(seq![last]) == decimal(last as nat),
        ids.len() > 0 ==> listed(ids.push(last)) == listed(ids) + ", "@ + decimal(last as nat),
{
    assert(ids.push(last).drop_last() =~= ids);
}

/// The words by which scripts tell the three refusals apart.
pub proof fn law_refusals_have_their_words(actual: Seq<char>, other_window_ids: Seq<WindowId>)
    ensures
        cas_token(CasErrorView::NoSuchWindow) == "no_such_window"@,
        cas_token(CasErrorView::WorkspaceMismatch { actual }) == "workspace_mismatch actual="@
            + debug_quoted(actual),
        cas_token(CasErrorView::NotSoleWindow { other_window_ids })
            == "not_sole_window other_window_ids=["@ + listed(other_window_ids) + "]"@,
{
}

} // verus!
