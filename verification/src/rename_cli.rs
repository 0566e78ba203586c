//! The command that renames a workspace, unconditionally or only if a window is
//! in the expected one.

use crate::failure::{debug_quoted, debug_text};
use crate::mux_model::{PaneId, WindowId};
use crate::text::{decimal, decimal_text};
use crate::workspace::{list_text, listed};
use vstd::prelude::*;

verus! {

/// The command line of the command, parsed.
#[derive(Debug)]
pub struct RenameWorkspace {
    pub workspace: Option<String>,
    pub pane_id: Option<PaneId>,
    pub window_id: Option<WindowId>,
    pub if_workspace: Option<String>,
    pub if_sole_window: bool,
    pub new_workspace: String,
}

/// What the command first asks of the server.
#[derive(Debug)]
pub enum RenameStart {
    /// A conditional rename of one window.
    RenameIf {
        window_id: WindowId,
        expected_workspace: String,
        new_workspace: String,
        expect_sole_window: bool,
    },
    /// The panes, to find the workspace of one of them if it was not named.
    ListPanes { workspace: Option<String>, pane_id: Option<PaneId>, new_workspace: String },
}

impl RenameWorkspace {
    /// Whether the options go together: the conditions with the window, the
    /// window with its expected workspace and without the options of the
    /// unconditional rename.
    pub open spec fn wf(self) -> bool {
        &&& self.window_id is Some ==> self.if_workspace is Some && self.workspace is None
            && self.pane_id is None
        &&& self.window_id is None ==> self.if_workspace is None && !self.if_sole_window
    }

    /// Whether the options go together.
    pub fn consistent(&self) -> (yes: bool)
        ensures
            yes == self.wf(),
    {
        if self.window_id.is_some() {
            self.if_workspace.is_some() && self.workspace.is_none() && self.pane_id.is_none()
        } else {
            self.if_workspace.is_none() && !self.if_sole_window
        }
    }

    /// What the command first asks of the server.
    pub fn start(self) -> (start: RenameStart)
        requires
            self.window_id is Some ==> self.if_workspace is Some,
        ensures
            match (self.window_id, start) {
                (
                    Some(id),
                    RenameStart::RenameIf {
                        window_id,
                        expected_workspace,
                        new_workspace,
                        expect_sole_window,
                    },
                ) => window_id == id && Some(expected_workspace) == self.if_workspace
                    && new_workspace == self.new_workspace && expect_sole_window
                    == self.if_sole_window,
                (
                    None,
                    RenameStart::ListPanes { workspace, pane_id, new_workspace },
                ) => workspace == self.workspace && pane_id == self.pane_id && new_workspace
                    == self.new_workspace,
                _ => false,
            },
    {
        match (self.window_id, self.if_workspace) {
            (Some(window_id), Some(expected_workspace)) => RenameStart::RenameIf {
                window_id,
                expected_workspace,
                new_workspace: self.new_workspace,
                expect_sole_window: self.if_sole_window,
            },
            _ => RenameStart::ListPanes {
                workspace: self.workspace,
                pane_id: self.pane_id,
                new_workspace: self.new_workspace,
            },
        }
    }
}

/// What the server answers to a conditional rename.
#[derive(Debug)]
pub enum RenameWorkspaceCasOutcome {
    Renamed,
    NoSuchWindow,
    WorkspaceMismatch { actual: String },
    NotSoleWindow { other_window_ids: Vec<WindowId> },
}

/// How the command fails on an answer, if it does.
pub open spec fn outcome_error(window_id: WindowId, outcome: RenameWorkspaceCasOutcome) -> Option<
    Seq<char>,
> {
    match outcome {
        RenameWorkspaceCasOutcome::Renamed => None,
        RenameWorkspaceCasOutcome::NoSuchWindow => Some(
            "rename-workspace-if failed: no_such_window window_id="@ + decimal(window_id as nat),
        ),
        RenameWorkspaceCasOutcome::WorkspaceMismatch { actual } => Some(
            "rename-workspace-if failed: workspace_mismatch window_id="@ + decimal(
                window_id as nat,
            ) + " actual="@ + debug_quoted(actual@),
        ),
        RenameWorkspaceCasOutcome::NotSoleWindow { other_window_ids } => Some(
            "rename-workspace-if failed: not_sole_window window_id="@ + decimal(window_id as nat)
                + " other_window_ids=["@ + listed(other_window_ids@) + "]"@,
        ),
    }
}

/// Ends the command with the server's answer to a conditional rename.
pub fn report_outcome(window_id: WindowId, outcome: &RenameWorkspaceCasOutcome) -> (result: Result<
    (),
    String,
>)
    ensures
        match result {
            Ok(()) => outcome_error(window_id, *outcome) is None,
            Err(text) => outcome_error(window_id, *outcome) == Some(text@),
        },
{
    let id = decimal_text(window_id as u64);
    match outcome {
        RenameWorkspaceCasOutcome::Renamed => Ok(()),
        RenameWorkspaceCasOutcome::NoSuchWindow => Err(
            "rename-workspace-if failed: no_such_window window_id=".to_owned().concat(id.as_str()),
        ),
        RenameWorkspaceCasOutcome::WorkspaceMismatch { actual } => Err(
            "rename-workspace-if failed: workspace_mismatch window_id=".to_owned().concat(
                id.as_str(),
            ).concat(" actual=").concat(debug_text(actual.as_str()).as_str()),
        ),
        RenameWorkspaceCasOutcome::NotSoleWindow { other_window_ids } => Err(
            "rename-workspace-if failed: not_sole_window window_id=".to_owned().concat(
                id.as_str(),
            ).concat(" other_window_ids=[").concat(list_text(other_window_ids).as_str()).concat(
                "]",
            ),
        ),
    }
}

/// The workspace that a row of panes gives last for a pane.
pub open spec fn workspace_of(panes: Seq<(PaneId, String)>, pane_id: PaneId) -> Option<Seq<char>>
    decreases panes.len(),
{
    if panes.len() == 0 {
        None
    } else if panes.last().0 == pane_id {
        Some(panes.last().1@)
    } else {
        workspace_of(panes.drop_last(), pane_id)
    }
}

/// The workspace to rename: that of the resolved pane.
pub fn current_workspace(panes: &Vec<(PaneId, String)>, pane_id: PaneId) -> (result: Result<
    String,
    &'static str,
>)
    ensures
        match result {
            Ok(workspace) => workspace_of(panes@, pane_id) == Some(workspace@),
            Err(reason) => workspace_of(panes@, pane_id) is None && reason@
                == "unable to resolve current workspace"@,
        },
{
    let mut i: usize = panes.len();
    assert(panes@.take(i as int) =~= panes@);
    while i > 0
        invariant
            i <= panes@.len(),
            workspace_of(panes@, pane_id) == workspace_of(panes@.take(i as int), pane_id),
        decreases i,
    {
        i -= 1;
        assert(panes@.take(i + 1).drop_last() =~= panes@.take(i as int));
        assert(panes@.take(i + 1).last() == panes@[i as int]);
        if panes[i].0 == pane_id {
            return Ok(panes[i].1.clone());
        }
    }
    Err("unable to resolve current workspace")
}

/// The workspace of a pane is that of the last entry with its number, and is found
/// exactly where there is one.
pub proof fn law_workspace_is_that_of_the_pane(panes: Seq<(PaneId, String)>, pane_id: PaneId)
    ensures
        workspace_of(panes, pane_id) is Some <==> exists|i: int|
            0 <= i < panes.len() && (#[trigger] panes[i]).0 == pane_id,
        workspace_of(panes, pane_id) matches Some(workspace) ==> exists|i: int|
            0 <= i < panes.len() && (#[trigger] panes[i]).0 == pane_id && panes[i].1@ == workspace
                && forall|k: int| i < k < panes.len() ==> (#[trigger] panes[k]).0 != pane_id,
    decreases panes.len(),
{
    if panes.len() > 0 {
        let rest = panes.drop_last();
        law_workspace_is_that_of_the_pane(rest, pane_id);
        assert(panes[panes.len() - 1] == panes.last());
        assert(forall|i: int| 0 <= i < rest.len() ==> (#[trigger] rest[i]) == panes[i]);
        if panes.last().0 != pane_id {
            if exists|i: int| 0 <= i < panes.len() && (#[trigger] panes[i]).0 == pane_id {
                let i = choose|i: int| 0 <= i < panes.len() && (#[trigger] panes[i]).0 == pane_id;
                assert(rest[i].0 == pane_id);
            }
            if workspace_of(rest, pane_id) is Some {
                let workspace = workspace_of(rest, pane_id)->0;
                let i = choose|i: int|
                    0 <= i < rest.len() && (#[trigger] rest[i]).0 == pane_id && rest[i].1@
                        == workspace && forall|k: int|
                        i < k < rest.len() ==> (#[trigger] rest[k]).0 != pane_id;
                assert(panes[i].0 == pane_id);
                assert forall|k: int| i < k < panes.len() implies (#[trigger] panes[k]).0
                    != pane_id by {
                    if k < rest.len() {
                        assert(rest[k].0 != pane_id);
                    }
                }
            }
        }
    }
}

/// Only a rename that took place ends without an error.
pub proof fn law_only_a_rename_is_no_error(
    window_id: WindowId,
    outcome: RenameWorkspaceCasOutcome,
)
    ensures
        outcome_error(window_id, outcome) is None <==> outcome is Renamed,
{
}

} // verus!
