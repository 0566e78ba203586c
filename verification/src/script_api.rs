//! What scripts ask of the multiplexer: workspaces, domains and new windows and
//! tabs, with the choices that are made before anything is spawned.

use crate::descriptor::{path_text, path_to_descriptor_string, DESCRIPTOR_VERSION};
use crate::domains::{
    domain_with_id, domain_with_name, law_domain_is_found_by_its_name,
    law_domain_is_found_by_its_number,
};
use crate::failure::{debug_quoted, debug_text, DescriptorError, Failure};
use crate::mux::Mux;
use crate::mux_model::{DomainId, MuxView, PaneId, TerminalSize, WindowId};
use crate::mux_ops::{client_follows, current_workspace};
use crate::placement::active_tab;
use crate::private_dir::RUNTIME_DIR;
use crate::process_identity::{join_bytes, joined_bytes};
use crate::recovery::{RecoveryNodeKind, RecoveryRemoveStatus};
use crate::service::Service;
use crate::spawn::{is_workspace, name_is_unused};
use crate::text::optional_string;
use vstd::prelude::*;
use vstd::utf8::encode_utf8;

verus! {

/// The word by which scripts know a kind of node.
pub fn node_kind_name(kind: RecoveryNodeKind) -> (name: &'static str)
    ensures
        name@ == (match kind {
            RecoveryNodeKind::Pane => "pane"@,
            RecoveryNodeKind::Tab => "tab"@,
            RecoveryNodeKind::Window => "window"@,
        }),
{
    match kind {
        RecoveryNodeKind::Pane => "pane",
        RecoveryNodeKind::Tab => "tab",
        RecoveryNodeKind::Window => "window",
    }
}

/// The word by which scripts know how a removal went.
pub fn remove_status_name(status: RecoveryRemoveStatus) -> (name: &'static str)
    ensures
        name@ == (match status {
            RecoveryRemoveStatus::Removed => "removed"@,
            RecoveryRemoveStatus::NotFound => "not_found"@,
            RecoveryRemoveStatus::ParentMismatch => "parent_mismatch"@,
            RecoveryRemoveStatus::PostconditionFailed => "postcondition_failed"@,
            RecoveryRemoveStatus::Disabled => "disabled"@,
        }),
{
    match status {
        RecoveryRemoveStatus::Removed => "removed",
        RecoveryRemoveStatus::NotFound => "not_found",
        RecoveryRemoveStatus::ParentMismatch => "parent_mismatch",
        RecoveryRemoveStatus::PostconditionFailed => "postcondition_failed",
        RecoveryRemoveStatus::Disabled => "disabled",
    }
}

/// Lets the current identity follow a workspace, which must have a window.
pub fn follow_existing_workspace(mux: &mut Mux, workspace: &str) -> (result: Result<(), String>)
    requires
        old(mux).wf(),
    ensures
        final(mux).wf(),
        match result {
            Ok(()) => is_workspace(old(mux)@, workspace@) && final(mux)@ == (
            match old(mux)@.identity {
                Some(client_id) => client_follows(old(mux)@, client_id, workspace@),
                None => old(mux)@,
            }),
            Err(reason) => !is_workspace(old(mux)@, workspace@) && final(mux)@ == old(mux)@
                && reason@ == debug_quoted(workspace@) + " is not an existing workspace"@,
        },
{
    let names = mux.iter_workspaces();
    if name_is_unused(&names, workspace) {
        return Err(debug_text(workspace).concat(" is not an existing workspace"));
    }
    mux.set_active_workspace(workspace);
    Ok(())
}

/// How a script names a domain.
#[derive(Debug)]
pub enum DomainKey {
    /// Not at all: the default one is meant.
    Default,
    Name(String),
    /// A name that cannot be read, with the reason.
    Unreadable(String),
    Number(i64),
    /// By something that names no domain.
    Other,
}

/// The domain that a script names, if there is one.
pub open spec fn named_domain(m: MuxView, key: DomainKey) -> Result<Option<DomainId>, Seq<char>> {
    match key {
        DomainKey::Default => Ok(Some(m.default_domain->0.domain_id)),
        DomainKey::Name(name) => match domain_with_name(m.domains_by_name, name@) {
            Some(domain) => Ok(Some(domain.domain_id)),
            None => Ok(None),
        },
        DomainKey::Unreadable(reason) => Err(
            "invalid domain identifier passed to mux.get_domain: "@ + reason@,
        ),
        DomainKey::Number(id) => if id < 0 || id > usize::MAX {
            Err(
                "invalid domain identifier passed to mux.get_domain: "@
                    + "out of range integral type conversion attempted"@,
            )
        } else {
            match domain_with_id(m.domains, id as usize) {
                Some(domain) => Ok(Some(domain.domain_id)),
                None => Ok(None),
            }
        },
        DomainKey::Other => Err("invalid domain identifier passed to mux.get_domain"@),
    }
}

/// Looks up the domain that a script names.
pub fn find_domain(mux: &Mux, key: &DomainKey) -> (result: Result<Option<DomainId>, String>)
    requires
        *key is Default ==> mux@.default_domain is Some,
    ensures
        match result {
            Ok(found) => named_domain(mux@, *key) == Ok::<Option<DomainId>, Seq<char>>(found),
            Err(reason) => named_domain(mux@, *key) == Err::<Option<DomainId>, Seq<char>>(reason@),
        },
{
    match key {
        DomainKey::Default => Ok(Some(mux.default_domain().domain_id)),
        DomainKey::Name(name) => match mux.get_domain_by_name(name.as_str()) {
            Some(domain) => Ok(Some(domain.domain_id)),
            None => Ok(None),
        },
        DomainKey::Unreadable(reason) => Err(
            "invalid domain identifier passed to mux.get_domain: ".to_owned().concat(
                reason.as_str(),
            ),
        ),
        DomainKey::Number(id) => {
            if *id < 0 || *id as u64 > usize::MAX as u64 {
                return Err(
                    "invalid domain identifier passed to mux.get_domain: ".to_owned().concat(
                        "out of range integral type conversion attempted",
                    ),
                );
            }
            match mux.get_domain(*id as usize) {
                Some(domain) => Ok(Some(domain.domain_id)),
                None => Ok(None),
            }
        },
        DomainKey::Other => Err("invalid domain identifier passed to mux.get_domain".to_owned()),
    }
}

/// What a script asks to run: a command line, a directory, and variables to
/// set.
#[derive(Debug)]
pub struct CommandBuilderFrag {
    pub args: Option<Vec<String>>,
    pub cwd: Option<String>,
    pub set_environment_variables: Vec<(String, String)>,
}

/// A command to run.
#[derive(Debug)]
pub struct CommandPlan {
    pub args: Vec<String>,
    pub cwd: Option<String>,
    pub set_environment_variables: Vec<(String, String)>,
}

impl CommandBuilderFrag {
    /// The command to run, which takes the directory and the variables with it;
    /// or, without one, the directory in which the default program starts.
    pub fn to_command_builder(self) -> (plan: (Option<CommandPlan>, Option<String>))
        ensures
            match self.args {
                Some(args) => plan.1 is None && plan.0 == Some(
                    CommandPlan {
                        args,
                        cwd: self.cwd,
                        set_environment_variables: self.set_environment_variables,
                    },
                ),
                None => plan.0 is None && plan.1 == self.cwd,
            },
    {
        match self.args {
            Some(args) => (
                Some(
                    CommandPlan {
                        args,
                        cwd: self.cwd,
                        set_environment_variables: self.set_environment_variables,
                    },
                ),
                None,
            ),
            None => (None, self.cwd),
        }
    }
}

/// The size of a new window: the one that was asked for in full, or the
/// configured one.
pub fn window_size(width: Option<usize>, height: Option<usize>, configured: TerminalSize) -> (size:
    TerminalSize)
    ensures
        size == (match (width, height) {
            (Some(cols), Some(rows)) => TerminalSize {
                rows,
                cols,
                pixel_width: 0,
                pixel_height: 0,
                dpi: 0,
            },
            _ => configured,
        }),
{
    match (width, height) {
        (Some(cols), Some(rows)) => TerminalSize {
            rows,
            cols,
            pixel_width: 0,
            pixel_height: 0,
            dpi: 0,
        },
        _ => configured,
    }
}

/// The workspace of a new window: the one that was asked for, or the one in
/// effect.
pub fn window_workspace(mux: &Mux, workspace: Option<String>) -> (chosen: String)
    requires
        mux.wf(),
    ensures
        chosen@ == (match optional_string(workspace) {
            Some(workspace) => workspace,
            None => current_workspace(mux@),
        }),
{
    match workspace {
        Some(workspace) => workspace,
        None => mux.active_workspace(),
    }
}

/// The size of a new tab in a window and the pane that it starts from: the size
/// of the window's first tab or the configured one, and the active pane of the
/// window's active tab.
pub open spec fn tab_start(m: MuxView, window_id: WindowId, configured: TerminalSize) -> (
    TerminalSize,
    Option<PaneId>,
) {
    let window = m.window(window_id);
    let size = if window.tabs.len() > 0 {
        m.tab(window.tabs[0]).size
    } else {
        configured
    };
    let pane = match active_tab(window) {
        Some(tab) => m.tab(tab).active_pane,
        None => None,
    };
    (size, pane)
}

/// Chooses the size of a new tab in a window and the pane that it starts from,
/// if there is such a window.
pub fn plan_tab(mux: &Mux, window_id: WindowId, configured: TerminalSize) -> (plan: Option<
    (TerminalSize, Option<PaneId>),
>)
    requires
        mux.wf(),
    ensures
        plan == if mux@.has_window(window_id) {
            Some(tab_start(mux@, window_id, configured))
        } else {
            None
        },
{
    let window = match mux.get_window(window_id) {
        Some(window) => window,
        None => {
            return None;
        },
    };
    let size = if window.tabs.len() > 0 {
        match mux.tab_place(window.tabs[0]) {
            Some(place) => mux.tabs[place].size,
            None => configured,
        }
    } else {
        configured
    };
    let pane = match mux.get_active_tab_for_window(window_id) {
        Some(tab_id) => match mux.tab_place(tab_id) {
            Some(place) => mux.tabs[place].active_pane,
            None => None,
        },
        None => None,
    };
    Some((size, pane))
}

/// Where the service runs, as the configuration is told.
#[derive(Debug)]
pub struct ServiceLocation {
    pub runtime_dir: String,
    pub socket_path: String,
    pub api_version: u32,
}

/// The texts of the two paths of a service, or why one is no text.
pub open spec fn location_of(service: Service) -> Result<(Seq<char>, Seq<char>), Failure> {
    match path_text(joined_bytes(service.base.bytes@, encode_utf8(RUNTIME_DIR@))) {
        Err(refusal) => Err(refusal),
        Ok(runtime) => match path_text(service.socket.bytes@) {
            Err(refusal) => Err(refusal),
            Ok(socket) => Ok((runtime, socket)),
        },
    }
}

/// Says where the service runs.
pub fn service_location(service: &Service) -> (result: Result<ServiceLocation, DescriptorError>)
    ensures
        match (result, location_of(*service)) {
            (Ok(location), Ok((runtime, socket))) => location.runtime_dir@ == runtime
                && location.socket_path@ == socket && location.api_version == DESCRIPTOR_VERSION,
            (Err(error), Err(refusal)) => error@ == refusal,
            _ => false,
        },
{
    let runtime = join_bytes(service.base.bytes.as_slice(), RUNTIME_DIR.as_bytes());
    let runtime_dir = path_to_descriptor_string(runtime.as_slice())?;
    let socket_path = path_to_descriptor_string(service.socket.bytes.as_slice())?;
    Ok(ServiceLocation { runtime_dir, socket_path, api_version: DESCRIPTOR_VERSION })
}

/// A domain is found by its name or its number exactly where there is one, and what
/// is found has that name or that number. Without a key it is the default domain. A
/// key that is neither, or a number that is none of a domain, is an error.
pub proof fn law_script_finds_the_named_domain(m: MuxView, key: DomainKey)
    ensures
        match key {
            DomainKey::Default => m.default_domain is Some ==> named_domain(m, key) == Ok::<
                Option<DomainId>,
                Seq<char>,
            >(Some(m.default_domain->0.domain_id)),
            DomainKey::Name(name) => {
                &&& named_domain(m, key) is Ok
                &&& named_domain(m, key)->Ok_0 is Some <==> exists|i: int|
                    0 <= i < m.domains_by_name.len() && (#[trigger] m.domains_by_name[i]).name
                        == name@
                &&& named_domain(m, key)->Ok_0 matches Some(id) ==> exists|i: int|
                    0 <= i < m.domains_by_name.len() && (#[trigger] m.domains_by_name[i]).name
                        == name@ && m.domains_by_name[i].domain_id == id
            },
            DomainKey::Number(id) => {
                &&& named_domain(m, key) is Ok <==> 0 <= id <= usize::MAX
                &&& named_domain(m, key) matches Ok(found) ==> found == if exists|i: int|
                    0 <= i < m.domains.len() && (#[trigger] m.domains[i]).domain_id == id {
                    Some(id as usize)
                } else {
                    None
                }
            },
            _ => named_domain(m, key) is Err,
        },
{
    match key {
        DomainKey::Name(name) => {
            law_domain_is_found_by_its_name(m.domains_by_name, name@);
            if let Some(found) = domain_with_name(m.domains_by_name, name@) {
                let i = choose|i: int|
                    0 <= i < m.domains_by_name.len() && m.domains_by_name[i] == found;
                assert(m.domains_by_name[i].name == name@);
            }
        },
        DomainKey::Number(id) => {
            if 0 <= id <= usize::MAX {
                law_domain_is_found_by_its_number(m.domains, id as usize);
            }
        },
        _ => {},
    }
}

/// A tab that a script opens has the size of the first tab of its window, or the
/// configured one where there is none, and starts from the active pane of the
/// active tab.
pub proof fn law_script_tab_starts_like_its_window(
    m: MuxView,
    window_id: WindowId,
    configured: TerminalSize,
)
    ensures
        ({
            let window = m.window(window_id);
            let (size, pane) = tab_start(m, window_id, configured);
            &&& window.tabs.len() == 0 ==> size == configured && pane is None
            &&& window.tabs.len() > 0 ==> size == m.tab(window.tabs[0]).size
            &&& window.active < window.tabs.len() ==> pane == m.tab(
                window.tabs[window.active as int],
            ).active_pane
            &&& window.active >= window.tabs.len() ==> pane is None
        }),
{
}

/// The service is located by its runtime directory below the base and by the path
/// of its socket, exactly where both can be written as text.
pub proof fn law_service_is_located_below_its_base(service: Service)
    ensures
        ({
            let runtime = joined_bytes(service.base.bytes@, encode_utf8(RUNTIME_DIR@));
            let socket = service.socket.bytes@;
            &&& location_of(service) is Ok <==> path_text(runtime) is Ok && path_text(socket) is Ok
            &&& location_of(service) matches Ok((dir, path)) ==> path_text(runtime) == Ok::<
                Seq<char>,
                Failure,
            >(dir) && path_text(socket) == Ok::<Seq<char>, Failure>(path)
        }),
{
}

} // verus!
