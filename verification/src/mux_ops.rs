//! Clients, identity, domains, and how panes, tabs and windows come in.

use crate::mux::{
    lemma_filter_keeps_all, lemma_remove_is_filter, notified, optional_domain, pane_location,
    with_effect, Mux,
};
use crate::mux_model::{
    client_ids, tab_ids, views, ClientId, ClientInfo, ClientView, ClipboardSelection, Domain,
    DomainId, DomainView, EffectView, MuxEffect, MuxNotification, MuxView, NotificationView, PaneId,
    TabId, WindowId, DEFAULT_WORKSPACE,
};
use crate::text::optional_string;
use crate::text_set::TextSet;
use vstd::prelude::*;

verus! {

/// The state of a multiplexer that was just made.
pub open spec fn fresh(
    default_domain: Option<DomainView>,
    has_agent: bool,
    default_workspace: Option<Seq<char>>,
) -> MuxView {
    let domains = match default_domain {
        Some(domain) => seq![domain],
        None => Seq::empty(),
    };
    MuxView {
        windows: Seq::empty(),
        tabs: Seq::empty(),
        panes: Seq::empty(),
        domains,
        domains_by_name: domains,
        default_domain,
        clients: Seq::empty(),
        identity: None,
        occupied: Set::empty(),
        banner: None,
        default_workspace,
        has_agent,
        activity: 0,
        effects: Seq::empty(),
    }
}

/// Copies a domain.
pub fn copy_domain(domain: &Domain) -> (copy: Domain)
    ensures
        copy@ == domain@,
{
    Domain {
        domain_id: domain.domain_id,
        name: domain.name.clone(),
        detachable: domain.detachable,
    }
}

/// Copies what is known of a client.
pub fn copy_client(client: &ClientInfo) -> (copy: ClientInfo)
    ensures
        copy@ == client@,
{
    let active_workspace = match &client.active_workspace {
        Some(workspace) => Some(workspace.clone()),
        None => None,
    };
    ClientInfo {
        client_id: client.client_id,
        active_workspace,
        focused_pane_id: client.focused_pane_id,
    }
}

/// The state after a client had input: the time is noted if the client is
/// attached, and the agent, if there is one, looks for its target again.
pub open spec fn input_noted(m: MuxView, client_id: ClientId) -> MuxView {
    let stamped = if m.has_client(client_id) {
        with_effect(m, EffectView::StampInput(client_id))
    } else {
        m
    };
    if m.has_agent {
        with_effect(stamped, EffectView::UpdateAgentTarget)
    } else {
        stamped
    }
}

/// The workspace that a client follows, or the configured one where it follows
/// none.
pub open spec fn workspace_of_client(m: MuxView, client_id: ClientId) -> Seq<char> {
    if m.has_client(client_id) && m.client(client_id).active_workspace is Some {
        m.client(client_id).active_workspace->0
    } else {
        configured_workspace(m)
    }
}

/// The configured workspace, or the default one.
pub open spec fn configured_workspace(m: MuxView) -> Seq<char> {
    match m.default_workspace {
        Some(name) => name,
        None => DEFAULT_WORKSPACE@,
    }
}

/// The workspace of the current identity.
pub open spec fn current_workspace(m: MuxView) -> Seq<char> {
    match m.identity {
        Some(client_id) => workspace_of_client(m, client_id),
        None => configured_workspace(m),
    }
}

/// The state with one client changed.
pub open spec fn with_client(m: MuxView, client_id: ClientId, client: ClientView) -> MuxView {
    MuxView {
        clients: m.clients.update(client_ids(m.clients).index_of(client_id), client),
        ..m
    }
}

/// The state with a client following a workspace, if the client is attached.
pub open spec fn client_follows(m: MuxView, client_id: ClientId, workspace: Seq<char>) -> MuxView {
    if m.has_client(client_id) {
        notified(
            with_client(
                m,
                client_id,
                ClientView { active_workspace: Some(workspace), ..m.client(client_id) },
            ),
            NotificationView::ActiveWorkspaceChanged(client_id),
        )
    } else {
        m
    }
}

/// The state with a client's focus on a pane. The panes that lose and gain it
/// are told, if they are known and it moved.
pub open spec fn client_focuses(m: MuxView, client_id: ClientId, pane_id: PaneId) -> MuxView {
    let prior = if m.has_client(client_id) {
        m.client(client_id).focused_pane_id
    } else {
        None
    };
    let recorded = if m.has_client(client_id) {
        with_client(
            m,
            client_id,
            ClientView { focused_pane_id: Some(pane_id), ..m.client(client_id) },
        )
    } else {
        m
    };
    if prior == Some(pane_id) {
        recorded
    } else {
        let left = if prior is Some && m.has_pane(prior->0) {
            with_effect(
                recorded,
                EffectView::FocusChanged { pane_id: prior->0, focused: false },
            )
        } else {
            recorded
        };
        if m.has_pane(pane_id) {
            with_effect(left, EffectView::FocusChanged { pane_id, focused: true })
        } else {
            left
        }
    }
}

/// Changing a client but not its number keeps the state well formed.
pub proof fn lemma_with_client_wf(m: MuxView, client_id: ClientId, client: ClientView)
    requires
        m.wf(),
        m.has_client(client_id),
        client.client_id == client_id,
    ensures
        with_client(m, client_id, client).wf(),
{
    let ids = client_ids(m.clients);
    assert(ids[ids.index_of(client_id)] == client_id);
    assert(client_ids(with_client(m, client_id, client).clients) =~= ids);
    let after = with_client(m, client_id, client);
    assert forall|i: int, k: int|
        0 <= i < after.windows.len() && 0 <= k < after.windows[i].tabs.len() implies tab_ids(
        after.tabs,
    ).contains(#[trigger] after.windows[i].tabs[k]) by {
        assert(tab_ids(m.tabs).contains(m.windows[i].tabs[k]));
    }
}

/// States that differ only in clients with the same rules, domains, effects and
/// settings are well formed together.
pub proof fn lemma_rest_wf(before: MuxView, after: MuxView)
    requires
        before.wf(),
        after.windows == before.windows,
        after.tabs == before.tabs,
        after.panes == before.panes,
        client_ids(after.clients).no_duplicates(),
    ensures
        after.wf(),
{
    assert forall|i: int, k: int|
        0 <= i < after.windows.len() && 0 <= k < after.windows[i].tabs.len() implies tab_ids(
        after.tabs,
    ).contains(#[trigger] after.windows[i].tabs[k]) by {
        assert(tab_ids(before.tabs).contains(before.windows[i].tabs[k]));
    }
}

impl Mux {
    /// A multiplexer with at most one domain, and nothing in it.
    pub fn new(
        default_domain: Option<Domain>,
        has_agent: bool,
        default_workspace: Option<String>,
    ) -> (mux: Self)
        ensures
            mux@ == fresh(
                optional_domain(default_domain),
                has_agent,
                optional_string(default_workspace),
            ),
            mux.wf(),
    {
        let mut domains: Vec<Domain> = Vec::new();
        let mut domains_by_name: Vec<Domain> = Vec::new();
        match &default_domain {
            Some(domain) => {
                domains.push(copy_domain(domain));
                domains_by_name.push(copy_domain(domain));
            },
            None => {},
        }
        let mux = Mux {
            windows: Vec::new(),
            tabs: Vec::new(),
            panes: Vec::new(),
            domains,
            domains_by_name,
            default_domain,
            clients: Vec::new(),
            identity: None,
            occupied: TextSet::new(),
            banner: None,
            default_workspace,
            has_agent,
            activity: 0,
            effects: Vec::new(),
        };
        assert(mux@ =~= fresh(
            optional_domain(default_domain),
            has_agent,
            optional_string(default_workspace),
        ));
        mux
    }

    /// The place of a client among the clients.
    pub fn client_place(&self, client_id: ClientId) -> (place: Option<usize>)
        requires
            self.wf(),
        ensures
            match place {
                Some(i) => i < self.clients@.len() && self@.has_client(client_id) && i
                    == client_ids(self@.clients).index_of(client_id) && self.clients@[i as int]@
                    == self@.client(client_id) && self.clients@[i as int].client_id == client_id,
                None => !self@.has_client(client_id),
            },
    {
        let ghost ids = client_ids(self@.clients);
        let mut i: usize = 0;
        while i < self.clients.len()
            invariant
                i <= self.clients@.len(),
                self.wf(),
                ids == client_ids(self@.clients),
                forall|k: int| 0 <= k < i ==> ids[k] != client_id,
            decreases self.clients@.len() - i,
        {
            assert(ids[i as int] == self.clients@[i as int].client_id);
            if self.clients[i].client_id == client_id {
                assert(ids.contains(client_id));
                assert(ids[ids.index_of(client_id)] == client_id);
                return Some(i);
            }
            i += 1;
        }
        None
    }

    /// The configured workspace, or the default one.
    pub fn get_default_workspace(&self) -> (workspace: String)
        ensures
            workspace@ == configured_workspace(self@),
    {
        match &self.default_workspace {
            Some(name) => name.clone(),
            None => DEFAULT_WORKSPACE.to_owned(),
        }
    }

    /// The workspace that a client follows.
    pub fn active_workspace_for_client(&self, client_id: ClientId) -> (workspace: String)
        requires
            self.wf(),
        ensures
            workspace@ == workspace_of_client(self@, client_id),
    {
        match self.client_place(client_id) {
            Some(place) => match &self.clients[place].active_workspace {
                Some(name) => name.clone(),
                None => self.get_default_workspace(),
            },
            None => self.get_default_workspace(),
        }
    }

    /// The workspace that is in effect.
    pub fn active_workspace(&self) -> (workspace: String)
        requires
            self.wf(),
        ensures
            workspace@ == current_workspace(self@),
    {
        match self.identity {
            Some(client_id) => self.active_workspace_for_client(client_id),
            None => self.get_default_workspace(),
        }
    }

    /// Lets a client follow a workspace.
    pub fn set_active_workspace_for_client(&mut self, client_id: ClientId, workspace: &str)
        requires
            old(self).wf(),
        ensures
            final(self).wf(),
            final(self)@ == client_follows(old(self)@, client_id, workspace@),
    {
        match self.client_place(client_id) {
            Some(place) => {
                let ghost before = self@;
                self.clients[place].active_workspace = Some(workspace.to_owned());
                proof {
                    let client = ClientView {
                        active_workspace: Some(workspace@),
                        ..before.client(client_id)
                    };
                    assert(self@.clients =~= before.clients.update(place as int, client));
                    assert(self@ =~= with_client(before, client_id, client));
                    lemma_with_client_wf(before, client_id, client);
                }
                self.notify(MuxNotification::ActiveWorkspaceChanged(client_id));
            },
            None => {},
        }
    }

    /// Lets the current identity follow a workspace.
    pub fn set_active_workspace(&mut self, workspace: &str)
        requires
            old(self).wf(),
        ensures
            final(self).wf(),
            final(self)@ == match old(self)@.identity {
                Some(client_id) => client_follows(old(self)@, client_id, workspace@),
                None => old(self)@,
            },
    {
        match self.identity {
            Some(client_id) => self.set_active_workspace_for_client(client_id, workspace),
            None => {},
        }
    }

    /// Passes on what a pane puts on a clipboard.
    pub fn assign_clipboard(
        &mut self,
        pane_id: PaneId,
        selection: ClipboardSelection,
        clipboard: Option<String>,
    )
        ensures
            final(self)@ == notified(
                old(self)@,
                NotificationView::AssignClipboard {
                    pane_id,
                    selection,
                    clipboard: optional_string(clipboard),
                },
            ),
            old(self).wf() ==> final(self).wf(),
    {
        self.notify(MuxNotification::AssignClipboard { pane_id, selection, clipboard });
    }

    /// Passes on a file that a pane sends.
    pub fn save_to_downloads(&mut self, name: Option<String>, data: Vec<u8>)
        ensures
            final(self)@ == notified(
                old(self)@,
                NotificationView::SaveToDownloads { name: optional_string(name), data: data@ },
            ),
            old(self).wf() ==> final(self).wf(),
    {
        self.notify(MuxNotification::SaveToDownloads { name, data });
    }

    /// Notes that a client had input: the time of it, if the client is attached,
    /// and the agent's target.
    pub fn client_had_input(&mut self, client_id: ClientId)
        requires
            old(self).wf(),
        ensures
            final(self).wf(),
            final(self)@ == input_noted(old(self)@, client_id),
    {
        if self.client_place(client_id).is_some() {
            self.push_effect(MuxEffect::StampInput(client_id));
        }
        if self.has_agent {
            self.push_effect(MuxEffect::UpdateAgentTarget);
        }
    }

    /// Notes that the current identity had input.
    pub fn record_input_for_current_identity(&mut self)
        requires
            old(self).wf(),
        ensures
            final(self).wf(),
            final(self)@ == match old(self)@.identity {
                Some(client_id) => input_noted(old(self)@, client_id),
                None => old(self)@,
            },
    {
        match self.identity {
            Some(client_id) => self.client_had_input(client_id),
            None => {},
        }
    }

    /// Where the pane is that a client has the focus on.
    pub fn resolve_focused_pane(&self, client_id: ClientId) -> (location: Option<
        (DomainId, WindowId, TabId, PaneId),
    >)
        requires
            self.wf(),
        ensures
            location == if self@.has_client(client_id) && self@.client(client_id).focused_pane_id
                is Some {
                let pane_id = self@.client(client_id).focused_pane_id->0;
                match pane_location(self@, pane_id) {
                    Some((domain_id, window_id, tab_id)) => Some(
                        (domain_id, window_id, tab_id, pane_id),
                    ),
                    None => None,
                }
            } else {
                None
            },
    {
        match self.client_place(client_id) {
            Some(place) => match self.clients[place].focused_pane_id {
                Some(pane_id) => match self.resolve_pane_id(pane_id) {
                    Some((domain_id, window_id, tab_id)) => Some(
                        (domain_id, window_id, tab_id, pane_id),
                    ),
                    None => None,
                },
                None => None,
            },
            None => None,
        }
    }

    /// Puts a client's focus on a pane.
    pub fn record_focus_for_client(&mut self, client_id: ClientId, pane_id: PaneId)
        requires
            old(self).wf(),
        ensures
            final(self).wf(),
            final(self)@ == client_focuses(old(self)@, client_id, pane_id),
    {
        let ghost before = self@;
        let mut prior: Option<PaneId> = None;
        match self.client_place(client_id) {
            Some(place) => {
                prior = self.clients[place].focused_pane_id;
                self.clients[place].focused_pane_id = Some(pane_id);
                proof {
                    let client = ClientView {
                        focused_pane_id: Some(pane_id),
                        ..before.client(client_id)
                    };
                    assert(self@.clients =~= before.clients.update(place as int, client));
                    assert(self@ =~= with_client(before, client_id, client));
                    lemma_with_client_wf(before, client_id, client);
                }
            },
            None => {},
        }
        match prior {
            Some(prior_id) => {
                if prior_id == pane_id {
                    return;
                }
                if self.pane_place(prior_id).is_some() {
                    self.push_effect(MuxEffect::FocusChanged { pane_id: prior_id, focused: false });
                }
            },
            None => {},
        }
        if self.pane_place(pane_id).is_some() {
            self.push_effect(MuxEffect::FocusChanged { pane_id, focused: true });
        }
    }

    /// Puts the focus of the current identity on a pane.
    pub fn record_focus_for_current_identity(&mut self, pane_id: PaneId)
        requires
            old(self).wf(),
        ensures
            final(self).wf(),
            final(self)@ == match old(self)@.identity {
                Some(client_id) => client_focuses(old(self)@, client_id, pane_id),
                None => old(self)@,
            },
    {
        match self.identity {
            Some(client_id) => self.record_focus_for_client(client_id, pane_id),
            None => {},
        }
    }
}

/// A client that was just attached.
pub open spec fn new_client(client_id: ClientId) -> ClientView {
    ClientView { client_id, active_workspace: None, focused_pane_id: None }
}

/// The clients without one.
pub open spec fn clients_without(clients: Seq<ClientView>, client_id: ClientId) -> Seq<ClientView> {
    clients.filter(|c: ClientView| c.client_id != client_id)
}

/// Keeping all clients but one keeps their numbers distinct, and drops that one.
proof fn lemma_clients_without(clients: Seq<ClientView>, client_id: ClientId)
    requires
        client_ids(clients).no_duplicates(),
    ensures
        client_ids(clients_without(clients, client_id)).no_duplicates(),
        !client_ids(clients_without(clients, client_id)).contains(client_id),
        client_ids(clients).contains(client_id) ==> clients_without(clients, client_id)
            == clients.remove(client_ids(clients).index_of(client_id)),
        !client_ids(clients).contains(client_id) ==> clients_without(clients, client_id)
            == clients,
{
    let ids = client_ids(clients);
    let keep = |c: ClientView| c.client_id != client_id;
    if ids.contains(client_id) {
        let at = ids.index_of(client_id);
        assert(ids[at] == client_id);
        assert forall|i: int| 0 <= i < clients.len() && i != at implies keep(
            #[trigger] clients[i],
        ) by {
            assert(ids[i] != ids[at]);
        }
        lemma_remove_is_filter(clients, at, keep);
        assert(client_ids(clients.remove(at)) =~= ids.remove(at));
        assert(!ids.remove(at).contains(client_id)) by {
            if ids.remove(at).contains(client_id) {
                let k = choose|k: int|
                    0 <= k < ids.remove(at).len() && ids.remove(at)[k] == client_id;
                if k < at {
                    assert(ids[k] == ids[at]);
                } else {
                    assert(ids[k + 1] == ids[at]);
                }
            }
        }
    } else {
        assert forall|i: int| 0 <= i < clients.len() implies keep(#[trigger] clients[i]) by {
            assert(ids[i] == clients[i].client_id);
            assert(ids.contains(ids[i]));
        }
        lemma_filter_keeps_all(clients, keep);
    }
}

/// The state with an identity in effect.
pub open spec fn identified(m: MuxView, id: Option<ClientId>) -> MuxView {
    MuxView { identity: id, ..m }
}

/// Restores the identity that was in effect before.
pub struct IdentityHolder {
    prior: Option<ClientId>,
}

impl IdentityHolder {
    /// The identity that is restored.
    pub closed spec fn prior(self) -> Option<ClientId> {
        self.prior
    }

    /// Puts the earlier identity back.
    pub fn restore(self, mux: &mut Mux)
        ensures
            final(mux)@ == identified(old(mux)@, self.prior()),
            old(mux).wf() ==> final(mux).wf(),
    {
        let replaced = mux.replace_identity(self.prior);
    }
}

impl Mux {
    /// Attaches a client, anew if it was attached.
    pub fn register_client(&mut self, client_id: ClientId)
        requires
            old(self).wf(),
        ensures
            final(self).wf(),
            final(self)@ == (MuxView {
                clients: clients_without(old(self)@.clients, client_id).push(new_client(client_id)),
                ..old(self)@
            }),
    {
        let ghost before = self@;
        self.unregister_client(client_id);
        proof {
            lemma_clients_without(before.clients, client_id);
        }
        let ghost rest = self@.clients;
        self.clients.push(
            ClientInfo { client_id, active_workspace: None, focused_pane_id: None },
        );
        proof {
            assert(self@.clients =~= rest.push(new_client(client_id)));
            assert(client_ids(self@.clients) =~= client_ids(rest).push(client_id));
            lemma_rest_wf(before, self@);
        }
    }

    /// Detaches a client.
    pub fn unregister_client(&mut self, client_id: ClientId)
        requires
            old(self).wf(),
        ensures
            final(self).wf(),
            final(self)@ == (MuxView {
                clients: clients_without(old(self)@.clients, client_id),
                ..old(self)@
            }),
    {
        let ghost before = self@;
        proof {
            lemma_clients_without(before.clients, client_id);
        }
        match self.client_place(client_id) {
            Some(place) => {
                let removed = self.clients.remove(place);
                proof {
                    assert(self@.clients =~= before.clients.remove(place as int));
                    lemma_rest_wf(before, self@);
                }
            },
            None => {},
        }
    }

    /// The attached clients, each with what is known of it.
    pub fn iter_clients(&self) -> (clients: Vec<ClientInfo>)
        ensures
            views(clients@) == self@.clients,
    {
        let mut clients: Vec<ClientInfo> = Vec::new();
        let mut i: usize = 0;
        while i < self.clients.len()
            invariant
                i <= self.clients@.len(),
                views(clients@) == self@.clients.take(i as int),
            decreases self.clients@.len() - i,
        {
            let info = copy_client(&self.clients[i]);
            let ghost before = clients@;
            clients.push(info);
            assert(views(clients@) =~= views(before).push(info@));
            assert(self@.clients[i as int] == self.clients@[i as int]@);
            i += 1;
            assert(views(clients@) =~= self@.clients.take(i as int));
        }
        assert(self@.clients.take(i as int) =~= self@.clients);
        clients
    }

    /// Replaces the identity, and returns the earlier one.
    pub fn replace_identity(&mut self, id: Option<ClientId>) -> (prior: Option<ClientId>)
        ensures
            prior == old(self)@.identity,
            final(self)@ == identified(old(self)@, id),
            old(self).wf() ==> final(self).wf(),
    {
        let prior = self.identity;
        self.identity = id;
        proof {
            if old(self).wf() {
                lemma_rest_wf(old(self)@, self@);
            }
        }
        prior
    }

    /// The identity that is in effect.
    pub fn active_identity(&self) -> (id: Option<ClientId>)
        ensures
            id == self@.identity,
    {
        self.identity
    }

    /// Puts an identity in effect until the holder restores the earlier one.
    pub fn with_identity(&mut self, id: Option<ClientId>) -> (holder: IdentityHolder)
        ensures
            holder.prior() == old(self)@.identity,
            final(self)@ == identified(old(self)@, id),
            old(self).wf() ==> final(self).wf(),
    {
        let prior = self.replace_identity(id);
        IdentityHolder { prior }
    }

    /// Sets what new panes show first.
    pub fn set_banner(&mut self, banner: Option<String>)
        ensures
            final(self)@ == (MuxView { banner: optional_string(banner), ..old(self)@ }),
            old(self).wf() ==> final(self).wf(),
    {
        self.banner = banner;
        proof {
            if old(self).wf() {
                lemma_rest_wf(old(self)@, self@);
            }
        }
    }
}

/// An identity that is put in effect and restored leaves the state as it was.
pub proof fn law_restored_identity_leaves_no_trace(m: MuxView, id: Option<ClientId>)
    ensures
        identified(identified(m, id), m.identity) == m,
{
}

/// A new multiplexer has no window, tab, pane or client. Its domain is the default
/// one, and is found by its number and by its name.
pub proof fn law_new_multiplexer_is_empty(
    default_domain: Option<DomainView>,
    has_agent: bool,
    default_workspace: Option<Seq<char>>,
)
    ensures
        ({
            let m = fresh(default_domain, has_agent, default_workspace);
            &&& m.wf()
            &&& m.windows.len() == 0 && m.tabs.len() == 0 && m.panes.len() == 0
            &&& m.clients.len() == 0 && m.identity is None
            &&& m.default_domain == default_domain
            &&& default_domain matches Some(domain) ==> m.domains == seq![domain]
                && m.domains_by_name == seq![domain]
            &&& default_domain is None ==> m.domains.len() == 0 && m.domains_by_name.len() == 0
            &&& m.has_agent == has_agent
            &&& m.default_workspace == default_workspace
            &&& m.effects.len() == 0 && m.activity == 0
            &&& forall|workspace: Seq<char>| !#[trigger] m.occupied.contains(workspace)
        }),
{
}

} // verus!
