//! The domains of the multiplexer, and the choice of one to spawn in.

use crate::mux::{pane_location, Mux};
use crate::mux_model::{
    domain_ids, views, Domain, DomainId, DomainView, MuxView, PaneId, SpawnDomainView,
    SpawnTabDomain,
};
use crate::mux_ops::{copy_domain, lemma_rest_wf};
use crate::text::{decimal, decimal_text, optional_string, same_text};
use vstd::prelude::*;
use vstd::utf8::*;

verus! {

/// The last domain with this number.
pub open spec fn domain_with_id(domains: Seq<DomainView>, domain_id: DomainId) -> Option<DomainView>
    decreases domains.len(),
{
    if domains.len() == 0 {
        None
    } else if domains.last().domain_id == domain_id {
        Some(domains.last())
    } else {
        domain_with_id(domains.drop_last(), domain_id)
    }
}

/// The last domain with this name.
pub open spec fn domain_with_name(domains: Seq<DomainView>, name: Seq<char>) -> Option<DomainView>
    decreases domains.len(),
{
    if domains.len() == 0 {
        None
    } else if domains.last().name == name {
        Some(domains.last())
    } else {
        domain_with_name(domains.drop_last(), name)
    }
}

/// The domains without those of one number.
pub open spec fn domains_without_id(
    domains: Seq<DomainView>,
    domain_id: DomainId,
) -> Seq<DomainView> {
    domains.filter(|d: DomainView| d.domain_id != domain_id)
}

/// The domains without those of one name.
pub open spec fn domains_without_name(
    domains: Seq<DomainView>,
    name: Seq<char>,
) -> Seq<DomainView> {
    domains.filter(|d: DomainView| d.name != name)
}

/// The state with one more domain. The first one becomes the default.
pub open spec fn domain_added(m: MuxView, domain: DomainView) -> MuxView {
    MuxView {
        default_domain: if m.default_domain is None {
            Some(domain)
        } else {
            m.default_domain
        },
        domains: domains_without_id(m.domains, domain.domain_id).push(domain),
        domains_by_name: domains_without_name(m.domains_by_name, domain.name).push(domain),
        ..m
    }
}

/// The names of a row of domains, in quotes, with commas between them.
pub open spec fn quoted_names(domains: Seq<DomainView>) -> Seq<char>
    decreases domains.len(),
{
    if domains.len() == 0 {
        Seq::empty()
    } else {
        let quoted = "\""@ + domains.last().name + "\""@;
        if domains.len() == 1 {
            quoted
        } else {
            quoted_names(domains.drop_last()) + ", "@ + quoted
        }
    }
}

/// The domain in which a tab is spawned, or the reason why there is none. The
/// result is open where the multiplexer has no default domain, or not the
/// domain of one of its panes.
pub open spec fn spawn_domain(
    m: MuxView,
    pane_id: Option<PaneId>,
    domain: SpawnDomainView,
) -> Result<DomainView, Seq<char>> {
    match domain {
        SpawnDomainView::DefaultDomain => Ok(m.default_domain->0),
        SpawnDomainView::CurrentPaneDomain => match pane_id {
            Some(pane_id) => match pane_location(m, pane_id) {
                Some((domain_id, _, _)) => Ok(domain_with_id(m.domains, domain_id)->0),
                None => Err("pane_id "@ + decimal(pane_id as nat) + " invalid"@),
            },
            None => Ok(m.default_domain->0),
        },
        SpawnDomainView::DomainId(domain_id) => match domain_with_id(m.domains, domain_id) {
            Some(domain) => Ok(domain),
            None => Err("domain id "@ + decimal(domain_id as nat) + " is invalid"@),
        },
        SpawnDomainView::DomainName(name) => match domain_with_name(m.domains_by_name, name) {
            Some(domain) => Ok(domain),
            None => Err(
                "domain name \""@ + name + "\" is invalid. Possible names are "@ + quoted_names(
                    m.domains_by_name,
                ) + "."@,
            ),
        },
    }
}

/// Whether the multiplexer has the domain that a choice rests on: a default
/// domain, or the domain of the current pane.
pub open spec fn spawn_domain_present(
    m: MuxView,
    pane_id: Option<PaneId>,
    domain: SpawnDomainView,
) -> bool {
    match domain {
        SpawnDomainView::DefaultDomain => m.default_domain is Some,
        SpawnDomainView::CurrentPaneDomain => match pane_id {
            Some(pane_id) => match pane_location(m, pane_id) {
                Some((domain_id, _, _)) => domain_with_id(m.domains, domain_id) is Some,
                None => true,
            },
            None => m.default_domain is Some,
        },
        _ => true,
    }
}

fn find_by_id<'a>(domains: &'a Vec<Domain>, domain_id: DomainId) -> (domain: Option<&'a Domain>)
    ensures
        match domain {
            Some(domain) => domain_with_id(views(domains@), domain_id) == Some(domain@),
            None => domain_with_id(views(domains@), domain_id) is None,
        },
{
    let ghost all = views(domains@);
    let mut i: usize = domains.len();
    assert(all.take(i as int) =~= all);
    while i > 0
        invariant
            i <= domains@.len(),
            all == views(domains@),
            domain_with_id(all, domain_id) == domain_with_id(all.take(i as int), domain_id),
        decreases i,
    {
        i -= 1;
        assert(all.take(i + 1).drop_last() =~= all.take(i as int));
        assert(all.take(i + 1).last() == domains@[i as int]@);
        if domains[i].domain_id == domain_id {
            return Some(&domains[i]);
        }
    }
    None
}

fn find_by_name<'a>(domains: &'a Vec<Domain>, name: &str) -> (domain: Option<&'a Domain>)
    ensures
        match domain {
            Some(domain) => domain_with_name(views(domains@), name@) == Some(domain@),
            None => domain_with_name(views(domains@), name@) is None,
        },
{
    let ghost all = views(domains@);
    let mut i: usize = domains.len();
    assert(all.take(i as int) =~= all);
    while i > 0
        invariant
            i <= domains@.len(),
            all == views(domains@),
            domain_with_name(all, name@) == domain_with_name(all.take(i as int), name@),
        decreases i,
    {
        i -= 1;
        assert(all.take(i + 1).drop_last() =~= all.take(i as int));
        assert(all.take(i + 1).last() == domains@[i as int]@);
        if same_text(domains[i].name.as_str(), name) {
            return Some(&domains[i]);
        }
    }
    None
}

fn names_text(domains: &Vec<Domain>) -> (text: String)
    ensures
        text@ == quoted_names(views(domains@)),
{
    let ghost all = views(domains@);
    let mut text = String::new();
    let mut i: usize = 0;
    assert(text@ =~= Seq::<char>::empty());
    assert(all.take(0) =~= Seq::empty());
    while i < domains.len()
        invariant
            i <= domains@.len(),
            all == views(domains@),
            text@ == quoted_names(all.take(i as int)),
        decreases domains@.len() - i,
    {
        assert(all.take(i + 1).drop_last() =~= all.take(i as int));
        assert(all.take(i + 1).last() == domains@[i as int]@);
        let quoted = "\"".to_owned().concat(domains[i].name.as_str()).concat("\"");
        if i == 0 {
            text = quoted;
        } else {
            text = text.concat(", ").concat(quoted.as_str());
        }
        i += 1;
    }
    assert(all.take(i as int) =~= all);
    text
}

impl Mux {
    /// The domain with this number.
    pub fn get_domain(&self, domain_id: DomainId) -> (domain: Option<&Domain>)
        ensures
            match domain {
                Some(domain) => domain_with_id(self@.domains, domain_id) == Some(domain@),
                None => domain_with_id(self@.domains, domain_id) is None,
            },
    {
        find_by_id(&self.domains, domain_id)
    }

    /// The numbers of the domains.
    pub fn iter_domains(&self) -> (ids: Vec<DomainId>)
        ensures
            ids@ == domain_ids(self@.domains),
    {
        let mut ids: Vec<DomainId> = Vec::new();
        let mut i: usize = 0;
        while i < self.domains.len()
            invariant
                i <= self.domains@.len(),
                ids@ == domain_ids(self@.domains).take(i as int),
            decreases self.domains@.len() - i,
        {
            ids.push(self.domains[i].domain_id);
            assert(ids@ =~= domain_ids(self@.domains).take(i + 1));
            i += 1;
        }
        assert(ids@ =~= domain_ids(self@.domains));
        ids
    }

    /// The domain with this name.
    pub fn get_domain_by_name(&self, name: &str) -> (domain: Option<&Domain>)
        ensures
            match domain {
                Some(domain) => domain_with_name(self@.domains_by_name, name@) == Some(domain@),
                None => domain_with_name(self@.domains_by_name, name@) is None,
            },
    {
        find_by_name(&self.domains_by_name, name)
    }

    /// The domain in which tabs are spawned by default.
    pub fn default_domain(&self) -> (domain: &Domain)
        requires
            self@.default_domain is Some,
        ensures
            Some(domain@) == self@.default_domain,
    {
        self.default_domain.as_ref().unwrap()
    }

    /// Makes a domain the default one.
    pub fn set_default_domain(&mut self, domain: &Domain)
        ensures
            final(self)@ == (MuxView { default_domain: Some(domain@), ..old(self)@ }),
            old(self).wf() ==> final(self).wf(),
    {
        self.default_domain = Some(copy_domain(domain));
        proof {
            if old(self).wf() {
                lemma_rest_wf(old(self)@, self@);
            }
        }
    }

    /// Adds a domain, in place of an earlier one with the same number or name.
    pub fn add_domain(&mut self, domain: &Domain)
        ensures
            final(self)@ == domain_added(old(self)@, domain@),
            old(self).wf() ==> final(self).wf(),
    {
        let ghost before = self@;
        if self.default_domain.is_none() {
            self.default_domain = Some(copy_domain(domain));
        }
        let ghost keep = |d: DomainView| d.domain_id != domain.domain_id;
        let mut kept: Vec<Domain> = Vec::new();
        let mut i: usize = 0;
        proof {
            reveal(Seq::filter);
            assert(views(kept@) =~= before.domains.take(0).filter(keep));
        }
        while i < self.domains.len()
            invariant
                i <= self.domains@.len(),
                before.domains == views(self.domains@),
                keep == (|d: DomainView| d.domain_id != domain.domain_id),
                views(kept@) == before.domains.take(i as int).filter(keep),
            decreases self.domains@.len() - i,
        {
            proof {
                reveal(Seq::filter);
                assert(before.domains.take(i + 1).drop_last() =~= before.domains.take(i as int));
                assert(before.domains.take(i + 1).last() == self.domains@[i as int]@);
            }
            if self.domains[i].domain_id != domain.domain_id {
                let ghost earlier = kept@;
                kept.push(copy_domain(&self.domains[i]));
                assert(views(kept@) =~= views(earlier).push(self.domains@[i as int]@));
            }
            i += 1;
        }
        assert(before.domains.take(i as int) =~= before.domains);
        let ghost rest = kept@;
        kept.push(copy_domain(domain));
        assert(views(kept@) =~= views(rest).push(domain@));
        self.domains = kept;
        let ghost keep = |d: DomainView| d.name != domain.name@;
        let mut kept: Vec<Domain> = Vec::new();
        let mut i: usize = 0;
        proof {
            reveal(Seq::filter);
            assert(views(kept@) =~= before.domains_by_name.take(0).filter(keep));
        }
        while i < self.domains_by_name.len()
            invariant
                i <= self.domains_by_name@.len(),
                before.domains_by_name == views(self.domains_by_name@),
                keep == (|d: DomainView| d.name != domain.name@),
                views(kept@) == before.domains_by_name.take(i as int).filter(keep),
            decreases self.domains_by_name@.len() - i,
        {
            proof {
                reveal(Seq::filter);
                assert(before.domains_by_name.take(i + 1).drop_last()
                    =~= before.domains_by_name.take(i as int));
                assert(before.domains_by_name.take(i + 1).last()
                    == self.domains_by_name@[i as int]@);
            }
            if !same_text(self.domains_by_name[i].name.as_str(), domain.name.as_str()) {
                let ghost earlier = kept@;
                kept.push(copy_domain(&self.domains_by_name[i]));
                assert(views(kept@) =~= views(earlier).push(self.domains_by_name@[i as int]@));
            }
            i += 1;
        }
        assert(before.domains_by_name.take(i as int) =~= before.domains_by_name);
        let ghost rest = kept@;
        kept.push(copy_domain(domain));
        assert(views(kept@) =~= views(rest).push(domain@));
        self.domains_by_name = kept;
        assert(self@ =~= domain_added(before, domain@));
        proof {
            if old(self).wf() {
                lemma_rest_wf(old(self)@, self@);
            }
        }
    }

    /// Chooses the domain to spawn in.
    pub fn resolve_spawn_tab_domain(
        &self,
        pane_id: Option<PaneId>,
        domain: &SpawnTabDomain,
    ) -> (result: Result<&Domain, String>)
        requires
            self.wf(),
            spawn_domain_present(self@, pane_id, domain@),
        ensures
            match result {
                Ok(chosen) => spawn_domain(self@, pane_id, domain@) == Ok::<
                    DomainView,
                    Seq<char>,
                >(chosen@),
                Err(reason) => spawn_domain(self@, pane_id, domain@) == Err::<
                    DomainView,
                    Seq<char>,
                >(reason@),
            },
    {
        match domain {
            SpawnTabDomain::DefaultDomain => Ok(self.default_domain()),
            SpawnTabDomain::CurrentPaneDomain => match pane_id {
                Some(pane_id) => match self.resolve_pane_id(pane_id) {
                    Some((domain_id, _, _)) => Ok(self.get_domain(domain_id).unwrap()),
                    None => Err(
                        "pane_id ".to_owned().concat(decimal_text(pane_id as u64).as_str()).concat(
                            " invalid",
                        ),
                    ),
                },
                None => Ok(self.default_domain()),
            },
            SpawnTabDomain::DomainId(domain_id) => match self.get_domain(*domain_id) {
                Some(domain) => Ok(domain),
                None => Err(
                    "domain id ".to_owned().concat(decimal_text(*domain_id as u64).as_str()).concat(
                        " is invalid",
                    ),
                ),
            },
            SpawnTabDomain::DomainName(name) => match self.get_domain_by_name(name.as_str()) {
                Some(domain) => Ok(domain),
                None => Err(
                    "domain name \"".to_owned().concat(name.as_str()).concat(
                        "\" is invalid. Possible names are ",
                    ).concat(names_text(&self.domains_by_name).as_str()).concat("."),
                ),
            },
        }
    }
}

/// An added domain is found by its number and by its name.
pub proof fn law_added_domain_is_found(m: MuxView, domain: DomainView)
    ensures
        domain_with_id(domain_added(m, domain).domains, domain.domain_id) == Some(domain),
        domain_with_name(domain_added(m, domain).domains_by_name, domain.name) == Some(domain),
        m.default_domain is None ==> domain_added(m, domain).default_domain == Some(domain),
{
}

/// A domain is found by its number exactly where one has it, and what is found
/// has it.
pub proof fn law_domain_is_found_by_its_number(domains: Seq<DomainView>, domain_id: DomainId)
    ensures
        domain_with_id(domains, domain_id) is Some <==> exists|i: int|
            0 <= i < domains.len() && (#[trigger] domains[i]).domain_id == domain_id,
        domain_with_id(domains, domain_id) matches Some(found) ==> found.domain_id == domain_id
            && domains.contains(found),
    decreases domains.len(),
{
    if domains.len() > 0 {
        let rest = domains.drop_last();
        assert(domains[domains.len() - 1] == domains.last());
        law_domain_is_found_by_its_number(rest, domain_id);
        assert forall|i: int| 0 <= i < rest.len() implies rest[i] == domains[i] by {}
        if domains.last().domain_id != domain_id {
            if exists|i: int|
                0 <= i < domains.len() && (#[trigger] domains[i]).domain_id == domain_id {
                let i = choose|i: int|
                    0 <= i < domains.len() && (#[trigger] domains[i]).domain_id == domain_id;
                assert(rest[i].domain_id == domain_id);
            }
            if domain_with_id(rest, domain_id) is Some {
                let i = choose|i: int|
                    0 <= i < rest.len() && (#[trigger] rest[i]).domain_id == domain_id;
                assert(domains[i].domain_id == domain_id);
                let found = domain_with_id(rest, domain_id)->0;
                let k = choose|k: int| 0 <= k < rest.len() && rest[k] == found;
                assert(domains[k] == found);
            }
        }
    }
}

/// A domain is found by its name exactly where one has it, and what is found has
/// it.
pub proof fn law_domain_is_found_by_its_name(domains: Seq<DomainView>, name: Seq<char>)
    ensures
        domain_with_name(domains, name) is Some <==> exists|i: int|
            0 <= i < domains.len() && (#[trigger] domains[i]).name == name,
        domain_with_name(domains, name) matches Some(found) ==> found.name == name
            && domains.contains(found),
    decreases domains.len(),
{
    if domains.len() > 0 {
        let rest = domains.drop_last();
        assert(domains[domains.len() - 1] == domains.last());
        law_domain_is_found_by_its_name(rest, name);
        assert forall|i: int| 0 <= i < rest.len() implies rest[i] == domains[i] by {}
        if domains.last().name != name {
            if exists|i: int| 0 <= i < domains.len() && (#[trigger] domains[i]).name == name {
                let i = choose|i: int|
                    0 <= i < domains.len() && (#[trigger] domains[i]).name == name;
                assert(rest[i].name == name);
            }
            if domain_with_name(rest, name) is Some {
                let i = choose|i: int| 0 <= i < rest.len() && (#[trigger] rest[i]).name == name;
                assert(domains[i].name == name);
                let found = domain_with_name(rest, name)->0;
                let k = choose|k: int| 0 <= k < rest.len() && rest[k] == found;
                assert(domains[k] == found);
            }
        }
    }
}

/// Where the domain of the current pane is asked for and the pane is found, the
/// chosen domain is the one of the multiplexer's domains that has the number of
/// the pane's domain, whatever the default domain is. A pane that is not found is
/// an error.
pub proof fn law_current_pane_decides_the_domain(m: MuxView, pane_id: PaneId)
    requires
        pane_location(m, pane_id) matches Some(place) ==> exists|i: int|
            0 <= i < m.domains.len() && (#[trigger] m.domains[i]).domain_id == place.0,
    ensures
        spawn_domain_present(m, Some(pane_id), SpawnDomainView::CurrentPaneDomain),
        ({
            let chosen = spawn_domain(m, Some(pane_id), SpawnDomainView::CurrentPaneDomain);
            &&& chosen is Ok <==> pane_location(m, pane_id) is Some
            &&& pane_location(m, pane_id) matches Some(place) ==> chosen->Ok_0.domain_id == place.0
                && m.domains.contains(chosen->Ok_0)
        }),
{
    if let Some(place) = pane_location(m, pane_id) {
        law_domain_is_found_by_its_number(m.domains, place.0);
    }
}

/// The default domain is chosen where it is asked for, and where the domain of
/// the current pane is asked for without a pane.
pub proof fn law_default_domain_is_chosen(m: MuxView, pane_id: Option<PaneId>)
    requires
        m.default_domain is Some,
    ensures
        spawn_domain(m, pane_id, SpawnDomainView::DefaultDomain) == Ok::<DomainView, Seq<char>>(
            m.default_domain->0,
        ),
        spawn_domain(m, None, SpawnDomainView::CurrentPaneDomain) == Ok::<DomainView, Seq<char>>(
            m.default_domain->0,
        ),
{
}

/// A domain that is asked for by its number or its name is chosen where there is
/// one, whatever the pane and the default domain are, and is an error where there
/// is none.
pub proof fn law_named_domain_is_chosen(
    m: MuxView,
    pane_id: Option<PaneId>,
    domain_id: DomainId,
    name: Seq<char>,
)
    ensures
        ({
            let by_id = spawn_domain(m, pane_id, SpawnDomainView::DomainId(domain_id));
            &&& by_id is Ok <==> exists|i: int|
                0 <= i < m.domains.len() && (#[trigger] m.domains[i]).domain_id == domain_id
            &&& by_id is Ok ==> by_id->Ok_0.domain_id == domain_id && m.domains.contains(
                by_id->Ok_0,
            )
        }),
        ({
            let by_name = spawn_domain(m, pane_id, SpawnDomainView::DomainName(name));
            &&& by_name is Ok <==> exists|i: int|
                0 <= i < m.domains_by_name.len() && (#[trigger] m.domains_by_name[i]).name == name
            &&& by_name is Ok ==> by_name->Ok_0.name == name && m.domains_by_name.contains(
                by_name->Ok_0,
            )
        }),
{
    law_domain_is_found_by_its_number(m.domains, domain_id);
    law_domain_is_found_by_its_name(m.domains_by_name, name);
}

/// Adding a domain keeps the default domain that there is, every domain of
/// another number, and every one of another name.
pub proof fn law_adding_a_domain_keeps_the_others(
    m: MuxView,
    domain: DomainView,
    other: DomainId,
    name: Seq<char>,
)
    requires
        other != domain.domain_id,
        name != domain.name,
    ensures
        m.default_domain is Some ==> domain_added(m, domain).default_domain == m.default_domain,
        domain_with_id(domain_added(m, domain).domains, other) == domain_with_id(m.domains, other),
        domain_with_name(domain_added(m, domain).domains_by_name, name) == domain_with_name(
            m.domains_by_name,
            name,
        ),
        domain_added(m, domain).windows == m.windows,
        domain_added(m, domain).tabs == m.tabs,
        domain_added(m, domain).panes == m.panes,
{
    lemma_kept_by_id(m.domains, domain.domain_id, other);
    lemma_kept_by_name(m.domains_by_name, domain.name, name);
    let by_id = domains_without_id(m.domains, domain.domain_id);
    let by_name = domains_without_name(m.domains_by_name, domain.name);
    assert(by_id.push(domain).drop_last() =~= by_id);
    assert(by_name.push(domain).drop_last() =~= by_name);
}

proof fn lemma_kept_by_id(domains: Seq<DomainView>, domain_id: DomainId, other: DomainId)
    requires
        other != domain_id,
    ensures
        domain_with_id(domains_without_id(domains, domain_id), other) == domain_with_id(
            domains,
            other,
        ),
    decreases domains.len(),
{
    reveal(Seq::filter);
    if domains.len() > 0 {
        lemma_kept_by_id(domains.drop_last(), domain_id, other);
        let rest = domains_without_id(domains.drop_last(), domain_id);
        assert(rest.push(domains.last()).drop_last() =~= rest);
    }
}

proof fn lemma_kept_by_name(domains: Seq<DomainView>, name: Seq<char>, other: Seq<char>)
    requires
        other != name,
    ensures
        domain_with_name(domains_without_name(domains, name), other) == domain_with_name(
            domains,
            other,
        ),
    decreases domains.len(),
{
    reveal(Seq::filter);
    if domains.len() > 0 {
        lemma_kept_by_name(domains.drop_last(), name, other);
        let rest = domains_without_name(domains.drop_last(), name);
        assert(rest.push(domains.last()).drop_last() =~= rest);
    }
}

/// The value of a hexadecimal digit, in either case.
pub open spec fn hex_digit(byte: u8) -> Option<int> {
    if 48 <= byte <= 57 {
        Some(byte - 48)
    } else if 65 <= byte <= 70 {
        Some(byte - 55)
    } else if 97 <= byte <= 102 {
        Some(byte - 87)
    } else {
        None
    }
}

/// Bytes with every percent sign that two hexadecimal digits follow replaced,
/// together with these, by the byte that they write.
pub open spec fn percent_bytes(bytes: Seq<u8>) -> Seq<u8>
    decreases bytes.len(),
{
    if bytes.len() == 0 {
        Seq::empty()
    } else if bytes[0] == 37 && bytes.len() >= 3 && hex_digit(bytes[1]) is Some && hex_digit(
        bytes[2],
    ) is Some {
        seq![(hex_digit(bytes[1])->0 * 16 + hex_digit(bytes[2])->0) as u8] + percent_bytes(
            bytes.skip(3),
        )
    } else {
        seq![bytes[0]] + percent_bytes(bytes.skip(1))
    }
}

/// What percent-decoding a path gives, where that is UTF-8.
pub open spec fn percent_decoded(path: Seq<char>) -> Option<Seq<char>> {
    let bytes = percent_bytes(encode_utf8(path));
    if valid_utf8(bytes) {
        Some(decode_utf8(bytes))
    } else {
        None
    }
}

/// Decodes a path with `percent_encoding::percent_decode_str` and
/// `PercentDecode::decode_utf8`. Every percent sign that two hexadecimal digits
/// follow is decoded, and there is no result where that is no UTF-8.
#[verifier::external_body]
pub(crate) fn percent_decode(path: &str) -> (decoded: Option<String>)
    ensures
        optional_string(decoded) == percent_decoded(path@),
{
    percent_encoding::percent_decode_str(path).decode_utf8().ok().map(|text| text.into_owned())
}

/// A decoded path without the slash that stands before a drive letter.
pub open spec fn without_drive_slash(path: Seq<char>) -> Seq<char> {
    let bytes = encode_utf8(path);
    if bytes.len() > 2 && bytes[0] == 47 && bytes[2] == 58 {
        path.skip(1)
    } else {
        path
    }
}

/// Takes away the slash before a drive letter.
pub fn strip_drive_slash(path: String) -> (stripped: String)
    ensures
        stripped@ == without_drive_slash(path@),
{
    let bytes = path.as_str().as_bytes();
    if bytes.len() > 2 && bytes[0] == 47 && bytes[2] == 58 {
        proof {
            if path@.len() == 0 {
                assert(encode_utf8(path@).len() == 0);
            }
        }
        let len: usize = path.as_str().unicode_len();
        let rest = path.as_str().substring_char(1, len);
        assert(rest@ =~= path@.skip(1));
        rest.to_owned()
    } else {
        path
    }
}

/// A pane's working directory, as the path of its URL, and its domain.
pub struct PaneDirectory {
    pub domain_id: DomainId,
    pub url_path: Option<String>,
}

/// The directory in which a command is spawned: the requested one, else that of
/// the pane, if the pane is in the target domain and its path can be decoded.
pub open spec fn spawn_directory(
    command_dir: Option<Seq<char>>,
    pane_domain: Option<DomainId>,
    decoded: Option<Seq<char>>,
    target_domain: DomainId,
) -> Option<Seq<char>> {
    match command_dir {
        Some(dir) => Some(dir),
        None => if pane_domain == Some(target_domain) && decoded is Some {
            Some(without_drive_slash(decoded->0))
        } else {
            None
        },
    }
}

/// What decoding the directory of an optional pane gives.
pub open spec fn decoded_directory(pane: Option<PaneDirectory>) -> Option<Seq<char>> {
    match pane {
        Some(pane) => match pane.url_path {
            Some(path) => percent_decoded(path@),
            None => None,
        },
        None => None,
    }
}

/// The domain of an optional pane.
pub open spec fn directory_domain(pane: Option<PaneDirectory>) -> Option<DomainId> {
    match pane {
        Some(pane) => Some(pane.domain_id),
        None => None,
    }
}

/// Chooses the directory in which a command is spawned, after the pane's path
/// was decoded.
pub fn choose_directory(
    command_dir: Option<String>,
    pane_domain: Option<DomainId>,
    decoded: Option<String>,
    target_domain: DomainId,
) -> (dir: Option<String>)
    ensures
        optional_string(dir) == spawn_directory(
            optional_string(command_dir),
            pane_domain,
            optional_string(decoded),
            target_domain,
        ),
{
    match command_dir {
        Some(dir) => Some(dir),
        None => match (pane_domain, decoded) {
            (Some(domain_id), Some(path)) => {
                if domain_id == target_domain {
                    Some(strip_drive_slash(path))
                } else {
                    None
                }
            },
            _ => None,
        },
    }
}

/// Chooses the directory in which a command is spawned.
pub fn resolve_cwd(
    command_dir: Option<String>,
    pane: Option<PaneDirectory>,
    target_domain: DomainId,
) -> (dir: Option<String>)
    ensures
        optional_string(dir) == spawn_directory(
            optional_string(command_dir),
            directory_domain(pane),
            decoded_directory(pane),
            target_domain,
        ),
{
    match pane {
        Some(pane) => {
            let decoded = match &pane.url_path {
                Some(path) => percent_decode(path.as_str()),
                None => None,
            };
            choose_directory(command_dir, Some(pane.domain_id), decoded, target_domain)
        },
        None => choose_directory(command_dir, None, None, target_domain),
    }
}

/// A requested directory is taken as it is. Without one, a command starts in the
/// pane's directory exactly where the pane is in the target domain and its path
/// can be decoded, and otherwise nowhere in particular.
pub proof fn law_directory_of_another_domain_is_not_used(
    command_dir: Option<Seq<char>>,
    pane_domain: Option<DomainId>,
    decoded: Option<Seq<char>>,
    target_domain: DomainId,
)
    ensures
        ({
            let dir = spawn_directory(command_dir, pane_domain, decoded, target_domain);
            &&& command_dir is Some ==> dir == command_dir
            &&& command_dir is None ==> (dir is Some <==> pane_domain == Some(target_domain)
                && decoded is Some)
            &&& command_dir is None && dir is Some ==> dir->0 == decoded->0 || dir->0
                == decoded->0.skip(1) && decoded->0.len() > 0
            &&& command_dir is None && dir is Some ==> {
                let bytes = encode_utf8(decoded->0);
                let drive = bytes.len() > 2 && bytes[0] == 47 && bytes[2] == 58;
                dir->0 == if drive {
                    decoded->0.skip(1)
                } else {
                    decoded->0
                }
            }
        }),
{
    if decoded is Some && decoded->0.len() == 0 {
        assert(encode_utf8(decoded->0).len() == 0);
    }
}

/// The names of domains are listed in quotes, with a comma and a space between each
/// two.
pub proof fn law_domain_names_are_listed_in_quotes(domains: Seq<DomainView>, last: DomainView)
    ensures
        quoted_names(Seq::empty()) == Seq::<char>::empty(),
        quoted_names(seq![last]) == "\""@ + last.name + "\""@,
        domains.len() > 0 ==> quoted_names(domains.push(last)) == quoted_names(domains) + ", "@ + (
        "\""@ + last.name + "\""@),
{
    assert(domains.push(last).drop_last() =~= domains);
}

} // verus!
