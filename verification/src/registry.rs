//! The endpoint registry: the collection of forwarding targets, in which no
//! identifier occurs twice, and the operations that change it.
//!
//! The registry lives in memory. Each operation that changes it hands back
//! what the caller is to write to durable storage.

use crate::endpoint::{copy_endpoints, ids, models, Endpoint, EndpointModel};
use crate::ident::{lemma_unused_id, random_id, settle_id, unused_id};
use crate::target::{is_target_url, target_fault};
use crate::text::{blank, is_blank};
use vstd::prelude::*;

verus! {

/// Why a registration was refused.
#[derive(Debug)]
pub enum ValidationError {
    /// The URL does not parse, or is no HTTP(S) URL, or names no host;
    /// `details` says which.
    InvalidUrl { details: String },
    /// The name is empty or holds nothing but white space.
    EmptyName,
}

/// No endpoint has the identifier that was asked for.
#[derive(Debug, Clone, Copy, PartialEq, Eq)]
pub struct NotFound;

/// No identifier occurs twice in `list`.
pub open spec fn distinct_ids(list: Seq<EndpointModel>) -> bool {
    ids(list).no_duplicates()
}

/// Whether an endpoint of `list` has the identifier `id`.
pub open spec fn holds(list: Seq<EndpointModel>, id: Seq<char>) -> bool {
    ids(list).contains(id)
}

/// The place in `list` of the endpoint with the identifier `id`, where there
/// is one.
pub open spec fn place(list: Seq<EndpointModel>, id: Seq<char>) -> int {
    ids(list).index_of(id)
}

/// `list` with a new endpoint at its end, whose identifier is what
/// `candidate` settles on.
pub open spec fn registered(
    list: Seq<EndpointModel>,
    candidate: Seq<char>,
    url: Seq<char>,
    name: Seq<char>,
    is_active: bool,
) -> Seq<EndpointModel> {
    list.push(EndpointModel { id: unused_id(candidate, ids(list)), url, name, is_active })
}

/// `list` with the flag of the endpoint `id` set to `is_active`.
pub open spec fn updated(list: Seq<EndpointModel>, id: Seq<char>, is_active: bool) -> Seq<
    EndpointModel,
> {
    list.update(place(list, id), EndpointModel { is_active, ..list[place(list, id)] })
}

/// `list` without the endpoint `id`.
pub open spec fn removed(list: Seq<EndpointModel>, id: Seq<char>) -> Seq<EndpointModel> {
    list.remove(place(list, id))
}

/// The endpoints of `list` that are active, in order.
pub open spec fn active(list: Seq<EndpointModel>) -> Seq<EndpointModel> {
    list.filter(|e: EndpointModel| e.is_active)
}

/// The endpoints that a registry starts with where nothing usable is
/// stored.
pub open spec fn default_models() -> Seq<EndpointModel> {
    seq![
        EndpointModel {
            id: "fincra"@,
            url: "https://staging.webhook.api.mavapay.co/webhook/fincra"@,
            name: "Fincra Staging"@,
            is_active: true,
        },
        EndpointModel {
            id: "splice"@,
            url: "https://staging.webhook.api.mavapay.co/webhook/splice"@,
            name: "Splice Staging"@,
            is_active: true,
        },
        EndpointModel {
            id: "useorange"@,
            url: "https://staging.webhook.api.mavapay.co/webhook/useorange"@,
            name: "UseOrange Staging"@,
            is_active: true,
        },
        EndpointModel {
            id: "galoy"@,
            url: "https://staging.webhook.api.mavapay.co/webhook/galoy"@,
            name: "Galoy Staging"@,
            is_active: true,
        },
    ]
}

/// What a registry starts with, given what was read from storage (`None`
/// where nothing could be read or made sense of), and whether that is to be
/// written back at once. A stored collection is taken as it is, and not
/// written back. Where there is none, or one in which an identifier occurs
/// twice, the registry starts with the defaults, which are written back.
pub open spec fn restored(stored: Option<Seq<EndpointModel>>) -> (Seq<EndpointModel>, bool) {
    match stored {
        Some(list) => if distinct_ids(list) {
            (list, false)
        } else {
            (default_models(), true)
        },
        None => (default_models(), true),
    }
}

impl ValidationError {
    /// The refusal in words.
    pub open spec fn text(&self) -> Seq<char> {
        match self {
            ValidationError::InvalidUrl { .. } => "Invalid URL format"@,
            ValidationError::EmptyName => "Name cannot be empty"@,
        }
    }

    /// Writes the refusal in words.
    pub fn message(&self) -> (m: String)
        ensures
            m@ == self.text(),
    {
        match self {
            ValidationError::InvalidUrl { .. } => String::from_str("Invalid URL format"),
            ValidationError::EmptyName => String::from_str("Name cannot be empty"),
        }
    }

    /// What is wrong with the URL, where the URL was at fault.
    pub fn details(&self) -> (d: Option<String>)
        ensures
            match self {
                ValidationError::InvalidUrl { details } => d matches Some(text) && text@
                    == details@,
                ValidationError::EmptyName => d is None,
            },
    {
        match self {
            ValidationError::InvalidUrl { details } => Some(details.clone()),
            ValidationError::EmptyName => None,
        }
    }
}

/// Decides a registration from what was found of the URL (`url_fault` says
/// what is wrong with it, `None` where it will do) and from the name. A URL
/// at fault is reported first; then a blank name.
pub fn check_registration(url_fault: Option<String>, name: &str) -> (r: Result<
    (),
    ValidationError,
>)
    ensures
        match r {
            Ok(_) => url_fault is None && !is_blank(name@),
            Err(ValidationError::InvalidUrl { details }) => url_fault == Some(details),
            Err(ValidationError::EmptyName) => url_fault is None && is_blank(name@),
        },
{
    match url_fault {
        Some(details) => Err(ValidationError::InvalidUrl { details }),
        None => {
            if blank(name) {
                Err(ValidationError::EmptyName)
            } else {
                Ok(())
            }
        },
    }
}

/// Validates a registration: `url` must be an absolute HTTP(S) URL that
/// names a host, and `name` must not be blank.
pub fn validate(url: &str, name: &str) -> (r: Result<(), ValidationError>)
    ensures
        match r {
            Ok(_) => is_target_url(url@) && !is_blank(name@),
            Err(ValidationError::InvalidUrl { .. }) => !is_target_url(url@),
            Err(ValidationError::EmptyName) => is_target_url(url@) && is_blank(name@),
        },
{
    check_registration(target_fault(url), name)
}

/// Tells whether no identifier occurs twice in `list`.
pub fn has_distinct_ids(list: &Vec<Endpoint>) -> (b: bool)
    ensures
        b == distinct_ids(models(list@)),
{
    let ghost all = ids(models(list@));
    let mut i: usize = 0;
    while i < list.len()
        invariant
            i <= list.len(),
            all == ids(models(list@)),
            forall|a: int, b: int| 0 <= a < b < i ==> all[a] != all[b],
        decreases list.len() - i,
    {
        let mut j: usize = 0;
        while j < i
            invariant
                j <= i < list.len(),
                all == ids(models(list@)),
                forall|k: int| 0 <= k < j ==> all[k] != all[i as int],
            decreases i - j,
        {
            if list[j].id == list[i].id {
                assert(all[j as int] == all[i as int]);
                return false;
            }
            j += 1;
        }
        i += 1;
    }
    true
}

/// The endpoints that a registry starts with where nothing usable is
/// stored.
pub fn default_endpoints() -> (list: Vec<Endpoint>)
    ensures
        models(list@) == default_models(),
        distinct_ids(default_models()),
{
    let mut list: Vec<Endpoint> = Vec::new();
    list.push(
        Endpoint::new(
            "fincra",
            "https://staging.webhook.api.mavapay.co/webhook/fincra",
            "Fincra Staging",
            true,
        ),
    );
    list.push(
        Endpoint::new(
            "splice",
            "https://staging.webhook.api.mavapay.co/webhook/splice",
            "Splice Staging",
            true,
        ),
    );
    list.push(
        Endpoint::new(
            "useorange",
            "https://staging.webhook.api.mavapay.co/webhook/useorange",
            "UseOrange Staging",
            true,
        ),
    );
    list.push(
        Endpoint::new(
            "galoy",
            "https://staging.webhook.api.mavapay.co/webhook/galoy",
            "Galoy Staging",
            true,
        ),
    );
    proof {
        assert(models(list@) =~= default_models());
        lemma_defaults_distinct();
    }
    list
}

/// No identifier occurs twice among the defaults.
pub proof fn lemma_defaults_distinct()
    ensures
        distinct_ids(default_models()),
{
    reveal_strlit("fincra");
    reveal_strlit("splice");
    reveal_strlit("useorange");
    reveal_strlit("galoy");
    let all = ids(default_models());
    assert(all[0] == "fincra"@);
    assert(all[1] == "splice"@);
    assert(all[2] == "useorange"@);
    assert(all[3] == "galoy"@);
    assert(all[0][0] != all[1][0]);
    assert(all[0].len() != all[2].len());
    assert(all[0].len() != all[3].len());
    assert(all[1].len() != all[2].len());
    assert(all[1].len() != all[3].len());
    assert(all[2].len() != all[3].len());
}

/// The collection of forwarding targets.
#[derive(Debug)]
pub struct Registry {
    endpoints: Vec<Endpoint>,
}

/// A registry as it starts, and whether it is to be written to storage at
/// once.
#[derive(Debug)]
pub struct Loaded {
    pub registry: Registry,
    pub persist: bool,
}

impl View for Registry {
    type V = Seq<EndpointModel>;

    closed spec fn view(&self) -> Seq<EndpointModel> {
        models(self.endpoints@)
    }
}

impl Registry {
    /// The invariant of the type: no identifier occurs twice.
    pub open spec fn wf(&self) -> bool {
        distinct_ids(self@)
    }

    /// The empty registry.
    pub fn new() -> (r: Registry)
        ensures
            r.wf(),
            r@ == Seq::<EndpointModel>::empty(),
    {
        let r = Registry { endpoints: Vec::new() };
        assert(models(r.endpoints@) =~= Seq::<EndpointModel>::empty());
        r
    }

    /// Takes `list` for a registry, unless an identifier occurs twice in it.
    pub fn from_endpoints(list: Vec<Endpoint>) -> (r: Option<Registry>)
        ensures
            match r {
                Some(registry) => registry.wf() && registry@ == models(list@),
                None => !distinct_ids(models(list@)),
            },
    {
        if has_distinct_ids(&list) {
            Some(Registry { endpoints: list })
        } else {
            None
        }
    }

    /// Starts a registry from what was read from storage; see [`restored`].
    pub fn load_endpoints(stored: Option<Vec<Endpoint>>) -> (l: Loaded)
        ensures
            l.registry.wf(),
            (l.registry@, l.persist) == restored(
                match stored {
                    Some(list) => Some(models(list@)),
                    None => None,
                },
            ),
    {
        let usable = match stored {
            Some(list) => Registry::from_endpoints(list),
            None => None,
        };
        match usable {
            Some(registry) => Loaded { registry, persist: false },
            None => Loaded { registry: Registry { endpoints: default_endpoints() }, persist: true },
        }
    }

    /// The number of endpoints.
    pub fn len(&self) -> (n: usize)
        ensures
            n == self@.len(),
    {
        self.endpoints.len()
    }

    /// A copy of all endpoints, in order.
    pub fn list_endpoints(&self) -> (list: Vec<Endpoint>)
        ensures
            models(list@) == self@,
    {
        copy_endpoints(&self.endpoints)
    }

    /// Copies of the active endpoints, in order.
    pub fn active_endpoints(&self) -> (list: Vec<Endpoint>)
        ensures
            models(list@) == active(self@),
    {
        let ghost all = models(self.endpoints@);
        let ghost is_active = |e: EndpointModel| e.is_active;
        let mut list: Vec<Endpoint> = Vec::new();
        let mut i: usize = 0;
        assert(all.take(0).filter(is_active) =~= Seq::empty());
        while i < self.endpoints.len()
            invariant
                i <= self.endpoints.len(),
                all == models(self.endpoints@),
                is_active == |e: EndpointModel| e.is_active,
                models(list@) =~= all.take(i as int).filter(is_active),
            decreases self.endpoints.len() - i,
        {
            let ghost before = models(list@);
            proof {
                all.take(i as int).lemma_filter_push(all[i as int], is_active);
                assert(all.take(i + 1) =~= all.take(i as int).push(all[i as int]));
            }
            if self.endpoints[i].is_active {
                list.push(self.endpoints[i].clone());
                assert(models(list@) =~= before.push(all[i as int]));
                assert(is_active(all[i as int]));
            } else {
                assert(!is_active(all[i as int]));
            }
            i += 1;
        }
        assert(all.take(i as int) =~= all);
        list
    }

    /// Finds the endpoint with the identifier `id`.
    fn position(&self, id: &String) -> (at: Option<usize>)
        requires
            self.wf(),
        ensures
            match at {
                Some(i) => holds(self@, id@) && i == place(self@, id@) && i < self@.len(),
                None => !holds(self@, id@),
            },
    {
        let ghost all = ids(models(self.endpoints@));
        let mut i: usize = 0;
        while i < self.endpoints.len()
            invariant
                i <= self.endpoints.len(),
                all == ids(models(self.endpoints@)),
                all.no_duplicates(),
                forall|j: int| 0 <= j < i ==> #[trigger] all[j] != id@,
            decreases self.endpoints.len() - i,
        {
            if self.endpoints[i].id == *id {
                assert(all[i as int] == id@);
                assert(all.contains(id@));
                assert(all[all.index_of(id@)] == id@);
                return Some(i);
            }
            i += 1;
        }
        None
    }

    /// Adds an endpoint whose identifier is what `candidate` settles on, and
    /// returns a copy of the collection as it then stands.
    pub fn add_endpoint(&mut self, candidate: String, url: &str, name: &str, is_active: bool) -> (list:
        Vec<Endpoint>)
        requires
            old(self).wf(),
        ensures
            final(self).wf(),
            final(self)@ == registered(old(self)@, candidate@, url@, name@, is_active),
            models(list@) == final(self)@,
    {
        let ghost before = models(self.endpoints@);
        let id = settle_id(candidate, &self.endpoints);
        self.endpoints.push(
            Endpoint { id, url: String::from_str(url), name: String::from_str(name), is_active },
        );
        proof {
            assert(models(self.endpoints@) =~= registered(
                before,
                candidate@,
                url@,
                name@,
                is_active,
            ));
            lemma_registered(before, candidate@, url@, name@, is_active);
        }
        self.list_endpoints()
    }

    /// Registers a new endpoint. The URL must be an absolute HTTP(S) URL
    /// that names a host, and the name must not be blank; otherwise the
    /// registry stays as it was. On success the new
    /// endpoint stands at the end, under a generated identifier that no
    /// endpoint had before, and a copy of the whole collection is returned.
    pub fn register_endpoint(&mut self, url: &str, name: &str, is_active: bool) -> (r: Result<
        Vec<Endpoint>,
        ValidationError,
    >)
        requires
            old(self).wf(),
        ensures
            final(self).wf(),
            match r {
                Ok(list) => {
                    &&& is_target_url(url@)
                    &&& !is_blank(name@)
                    &&& final(self)@.len() == old(self)@.len() + 1
                    &&& final(self)@.drop_last() == old(self)@
                    &&& final(self)@.last().url == url@
                    &&& final(self)@.last().name == name@
                    &&& final(self)@.last().is_active == is_active
                    &&& !holds(old(self)@, final(self)@.last().id)
                    &&& final(self)@.last().id.len() >= 36
                    &&& models(list@) == final(self)@
                },
                Err(ValidationError::InvalidUrl { .. }) => !is_target_url(url@) && final(self)@
                    == old(self)@,
                Err(ValidationError::EmptyName) => is_target_url(url@) && is_blank(name@)
                    && final(self)@ == old(self)@,
            },
    {
        match validate(url, name) {
            Err(e) => Err(e),
            Ok(_) => {
                let candidate = random_id();
                proof {
                    lemma_registered(self@, candidate@, url@, name@, is_active);
                    lemma_unused_id(candidate@, ids(self@));
                }
                Ok(self.add_endpoint(candidate, url, name, is_active))
            },
        }
    }

    /// Sets the flag of the endpoint `id` and returns a copy of the endpoint
    /// as it then stands. Where no endpoint has that identifier, the registry
    /// stays as it was.
    pub fn update_endpoint(&mut self, id: &str, is_active: bool) -> (r: Result<
        Endpoint,
        NotFound,
    >)
        requires
            old(self).wf(),
        ensures
            final(self).wf(),
            match r {
                Ok(e) => {
                    &&& holds(old(self)@, id@)
                    &&& final(self)@ == updated(old(self)@, id@, is_active)
                    &&& e@ == final(self)@[place(old(self)@, id@)]
                },
                Err(_) => !holds(old(self)@, id@) && final(self)@ == old(self)@,
            },
    {
        let wanted = String::from_str(id);
        match self.position(&wanted) {
            None => Err(NotFound),
            Some(i) => {
                let ghost before = models(self.endpoints@);
                let changed = Endpoint {
                    id: self.endpoints[i].id.clone(),
                    url: self.endpoints[i].url.clone(),
                    name: self.endpoints[i].name.clone(),
                    is_active,
                };
                let copy = changed.clone();
                self.endpoints.set(i, changed);
                proof {
                    assert(models(self.endpoints@) =~= updated(before, id@, is_active));
                    lemma_updated(before, id@, is_active);
                }
                Ok(copy)
            },
        }
    }

    /// Removes the endpoint `id` and returns a copy of what remains. Where no
    /// endpoint has that identifier, the registry stays as it was.
    pub fn delete_endpoint(&mut self, id: &str) -> (r: Result<Vec<Endpoint>, NotFound>)
        requires
            old(self).wf(),
        ensures
            final(self).wf(),
            match r {
                Ok(list) => {
                    &&& holds(old(self)@, id@)
                    &&& final(self)@ == removed(old(self)@, id@)
                    &&& models(list@) == final(self)@
                },
                Err(_) => !holds(old(self)@, id@) && final(self)@ == old(self)@,
            },
    {
        let wanted = String::from_str(id);
        match self.position(&wanted) {
            None => Err(NotFound),
            Some(i) => {
                let ghost before = models(self.endpoints@);
                self.endpoints.remove(i);
                let ghost after = models(self.endpoints@);
                assert(after =~= removed(before, id@));
                proof {
                    lemma_removed(before, id@);
                }
                Ok(self.list_endpoints())
            },
        }
    }
}

/// A registration adds exactly one endpoint, at the end, under an identifier
/// that no endpoint had before; no identifier occurs twice afterwards.
pub proof fn lemma_registered(
    list: Seq<EndpointModel>,
    candidate: Seq<char>,
    url: Seq<char>,
    name: Seq<char>,
    is_active: bool,
)
    requires
        distinct_ids(list),
    ensures
        registered(list, candidate, url, name, is_active).len() == list.len() + 1,
        registered(list, candidate, url, name, is_active).drop_last() == list,
        !holds(list, registered(list, candidate, url, name, is_active).last().id),
        distinct_ids(registered(list, candidate, url, name, is_active)),
{
    let after = registered(list, candidate, url, name, is_active);
    lemma_unused_id(candidate, ids(list));
    assert(after.drop_last() =~= list);
    assert(ids(after) =~= ids(list).push(unused_id(candidate, ids(list))));
}

/// Two registrations in a row, whatever candidates they start from and even
/// with one and the same URL, leave two endpoints with different
/// identifiers.
pub proof fn lemma_registered_twice(
    list: Seq<EndpointModel>,
    first: Seq<char>,
    second: Seq<char>,
    url: Seq<char>,
    name: Seq<char>,
    is_active: bool,
)
    requires
        distinct_ids(list),
    ensures
        ({
            let once = registered(list, first, url, name, is_active);
            let twice = registered(once, second, url, name, is_active);
            let n = list.len() as int;
            &&& twice.len() == n + 2
            &&& twice[n].url == url
            &&& twice[n + 1].url == url
            &&& twice[n].id != twice[n + 1].id
            &&& distinct_ids(twice)
        }),
{
    let once = registered(list, first, url, name, is_active);
    let twice = registered(once, second, url, name, is_active);
    lemma_registered(list, first, url, name, is_active);
    lemma_registered(once, second, url, name, is_active);
    let n = list.len() as int;
    assert(ids(twice)[n] == twice[n].id);
    assert(ids(twice)[n + 1] == twice[n + 1].id);
}

/// Setting a flag changes that flag and nothing else: every endpoint keeps
/// its place, its identifier, its URL and its name, and every other
/// endpoint keeps its flag too.
pub proof fn lemma_updated(list: Seq<EndpointModel>, id: Seq<char>, is_active: bool)
    requires
        distinct_ids(list),
        holds(list, id),
    ensures
        updated(list, id, is_active).len() == list.len(),
        ids(updated(list, id, is_active)) == ids(list),
        forall|i: int|
            0 <= i < list.len() ==> {
                let before = list[i];
                let after = #[trigger] updated(list, id, is_active)[i];
                &&& after.url == before.url
                &&& after.name == before.name
                &&& after.is_active == if before.id == id {
                    is_active
                } else {
                    before.is_active
                }
            },
{
    let at = place(list, id);
    let after = updated(list, id, is_active);
    assert(ids(list)[at] == id);
    assert(ids(after) =~= ids(list));
    assert forall|i: int| 0 <= i < list.len() && list[i].id == id implies i == at by {
        assert(ids(list)[i] == id);
    }
}

/// A stored collection in which no identifier occurs twice comes back as it
/// was stored, and is not written again.
pub proof fn lemma_restored(list: Seq<EndpointModel>)
    requires
        distinct_ids(list),
    ensures
        restored(Some(list)) == (list, false),
{
}

/// Removing an endpoint takes exactly that one away: the collection is one
/// shorter, the identifier is gone from it, every other endpoint stays, and
/// no identifier occurs twice.
pub proof fn lemma_removed(list: Seq<EndpointModel>, id: Seq<char>)
    requires
        distinct_ids(list),
        holds(list, id),
    ensures
        removed(list, id).len() == list.len() - 1,
        !holds(removed(list, id), id),
        distinct_ids(removed(list, id)),
        forall|e: EndpointModel| e.id != id ==> (list.contains(e) <==> removed(list, id).contains(e)),
{
    let at = place(list, id);
    let rest = removed(list, id);
    assert(ids(list)[at] == id);
    assert forall|k: int| 0 <= k < rest.len() implies #[trigger] ids(rest)[k] == ids(list)[if k
        < at {
        k
    } else {
        k + 1
    }] by {}
    assert forall|e: EndpointModel| e.id != id implies (list.contains(e) <==> rest.contains(e)) by {
        if list.contains(e) {
            let k = choose|k: int| 0 <= k < list.len() && list[k] == e;
            assert(ids(list)[k] == e.id);
            if k < at {
                assert(rest[k] == e);
            } else {
                assert(rest[k - 1] == e);
            }
        }
        if rest.contains(e) {
            let k = choose|k: int| 0 <= k < rest.len() && rest[k] == e;
            if k < at {
                assert(list[k] == e);
            } else {
                assert(list[k + 1] == e);
            }
        }
    }
}

} // verus!
