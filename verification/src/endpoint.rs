//! A forwarding target and its mathematical model.

use vstd::prelude::*;
use vstd::std_specs::cmp::PartialEqSpecImpl;

verus! {

/// A registered downstream receiver.
#[derive(Debug)]
pub struct Endpoint {
    /// Identifier assigned by the registry; unique within it.
    pub id: String,
    /// Where events are posted.
    pub url: String,
    /// Display label.
    pub name: String,
    /// Only active endpoints take part in registry-driven fan-out.
    pub is_active: bool,
}

/// What an [`Endpoint`] stands for: its texts as character sequences.
pub struct EndpointModel {
    pub id: Seq<char>,
    pub url: Seq<char>,
    pub name: Seq<char>,
    pub is_active: bool,
}

impl View for Endpoint {
    type V = EndpointModel;

    open spec fn view(&self) -> EndpointModel {
        EndpointModel { id: self.id@, url: self.url@, name: self.name@, is_active: self.is_active }
    }
}

/// The models of a list of endpoints, in order.
pub open spec fn models(list: Seq<Endpoint>) -> Seq<EndpointModel> {
    list.map_values(|e: Endpoint| e@)
}

/// The identifiers of a list of endpoints, in order.
pub open spec fn ids(list: Seq<EndpointModel>) -> Seq<Seq<char>> {
    list.map_values(|e: EndpointModel| e.id)
}

impl Endpoint {
    /// Builds an endpoint from its four parts.
    pub fn new(id: &str, url: &str, name: &str, is_active: bool) -> (e: Endpoint)
        ensures
            e@ == (EndpointModel { id: id@, url: url@, name: name@, is_active }),
    {
        Endpoint {
            id: String::from_str(id),
            url: String::from_str(url),
            name: String::from_str(name),
            is_active,
        }
    }
}

impl Clone for Endpoint {
    fn clone(&self) -> (e: Endpoint)
        ensures
            e@ == self@,
    {
        Endpoint {
            id: self.id.clone(),
            url: self.url.clone(),
            name: self.name.clone(),
            is_active: self.is_active,
        }
    }
}

impl PartialEq for Endpoint {
    fn eq(&self, other: &Endpoint) -> (b: bool) {
        self.id == other.id && self.url == other.url && self.name == other.name && self.is_active
            == other.is_active
    }
}

impl PartialEqSpecImpl for Endpoint {
    open spec fn obeys_eq_spec() -> bool {
        true
    }

    open spec fn eq_spec(&self, other: &Endpoint) -> bool {
        self@ == other@
    }
}

/// Copies a list of endpoints.
pub fn copy_endpoints(list: &Vec<Endpoint>) -> (copy: Vec<Endpoint>)
    ensures
        models(copy@) == models(list@),
{
    let mut copy: Vec<Endpoint> = Vec::new();
    let mut i: usize = 0;
    while i < list.len()
        invariant
            i <= list.len(),
            copy.len() == i,
            forall|j: int| 0 <= j < i ==> copy@[j]@ == list@[j]@,
        decreases list.len() - i,
    {
        copy.push(list[i].clone());
        i += 1;
    }
    assert(models(copy@) =~= models(list@));
    copy
}

} // verus!
