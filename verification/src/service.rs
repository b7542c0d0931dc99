//! The resources of the service and the requests that each of them takes.

use crate::cors::{cors, open_policy, CorsPolicy, Verb};
use vstd::prelude::*;

verus! {

/// What a request does to the table of its resource.
#[derive(Clone, Copy, Debug, PartialEq, Eq, Structural)]
pub enum Operation {
    /// Takes in a record.
    Submit,
    /// Gives the keys of the rows.
    ListKeys,
    /// Gives the rows.
    ListAll,
    /// Gives the row of one key.
    Fetch,
    /// Deletes the row of one key.
    Remove,
    /// Deletes every row.
    Clear,
}

/// One kind of request that a resource takes. In a path, `<id>` stands for a
/// key.
#[derive(Clone, Debug, PartialEq, Eq)]
pub struct Endpoint {
    pub verb: Verb,
    pub path: String,
    pub operation: Operation,
}

impl View for Endpoint {
    type V = (Verb, Seq<char>, Operation);

    open spec fn view(&self) -> (Verb, Seq<char>, Operation) {
        (self.verb, self.path@, self.operation)
    }
}

/// A resource: the path under which it is found, and its endpoints.
#[derive(Clone, Debug, PartialEq, Eq)]
pub struct Mount {
    pub base: String,
    pub endpoints: Vec<Endpoint>,
}

/// The view of a [`Mount`].
pub struct MountView {
    pub base: Seq<char>,
    pub endpoints: Seq<(Verb, Seq<char>, Operation)>,
}

impl View for Mount {
    type V = MountView;

    open spec fn view(&self) -> MountView {
        MountView {
            base: self.base@,
            endpoints: self.endpoints@.map_values(|endpoint: Endpoint| endpoint@),
        }
    }
}

/// How preflight requests are answered: under which path, and by which
/// policy.
#[derive(Clone, Debug, PartialEq, Eq)]
pub struct Preflight {
    pub base: String,
    pub policy: CorsPolicy,
}

/// The whole service: the answer to preflight requests, and the resources in
/// the order in which they are attached.
#[derive(Clone, Debug, PartialEq, Eq)]
pub struct Service {
    pub preflight: Preflight,
    pub mounts: Vec<Mount>,
}

/// The endpoints of a table of coordinates, kept under `/one/` so that `/all`
/// is no key.
pub open spec fn coordinate_endpoints() -> Seq<(Verb, Seq<char>, Operation)> {
    seq![
        (Verb::Post, "/"@, Operation::Submit),
        (Verb::Get, "/"@, Operation::ListKeys),
        (Verb::Get, "/all"@, Operation::ListAll),
        (Verb::Get, "/one/<id>"@, Operation::Fetch),
        (Verb::Delete, "/one/<id>"@, Operation::Remove),
    ]
}

/// The endpoints of the routes.
pub open spec fn route_endpoints() -> Seq<(Verb, Seq<char>, Operation)> {
    seq![
        (Verb::Post, "/"@, Operation::Submit),
        (Verb::Get, "/"@, Operation::ListKeys),
        (Verb::Get, "/<id>"@, Operation::Fetch),
        (Verb::Delete, "/<id>"@, Operation::Remove),
        (Verb::Delete, "/"@, Operation::Clear),
    ]
}

/// The endpoints of the stop index, which is read and deleted from, and
/// written only by the registration of routes.
pub open spec fn index_endpoints() -> Seq<(Verb, Seq<char>, Operation)> {
    seq![
        (Verb::Get, "/"@, Operation::ListKeys),
        (Verb::Get, "/<id>"@, Operation::Fetch),
        (Verb::Delete, "/<id>"@, Operation::Remove),
    ]
}

fn endpoint(verb: Verb, path: &str, operation: Operation) -> (endpoint: Endpoint)
    ensures
        endpoint@ == (verb, path@, operation),
{
    Endpoint { verb, path: path.to_owned(), operation }
}

fn coordinate_mount(base: &str) -> (mount: Mount)
    ensures
        mount@ == (MountView { base: base@, endpoints: coordinate_endpoints() }),
{
    let mut endpoints: Vec<Endpoint> = Vec::new();
    endpoints.push(endpoint(Verb::Post, "/", Operation::Submit));
    endpoints.push(endpoint(Verb::Get, "/", Operation::ListKeys));
    endpoints.push(endpoint(Verb::Get, "/all", Operation::ListAll));
    endpoints.push(endpoint(Verb::Get, "/one/<id>", Operation::Fetch));
    endpoints.push(endpoint(Verb::Delete, "/one/<id>", Operation::Remove));
    assert(endpoints@.map_values(|endpoint: Endpoint| endpoint@) =~= coordinate_endpoints());
    Mount { base: base.to_owned(), endpoints }
}

/// The resource of the bus locations, under `/bus`.
pub fn bus_data() -> (mount: Mount)
    ensures
        mount@ == (MountView { base: "/bus"@, endpoints: coordinate_endpoints() }),
{
    coordinate_mount("/bus")
}

/// The resource of the stops, under `/place`.
pub fn place_data() -> (mount: Mount)
    ensures
        mount@ == (MountView { base: "/place"@, endpoints: coordinate_endpoints() }),
{
    coordinate_mount("/place")
}

/// The resource of the routes, under `/routes`.
pub fn route_data() -> (mount: Mount)
    ensures
        mount@ == (MountView { base: "/routes"@, endpoints: route_endpoints() }),
{
    let mut endpoints: Vec<Endpoint> = Vec::new();
    endpoints.push(endpoint(Verb::Post, "/", Operation::Submit));
    endpoints.push(endpoint(Verb::Get, "/", Operation::ListKeys));
    endpoints.push(endpoint(Verb::Get, "/<id>", Operation::Fetch));
    endpoints.push(endpoint(Verb::Delete, "/<id>", Operation::Remove));
    endpoints.push(endpoint(Verb::Delete, "/", Operation::Clear));
    assert(endpoints@.map_values(|endpoint: Endpoint| endpoint@) =~= route_endpoints());
    Mount { base: "/routes".to_owned(), endpoints }
}

/// The resource of the stop index, under `/busses`.
pub fn busses_data() -> (mount: Mount)
    ensures
        mount@ == (MountView { base: "/busses"@, endpoints: index_endpoints() }),
{
    let mut endpoints: Vec<Endpoint> = Vec::new();
    endpoints.push(endpoint(Verb::Get, "/", Operation::ListKeys));
    endpoints.push(endpoint(Verb::Get, "/<id>", Operation::Fetch));
    endpoints.push(endpoint(Verb::Delete, "/<id>", Operation::Remove));
    assert(endpoints@.map_values(|endpoint: Endpoint| endpoint@) =~= index_endpoints());
    Mount { base: "/busses".to_owned(), endpoints }
}

/// The answer to preflight requests: under `/`, by the policy of [`cors`].
pub fn stage() -> (preflight: Preflight)
    ensures
        preflight.base@ == "/"@,
        preflight.policy@ == open_policy(seq![Verb::Get, Verb::Post, Verb::Options]),
{
    Preflight { base: "/".to_owned(), policy: cors() }
}

/// The service: preflight first, then the bus locations, the routes, the
/// stops and the stop index.
pub fn rocket() -> (service: Service)
    ensures
        service.preflight.base@ == "/"@,
        service.preflight.policy@ == open_policy(
            seq![Verb::Get, Verb::Post, Verb::Options],
        ),
        service.mounts@.map_values(|mount: Mount| mount@) == seq![
            MountView { base: "/bus"@, endpoints: coordinate_endpoints() },
            MountView { base: "/routes"@, endpoints: route_endpoints() },
            MountView { base: "/place"@, endpoints: coordinate_endpoints() },
            MountView { base: "/busses"@, endpoints: index_endpoints() },
        ],
{
    let mut mounts: Vec<Mount> = Vec::new();
    mounts.push(bus_data());
    mounts.push(route_data());
    mounts.push(place_data());
    mounts.push(busses_data());
    assert(mounts@.map_values(|mount: Mount| mount@) =~= seq![
        MountView { base: "/bus"@, endpoints: coordinate_endpoints() },
        MountView { base: "/routes"@, endpoints: route_endpoints() },
        MountView { base: "/place"@, endpoints: coordinate_endpoints() },
        MountView { base: "/busses"@, endpoints: index_endpoints() },
    ]);
    Service { preflight: stage(), mounts }
}

} // verus!
