//! The route of a bus with the coordinates of its stops.
//!
//! A routing is put together on demand: the stops of the route are looked up
//! one by one, and a stop that is not known any more is left out rather than
//! failing the whole.

use crate::error::ServiceError;
use crate::pipe_list::{split, split_fields};
use crate::position::Coordinates;
use crate::store::{Store, StoreView};
use vstd::prelude::*;

verus! {

/// A stop with its coordinates.
#[derive(Clone, Debug, PartialEq, Eq)]
pub struct Stop {
    pub place_id: String,
    pub position: Coordinates,
}

impl View for Stop {
    type V = (Seq<char>, Coordinates);

    open spec fn view(&self) -> (Seq<char>, Coordinates) {
        (self.place_id@, self.position)
    }
}

/// The route of a bus: those of its stops that are known, in the order of the
/// route.
#[derive(Clone, Debug, PartialEq, Eq)]
pub struct Routing {
    pub bus_id: String,
    pub places: Vec<Stop>,
}

/// The view of a [`Routing`].
pub struct RoutingView {
    pub bus_id: Seq<char>,
    pub places: Seq<(Seq<char>, Coordinates)>,
}

impl View for Routing {
    type V = RoutingView;

    open spec fn view(&self) -> RoutingView {
        RoutingView { bus_id: self.bus_id@, places: self.places@.map_values(|stop: Stop| stop@) }
    }
}

/// The stops that were found, each with what its lookup gave: `found[i]` is
/// the result of looking up `stops[i]`. A stop without a result counts as not
/// found.
pub open spec fn resolved(stops: Seq<Seq<char>>, found: Seq<Option<Coordinates>>) -> Seq<
    (Seq<char>, Coordinates),
>
    decreases stops.len(),
{
    if stops.len() == 0 {
        Seq::empty()
    } else {
        let before = resolved(stops.drop_last(), found);
        let at = stops.len() - 1;
        if at < found.len() && found[at] is Some {
            before.push((stops[at], found[at]->0))
        } else {
            before
        }
    }
}

/// How many of the stops were not found.
pub open spec fn missing(stops: Seq<Seq<char>>, found: Seq<Option<Coordinates>>) -> nat
    decreases stops.len(),
{
    if stops.len() == 0 {
        0
    } else {
        let before = missing(stops.drop_last(), found);
        let at = stops.len() - 1;
        if at < found.len() && found[at] is Some {
            before
        } else {
            before + 1
        }
    }
}

/// What looking up each of `stops` in `places` gives.
pub open spec fn lookups(stops: Seq<Seq<char>>, places: Map<Seq<char>, Coordinates>) -> Seq<
    Option<Coordinates>,
> {
    Seq::new(stops.len(), |i: int| places.get(stops[i]))
}

/// The routing of `bus_id` that the tables give; `None` where the bus has no
/// route.
pub open spec fn routing_of(store: StoreView, bus_id: Seq<char>) -> Option<RoutingView> {
    if store.routes.contains_key(bus_id) {
        let stops = split(store.routes[bus_id]);
        Some(RoutingView { bus_id, places: resolved(stops, lookups(stops, store.places)) })
    } else {
        None
    }
}

/// A routing is as much shorter than the route as stops were not found.
pub proof fn lemma_routing_length(stops: Seq<Seq<char>>, found: Seq<Option<Coordinates>>)
    ensures
        resolved(stops, found).len() + missing(stops, found) == stops.len(),
    decreases stops.len(),
{
    if stops.len() > 0 {
        lemma_routing_length(stops.drop_last(), found);
    }
}

/// Puts the routing of `bus_id` together from the stops of its route and the
/// result of looking up each of them.
pub fn assemble_routing(bus_id: &str, stops: &Vec<String>, found: &Vec<Option<Coordinates>>) -> (routing:
    Routing)
    ensures
        routing@.bus_id == bus_id@,
        routing@.places == resolved(stops.deep_view(), found@),
{
    let mut places: Vec<Stop> = Vec::new();
    let mut i: usize = 0;
    assert(stops.deep_view().take(0) =~= Seq::<Seq<char>>::empty());
    while i < stops.len()
        invariant
            i <= stops.len(),
            places@.map_values(|stop: Stop| stop@) == resolved(
                stops.deep_view().take(i as int),
                found@,
            ),
        decreases stops.len() - i,
    {
        let ghost names = stops.deep_view();
        let ghost kept = places@.map_values(|stop: Stop| stop@);
        proof {
            assert(names.take(i + 1).drop_last() =~= names.take(i as int));
            assert(names.take(i + 1)[i as int] == stops[i as int]@);
        }
        if i < found.len() {
            match found[i] {
                Some(position) => {
                    let stop = Stop { place_id: stops[i].clone(), position };
                    places.push(stop);
                    assert(places@.map_values(|stop: Stop| stop@) =~= kept.push(
                        (stops[i as int]@, position),
                    ));
                },
                None => {},
            }
        }
        i += 1;
    }
    assert(stops.deep_view().take(stops.len() as int) =~= stops.deep_view());
    Routing { bus_id: bus_id.to_owned(), places }
}

impl Store {
    /// The route of `bus_id` with the coordinates of its stops. A stop of the
    /// route that has no row among the places is left out. The call fails
    /// only where the bus has no route.
    pub fn get_routing(&self, bus_id: &str) -> (routing: Result<Routing, ServiceError>)
        ensures
            match routing {
                Ok(routing) => routing_of(self@, bus_id@) == Some(routing@),
                Err(error) => error == ServiceError::NotFound && routing_of(self@, bus_id@) is None,
            },
    {
        let stop_list = match self.routes.get(bus_id) {
            Some(stop_list) => stop_list,
            None => {
                return Err(ServiceError::NotFound);
            },
        };
        let stops = split_fields(stop_list.as_str());
        let mut found: Vec<Option<Coordinates>> = Vec::new();
        let mut i: usize = 0;
        while i < stops.len()
            invariant
                i <= stops.len(),
                found.len() == i,
                forall|j: int|
                    0 <= j < i ==> #[trigger] found[j] == self.places@.get(stops.deep_view()[j]),
            decreases stops.len() - i,
        {
            assert(stops.deep_view()[i as int] == stops[i as int]@);
            let position = match self.places.get(stops[i].as_str()) {
                Some(position) => Some(*position),
                None => None,
            };
            found.push(position);
            i += 1;
        }
        assert(found@ =~= lookups(stops.deep_view(), self.places@));
        Ok(assemble_routing(bus_id, &stops, &found))
    }
}

} // verus!
