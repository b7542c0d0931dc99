//! The four tables of the service, held in memory, and the operations that
//! take them from one state to the next.

use crate::error::ServiceError;
use crate::pipe_list::{lemma_split_nonempty, split};
use crate::position::Coordinates;
use crate::protocol::{Action, ActionView, Reply, ReplyView};
use crate::registration::{lemma_answers_make_progress, Phase, Registration, RegistrationView};
use crate::stop_index::{merge_all, merge_bus, merge_one, merge_write};
use crate::table::Table;
use vstd::prelude::*;

verus! {

/// The tables of the service.
pub struct Store {
    /// Where each bus is: one row for each bus, written over in place.
    pub locations: Table<Coordinates>,
    /// Where each stop is.
    pub places: Table<Coordinates>,
    /// The route of each bus: its stops in order, joined by `|`.
    pub routes: Table<String>,
    /// The buses that serve each stop, joined by `|`.
    pub stop_index: Table<String>,
}

/// The view of a [`Store`]: each table as a map from its keys.
pub struct StoreView {
    pub locations: Map<Seq<char>, Coordinates>,
    pub places: Map<Seq<char>, Coordinates>,
    pub routes: Map<Seq<char>, Seq<char>>,
    pub stop_index: Map<Seq<char>, Seq<char>>,
}

impl View for Store {
    type V = StoreView;

    open spec fn view(&self) -> StoreView {
        StoreView {
            locations: self.locations@,
            places: self.places@,
            routes: self.routes@,
            stop_index: self.stop_index@,
        }
    }
}

/// The tables after `action`, and the reply that the action gets.
pub open spec fn performed(store: StoreView, action: ActionView) -> (StoreView, ReplyView) {
    match action {
        ActionView::FindStop { place_id } => (
            store,
            if store.stop_index.contains_key(place_id) {
                ReplyView::Found { bus_list: store.stop_index[place_id] }
            } else {
                ReplyView::Missing
            },
        ),
        ActionView::InsertStop { place_id, bus_list } => {
            if store.stop_index.contains_key(place_id) {
                (store, ReplyView::Rejected)
            } else {
                (
                    StoreView { stop_index: store.stop_index.insert(place_id, bus_list), ..store },
                    ReplyView::Written,
                )
            }
        },
        ActionView::ReplaceStop { place_id, bus_list } => (
            StoreView { stop_index: store.stop_index.insert(place_id, bus_list), ..store },
            ReplyView::Written,
        ),
        ActionView::ReplaceRoute { bus_id, stop_list } => (
            StoreView { routes: store.routes.insert(bus_id, stop_list), ..store },
            ReplyView::Written,
        ),
        ActionView::ReplaceLocation { bus_id, position } => (
            StoreView { locations: store.locations.insert(bus_id, position), ..store },
            ReplyView::Written,
        ),
    }
}

/// The tables after `stop_list` was registered as the route of `bus_id`, with
/// the bus at `position`: the bus is merged into the stop-index row of each
/// stop of the route, and the route row and the location row of the bus are
/// written.
pub open spec fn registered(
    store: StoreView,
    bus_id: Seq<char>,
    stop_list: Seq<char>,
    position: Coordinates,
) -> StoreView {
    StoreView {
        locations: store.locations.insert(bus_id, position),
        places: store.places,
        routes: store.routes.insert(bus_id, stop_list),
        stop_index: merge_all(store.stop_index, split(stop_list), bus_id),
    }
}

/// Whether `store` is a state that a registration running alone, begun on
/// `origin`, is in when it stands at `registration`.
spec fn on_course(registration: RegistrationView, store: StoreView, origin: StoreView) -> bool {
    let stops = registration.stops();
    let bus_id = registration.bus_id;
    let merged = registration.merged as int;
    let merging = {
        &&& merged < stops.len()
        &&& store.stop_index == merge_all(origin.stop_index, stops.take(merged), bus_id)
        &&& store.routes == origin.routes
        &&& store.locations == origin.locations
    };
    &&& store.places == origin.places
    &&& match registration.phase {
        Phase::Awaiting(ActionView::FindStop { place_id }) => merging && place_id == stops[merged],
        Phase::Awaiting(ActionView::InsertStop { place_id, bus_list }) => merging && merge_write(
            stops[merged],
            store.stop_index.get(stops[merged]),
            bus_id,
        ) == Some(ActionView::InsertStop { place_id, bus_list }),
        Phase::Awaiting(ActionView::ReplaceStop { place_id, bus_list }) => merging && merge_write(
            stops[merged],
            store.stop_index.get(stops[merged]),
            bus_id,
        ) == Some(ActionView::ReplaceStop { place_id, bus_list }),
        Phase::Awaiting(ActionView::ReplaceRoute { bus_id: bus, stop_list }) => {
            &&& bus == bus_id
            &&& stop_list == registration.stop_list
            &&& store.stop_index == merge_all(origin.stop_index, stops, bus_id)
            &&& store.routes == origin.routes
            &&& store.locations == origin.locations
        },
        Phase::Awaiting(ActionView::ReplaceLocation { bus_id: bus, position }) => {
            &&& bus == bus_id
            &&& position == registration.position
            &&& store.stop_index == merge_all(origin.stop_index, stops, bus_id)
            &&& store.routes == origin.routes.insert(bus_id, registration.stop_list)
            &&& store.locations == origin.locations
        },
        Phase::Finished(outcome) => {
            &&& outcome is Ok
            &&& store == registered(
                origin,
                bus_id,
                registration.stop_list,
                registration.position,
            )
        },
    }
}

proof fn lemma_merged_one_more(
    index: Map<Seq<char>, Seq<char>>,
    stops: Seq<Seq<char>>,
    merged: int,
    bus_id: Seq<char>,
)
    requires
        0 <= merged < stops.len(),
    ensures
        merge_all(index, stops.take(merged + 1), bus_id) == merge_one(
            merge_all(index, stops.take(merged), bus_id),
            stops[merged],
            bus_id,
        ),
{
    let longer = stops.take(merged + 1);
    assert(longer.drop_last() =~= stops.take(merged));
    assert(longer.last() == stops[merged]);
}

proof fn lemma_stays_on_course(
    registration: RegistrationView,
    store: StoreView,
    origin: StoreView,
    action: ActionView,
)
    requires
        on_course(registration, store, origin),
        registration.phase == Phase::Awaiting(action),
    ensures
        on_course(registration.after(performed(store, action).1), performed(store, action).0, origin),
{
    let stops = registration.stops();
    let bus_id = registration.bus_id;
    let merged = registration.merged as int;
    match action {
        ActionView::FindStop { place_id } => {
            lemma_merged_one_more(origin.stop_index, stops, merged, bus_id);
            if merge_write(place_id, store.stop_index.get(place_id), bus_id) is None {
                assert(merge_one(store.stop_index, place_id, bus_id) =~= store.stop_index);
                if merged + 1 == stops.len() {
                    assert(stops.take(merged + 1) =~= stops);
                }
            }
        },
        ActionView::InsertStop { .. } | ActionView::ReplaceStop { .. } => {
            lemma_merged_one_more(origin.stop_index, stops, merged, bus_id);
            if merged + 1 == stops.len() {
                assert(stops.take(merged + 1) =~= stops);
            }
        },
        ActionView::ReplaceRoute { .. } => {},
        ActionView::ReplaceLocation { .. } => {},
    }
}

/// The tables after new coordinates came in for `bus_id`, and whether they
/// were taken: they are taken for a bus that has a location row, and dropped
/// for any other.
pub open spec fn location_posted(store: StoreView, bus_id: Seq<char>, position: Coordinates) -> (
    StoreView,
    bool,
) {
    if store.locations.contains_key(bus_id) {
        (StoreView { locations: store.locations.insert(bus_id, position), ..store }, true)
    } else {
        (store, false)
    }
}

/// The tables after the stop `place_id` was submitted, and how the
/// submission ended: a stop is added once, and a second submission of it is a
/// conflict that changes nothing.
pub open spec fn place_posted(store: StoreView, place_id: Seq<char>, position: Coordinates) -> (
    StoreView,
    Result<(), ServiceError>,
) {
    if store.places.contains_key(place_id) {
        (store, Err(ServiceError::Conflict))
    } else {
        (StoreView { places: store.places.insert(place_id, position), ..store }, Ok(()))
    }
}

/// How a deletion by key ended, given the number of rows that it removed: it
/// succeeded where it removed one row, and else the key was not found.
pub fn deletion_outcome(removed: usize) -> (outcome: Result<(), ServiceError>)
    ensures
        outcome == if removed == 1 {
            Ok::<(), ServiceError>(())
        } else {
            Err::<(), ServiceError>(ServiceError::NotFound)
        },
{
    if removed == 1 {
        Ok(())
    } else {
        Err(ServiceError::NotFound)
    }
}

/// Removes the row of `key` from `table`. Where the key has no row the table
/// stays as it is and the key is reported as not found.
pub fn delete_row<V: View>(table: &mut Table<V>, key: &str) -> (outcome: Result<(), ServiceError>)
    ensures
        outcome == if old(table)@.contains_key(key@) {
            Ok::<(), ServiceError>(())
        } else {
            Err::<(), ServiceError>(ServiceError::NotFound)
        },
        final(table)@ == old(table)@.remove(key@),
{
    deletion_outcome(table.delete(key))
}

/// The value that `table` holds under `key`; the key is reported as not found
/// where it has no row.
pub fn fetch_row<'a, V: View>(table: &'a Table<V>, key: &str) -> (row: Result<&'a V, ServiceError>)
    ensures
        match row {
            Ok(value) => table@.contains_key(key@) && table@[key@] == value@,
            Err(error) => error == ServiceError::NotFound && !table@.contains_key(key@),
        },
{
    match table.get(key) {
        Some(value) => Ok(value),
        None => Err(ServiceError::NotFound),
    }
}

impl Store {
    /// The store with every table empty.
    pub fn new() -> (store: Self)
        ensures
            store@.locations == Map::<Seq<char>, Coordinates>::empty(),
            store@.places == Map::<Seq<char>, Coordinates>::empty(),
            store@.routes == Map::<Seq<char>, Seq<char>>::empty(),
            store@.stop_index == Map::<Seq<char>, Seq<char>>::empty(),
    {
        Store {
            locations: Table::new(),
            places: Table::new(),
            routes: Table::new(),
            stop_index: Table::new(),
        }
    }

    /// Performs one action of a registration on the tables, and gives the
    /// reply to it.
    pub fn perform(&mut self, action: &Action) -> (reply: Reply)
        ensures
            (final(self)@, reply@) == performed(old(self)@, action@),
    {
        match action {
            Action::FindStop { place_id } => {
                match self.stop_index.get(place_id.as_str()) {
                    Some(bus_list) => Reply::Found { bus_list: bus_list.clone() },
                    None => Reply::Missing,
                }
            },
            Action::InsertStop { place_id, bus_list } => {
                if self.stop_index.insert(place_id.clone(), bus_list.clone()) {
                    Reply::Written
                } else {
                    Reply::Rejected
                }
            },
            Action::ReplaceStop { place_id, bus_list } => {
                self.stop_index.put(place_id.clone(), bus_list.clone());
                Reply::Written
            },
            Action::ReplaceRoute { bus_id, stop_list } => {
                self.routes.put(bus_id.clone(), stop_list.clone());
                Reply::Written
            },
            Action::ReplaceLocation { bus_id, position } => {
                self.locations.put(bus_id.clone(), *position);
                Reply::Written
            },
        }
    }

    /// Merges `bus_id` into the stop-index row of `place_id`: a stop without
    /// a row gets one that names the bus alone, a row that names the bus
    /// stays as it is, and any other row gets the bus appended.
    pub fn merge_bus_into_stop(&mut self, place_id: &str, bus_id: &str)
        ensures
            final(self)@ == (StoreView {
                stop_index: merge_one(old(self)@.stop_index, place_id@, bus_id@),
                ..old(self)@
            }),
    {
        let write = match self.stop_index.get(place_id) {
            Some(bus_list) => merge_bus(place_id, Some(bus_list.as_str()), bus_id),
            None => merge_bus(place_id, None, bus_id),
        };
        match write {
            Some(action) => {
                self.perform(&action);
            },
            None => {
                assert(merge_one(self@.stop_index, place_id@, bus_id@) =~= self@.stop_index);
            },
        }
    }

    /// Registers `stop_list`, a list of stops joined by `|`, as the route of
    /// `bus_id`, with the bus at `position`. Held in memory and run alone, a
    /// registration is never refused a write, so it always goes through.
    pub fn register_route(&mut self, bus_id: &str, stop_list: &str, position: Coordinates) -> (outcome:
        Result<(), ServiceError>)
        ensures
            outcome is Ok,
            final(self)@ == registered(old(self)@, bus_id@, stop_list@, position),
    {
        let mut registration = Registration::begin(bus_id, stop_list, position);
        let ghost origin = self@;
        proof {
            assert(registration@.stops().take(0) =~= Seq::<Seq<char>>::empty());
            lemma_split_nonempty(stop_list@);
        }
        loop
            invariant
                on_course(registration@, self@, origin),
                registration@.bus_id == bus_id@,
                registration@.stop_list == stop_list@,
                registration@.position == position,
            ensures
                registration@.phase is Finished,
            decreases registration@.steps_left(),
        {
            match registration.pending() {
                None => {
                    break ;
                },
                Some(action) => {
                    let ghost before = registration@;
                    let ghost tables = self@;
                    let reply = self.perform(action);
                    proof {
                        lemma_stays_on_course(before, tables, origin, action@);
                        lemma_answers_make_progress(before, reply@);
                    }
                    registration.advance(reply);
                },
            }
        }
        match registration.outcome() {
            Some(outcome) => outcome,
            None => Ok(()),
        }
    }

    /// Takes new coordinates for a bus that is tracked already, and reports
    /// whether it did. Coordinates for a bus without a location row are
    /// dropped: a bus enters the table when its route is registered.
    pub fn post_location(&mut self, bus_id: &str, position: Coordinates) -> (updated: bool)
        ensures
            (final(self)@, updated) == location_posted(old(self)@, bus_id@, position),
    {
        if self.locations.contains(bus_id) {
            self.locations.put(bus_id.to_owned(), position);
            true
        } else {
            false
        }
    }

    /// Adds the stop `place_id` at `position`. A stop that is there already
    /// keeps its coordinates, and the call reports a conflict.
    pub fn post_place(&mut self, place_id: &str, position: Coordinates) -> (outcome: Result<
        (),
        ServiceError,
    >)
        ensures
            (final(self)@, outcome) == place_posted(old(self)@, place_id@, position),
    {
        if self.places.insert(place_id.to_owned(), position) {
            Ok(())
        } else {
            Err(ServiceError::Conflict)
        }
    }

    /// Deletes every route. The index is left as it is.
    pub fn clear_routes(&mut self)
        ensures
            final(self)@ == (StoreView { routes: Map::<Seq<char>, Seq<char>>::empty(), ..old(self)@ }),
    {
        self.routes.clear();
    }
}

} // verus!
