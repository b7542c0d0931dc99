//! What holds of stored lists, of the tables and of registrations, whatever
//! the values.
//!
//! The laws about the stop index ask that the bus identifier be plain. A bus
//! identifier that holds a `|` is stored as several fields, so the index never
//! shows it as one bus, and a second registration appends it once more.

use crate::error::ServiceError;
use crate::pipe_list::{
    appended,
    is_plain,
    join,
    lemma_appended_fields,
    lemma_split_appended,
    lemma_split_nonempty,
    lemma_split_of_plain,
    split,
    SEPARATOR,
};
use crate::position::Coordinates;
use crate::protocol::ReplyView;
use crate::registration::{Phase, RegistrationView};
use crate::routing::{lemma_routing_length, lookups, missing, resolved, routing_of};
use crate::stop_index::{merge_all, merge_one, serves};
use crate::store::{location_posted, place_posted, registered, StoreView};
use vstd::prelude::*;

verus! {

/// No field holds a separator.
pub proof fn law_fields_are_plain(text: Seq<char>)
    ensures
        forall|i: int| 0 <= i < split(text).len() ==> is_plain(#[trigger] split(text)[i]),
    decreases text.len(),
{
    if text.len() > 0 {
        let before = split(text.drop_last());
        law_fields_are_plain(text.drop_last());
        lemma_split_nonempty(text.drop_last());
        if text.last() != SEPARATOR {
            let grown = before.last().push(text.last());
            assert forall|j: int| 0 <= j < grown.len() implies grown[j] != SEPARATOR by {
                if j < before.last().len() {
                    assert(is_plain(before[before.len() - 1]));
                    assert(before.last()[j] == grown[j]);
                }
            }
        }
    }
}

/// Joining the fields of a text gives the text back.
pub proof fn law_join_of_split(text: Seq<char>)
    ensures
        join(split(text)) == text,
    decreases text.len(),
{
    if text.len() == 0 {
        assert(join(split(text)) =~= text);
    } else {
        let shorter = text.drop_last();
        let before = split(shorter);
        law_join_of_split(shorter);
        lemma_split_nonempty(shorter);
        if text.last() == SEPARATOR {
            let fields = before.push(Seq::<char>::empty());
            assert(fields.drop_last() =~= before);
            assert(join(fields) =~= text);
        } else {
            let grown = before.last().push(text.last());
            let fields = before.drop_last().push(grown);
            assert(fields.drop_last() =~= before.drop_last());
            if before.len() == 1 {
                assert(join(fields) =~= text);
            } else {
                assert(join(before) == appended(join(before.drop_last()), before.last()));
                assert(join(fields) =~= join(before).push(text.last()));
                assert(join(fields) =~= text);
            }
        }
    }
}

/// Splitting the stored text of plain fields gives the fields back. With
/// [`law_join_of_split`] and [`law_fields_are_plain`] this says what the
/// fields of a text are: the one list of plain fields that joins to it.
pub proof fn law_split_of_join(fields: Seq<Seq<char>>)
    requires
        fields.len() >= 1,
        forall|i: int| 0 <= i < fields.len() ==> is_plain(#[trigger] fields[i]),
    ensures
        split(join(fields)) == fields,
    decreases fields.len(),
{
    if fields.len() == 1 {
        lemma_split_of_plain(fields[0]);
        assert(split(join(fields)) =~= fields);
    } else {
        let earlier = fields.drop_last();
        assert forall|i: int| 0 <= i < earlier.len() implies is_plain(#[trigger] earlier[i]) by {
            assert(earlier[i] == fields[i]);
        }
        law_split_of_join(earlier);
        assert(is_plain(fields[fields.len() - 1]));
        lemma_appended_fields(join(earlier), fields.last());
        assert(earlier.push(fields.last()) =~= fields);
    }
}

/// Whether the index names each bus at every stop of its route.
pub open spec fn index_covers_routes(store: StoreView) -> bool {
    forall|bus_id: Seq<char>, i: int|
        store.routes.contains_key(bus_id) && 0 <= i < split(store.routes[bus_id]).len() ==> serves(
            store.stop_index,
            #[trigger] split(store.routes[bus_id])[i],
            bus_id,
        )
}

/// Whether no row of the index names a bus twice.
pub open spec fn index_is_duplicate_free(index: Map<Seq<char>, Seq<char>>) -> bool {
    forall|place_id: Seq<char>|
        index.contains_key(place_id) ==> (#[trigger] split(index[place_id])).no_duplicates()
}

/// Merging a bus into a stop that names it changes nothing.
pub proof fn law_merge_is_idempotent(
    index: Map<Seq<char>, Seq<char>>,
    place_id: Seq<char>,
    bus_id: Seq<char>,
)
    requires
        serves(index, place_id, bus_id),
    ensures
        merge_one(index, place_id, bus_id) == index,
{
    assert(merge_one(index, place_id, bus_id) =~= index);
}

/// After a plain bus was merged into a stop, the stop names it.
pub proof fn law_merge_names_the_bus(
    index: Map<Seq<char>, Seq<char>>,
    place_id: Seq<char>,
    bus_id: Seq<char>,
)
    requires
        is_plain(bus_id),
    ensures
        serves(merge_one(index, place_id, bus_id), place_id, bus_id),
{
    lemma_split_of_plain(bus_id);
    assert(seq![bus_id][0] == bus_id);
    if index.contains_key(place_id) {
        let bus_list = index[place_id];
        if !split(bus_list).contains(bus_id) {
            lemma_appended_fields(bus_list, bus_id);
            assert(split(bus_list).push(bus_id)[split(bus_list).len() as int] == bus_id);
        }
    }
}

/// Merging removes no bus from any stop: whatever a stop named before, it
/// names after.
pub proof fn law_merge_keeps_members(
    index: Map<Seq<char>, Seq<char>>,
    place_id: Seq<char>,
    bus_id: Seq<char>,
    other_place: Seq<char>,
    other_bus: Seq<char>,
)
    requires
        serves(index, other_place, other_bus),
    ensures
        serves(merge_one(index, place_id, bus_id), other_place, other_bus),
{
    if other_place == place_id {
        let bus_list = index[place_id];
        if !split(bus_list).contains(bus_id) {
            lemma_split_appended(bus_list, bus_id);
            let at = choose|i: int| 0 <= i < split(bus_list).len() && split(bus_list)[i] == other_bus;
            assert((split(bus_list) + split(bus_id))[at] == other_bus);
        }
    }
}

/// Merging a plain bus into a stop leaves every row free of duplicates.
pub proof fn law_merge_adds_no_duplicate(
    index: Map<Seq<char>, Seq<char>>,
    place_id: Seq<char>,
    bus_id: Seq<char>,
)
    requires
        is_plain(bus_id),
        index_is_duplicate_free(index),
    ensures
        index_is_duplicate_free(merge_one(index, place_id, bus_id)),
{
    let after = merge_one(index, place_id, bus_id);
    assert forall|place: Seq<char>| after.contains_key(place) implies (#[trigger] split(
        after[place],
    )).no_duplicates() by {
        if place == place_id {
            lemma_split_of_plain(bus_id);
            if index.contains_key(place_id) {
                let bus_list = index[place_id];
                assert(split(bus_list).no_duplicates());
                if !split(bus_list).contains(bus_id) {
                    lemma_appended_fields(bus_list, bus_id);
                }
            }
        } else {
            assert(after[place] == index[place]);
            assert(split(index[place]).no_duplicates());
        }
    }
}

/// Merging a bus into the stops of a route removes no bus from any stop.
pub proof fn law_registration_keeps_members(
    index: Map<Seq<char>, Seq<char>>,
    stops: Seq<Seq<char>>,
    bus_id: Seq<char>,
    other_place: Seq<char>,
    other_bus: Seq<char>,
)
    requires
        serves(index, other_place, other_bus),
    ensures
        serves(merge_all(index, stops, bus_id), other_place, other_bus),
    decreases stops.len(),
{
    if stops.len() > 0 {
        law_registration_keeps_members(index, stops.drop_last(), bus_id, other_place, other_bus);
        law_merge_keeps_members(
            merge_all(index, stops.drop_last(), bus_id),
            stops.last(),
            bus_id,
            other_place,
            other_bus,
        );
    }
}

/// After a plain bus was merged into the stops of a route, every one of the
/// stops names it.
pub proof fn law_merged_stops_name_the_bus(
    index: Map<Seq<char>, Seq<char>>,
    stops: Seq<Seq<char>>,
    bus_id: Seq<char>,
)
    requires
        is_plain(bus_id),
    ensures
        forall|i: int|
            0 <= i < stops.len() ==> serves(merge_all(index, stops, bus_id), #[trigger] stops[i], bus_id),
    decreases stops.len(),
{
    if stops.len() > 0 {
        let earlier = merge_all(index, stops.drop_last(), bus_id);
        law_merged_stops_name_the_bus(index, stops.drop_last(), bus_id);
        assert forall|i: int| 0 <= i < stops.len() implies serves(
            merge_all(index, stops, bus_id),
            #[trigger] stops[i],
            bus_id,
        ) by {
            if i < stops.len() - 1 {
                assert(stops.drop_last()[i] == stops[i]);
                law_merge_keeps_members(earlier, stops.last(), bus_id, stops[i], bus_id);
            } else {
                law_merge_names_the_bus(earlier, stops.last(), bus_id);
            }
        }
    }
}

/// Merging a bus into stops that all name it changes nothing.
pub proof fn law_merging_again_changes_nothing(
    index: Map<Seq<char>, Seq<char>>,
    stops: Seq<Seq<char>>,
    bus_id: Seq<char>,
)
    requires
        forall|i: int| 0 <= i < stops.len() ==> serves(index, #[trigger] stops[i], bus_id),
    ensures
        merge_all(index, stops, bus_id) == index,
    decreases stops.len(),
{
    if stops.len() > 0 {
        assert forall|i: int| 0 <= i < stops.drop_last().len() implies serves(
            index,
            #[trigger] stops.drop_last()[i],
            bus_id,
        ) by {
            assert(stops.drop_last()[i] == stops[i]);
        }
        law_merging_again_changes_nothing(index, stops.drop_last(), bus_id);
        assert(serves(index, stops[stops.len() - 1], bus_id));
        law_merge_is_idempotent(index, stops.last(), bus_id);
    }
}

/// Merging a plain bus into the stops of a route leaves every row of the
/// index free of duplicates.
pub proof fn law_registration_adds_no_duplicate(
    index: Map<Seq<char>, Seq<char>>,
    stops: Seq<Seq<char>>,
    bus_id: Seq<char>,
)
    requires
        is_plain(bus_id),
        index_is_duplicate_free(index),
    ensures
        index_is_duplicate_free(merge_all(index, stops, bus_id)),
    decreases stops.len(),
{
    if stops.len() > 0 {
        law_registration_adds_no_duplicate(index, stops.drop_last(), bus_id);
        law_merge_adds_no_duplicate(
            merge_all(index, stops.drop_last(), bus_id),
            stops.last(),
            bus_id,
        );
    }
}

/// Registering the same route of a plain bus a second time leaves the tables
/// as the first registration left them: no stop names the bus twice, and
/// nothing else moves.
pub proof fn law_registration_is_idempotent(
    store: StoreView,
    bus_id: Seq<char>,
    stop_list: Seq<char>,
    position: Coordinates,
)
    requires
        is_plain(bus_id),
    ensures
        registered(registered(store, bus_id, stop_list, position), bus_id, stop_list, position)
            == registered(store, bus_id, stop_list, position),
{
    let once = registered(store, bus_id, stop_list, position);
    let twice = registered(once, bus_id, stop_list, position);
    law_merged_stops_name_the_bus(store.stop_index, split(stop_list), bus_id);
    law_merging_again_changes_nothing(once.stop_index, split(stop_list), bus_id);
    assert(twice.locations =~= once.locations);
    assert(twice.routes =~= once.routes);
}

/// After the route of a plain bus was registered, every stop of the route
/// names the bus in the index, the route row holds the list of stops as it
/// was given, and the location row holds the coordinates.
pub proof fn law_registered_stops_name_the_bus(
    store: StoreView,
    bus_id: Seq<char>,
    stop_list: Seq<char>,
    position: Coordinates,
)
    requires
        is_plain(bus_id),
    ensures
        forall|i: int|
            0 <= i < split(stop_list).len() ==> serves(
                registered(store, bus_id, stop_list, position).stop_index,
                #[trigger] split(stop_list)[i],
                bus_id,
            ),
        registered(store, bus_id, stop_list, position).routes.get(bus_id) == Some(stop_list),
        registered(store, bus_id, stop_list, position).locations.get(bus_id) == Some(position),
{
    law_merged_stops_name_the_bus(store.stop_index, split(stop_list), bus_id);
}

/// Registering the route of a plain bus keeps the index sound: where it
/// named each bus at every stop of its route, each once at most, it still
/// does.
pub proof fn law_registration_keeps_index_sound(
    store: StoreView,
    bus_id: Seq<char>,
    stop_list: Seq<char>,
    position: Coordinates,
)
    requires
        is_plain(bus_id),
        index_covers_routes(store),
        index_is_duplicate_free(store.stop_index),
    ensures
        index_covers_routes(registered(store, bus_id, stop_list, position)),
        index_is_duplicate_free(registered(store, bus_id, stop_list, position).stop_index),
{
    let after = registered(store, bus_id, stop_list, position);
    law_registration_adds_no_duplicate(store.stop_index, split(stop_list), bus_id);
    law_merged_stops_name_the_bus(store.stop_index, split(stop_list), bus_id);
    assert forall|bus: Seq<char>, i: int|
        after.routes.contains_key(bus) && 0 <= i < split(after.routes[bus]).len() implies serves(
        after.stop_index,
        #[trigger] split(after.routes[bus])[i],
        bus,
    ) by {
        if bus != bus_id {
            assert(after.routes[bus] == store.routes[bus]);
            let stop = split(store.routes[bus])[i];
            assert(serves(store.stop_index, stop, bus));
            law_registration_keeps_members(store.stop_index, split(stop_list), bus_id, stop, bus);
        }
    }
}

/// A registration that is cut short keeps the index covering the routes:
/// each single merge does, whatever the bus and the stop.
pub proof fn law_partial_registration_keeps_cover(
    store: StoreView,
    place_id: Seq<char>,
    bus_id: Seq<char>,
)
    requires
        index_covers_routes(store),
    ensures
        index_covers_routes(
            StoreView { stop_index: merge_one(store.stop_index, place_id, bus_id), ..store },
        ),
{
    let after = StoreView { stop_index: merge_one(store.stop_index, place_id, bus_id), ..store };
    assert forall|bus: Seq<char>, i: int|
        after.routes.contains_key(bus) && 0 <= i < split(after.routes[bus]).len() implies serves(
        after.stop_index,
        #[trigger] split(after.routes[bus])[i],
        bus,
    ) by {
        let stop = split(store.routes[bus])[i];
        assert(serves(store.stop_index, stop, bus));
        law_merge_keeps_members(store.stop_index, place_id, bus_id, stop, bus);
    }
}

/// Registering a route touches the index rows of its own stops only.
pub proof fn law_registration_leaves_other_stops(
    index: Map<Seq<char>, Seq<char>>,
    stops: Seq<Seq<char>>,
    bus_id: Seq<char>,
    place_id: Seq<char>,
)
    requires
        !stops.contains(place_id),
    ensures
        merge_all(index, stops, bus_id).get(place_id) == index.get(place_id),
    decreases stops.len(),
{
    if stops.len() > 0 {
        assert(stops.last() == stops[stops.len() - 1]);
        assert forall|i: int| 0 <= i < stops.drop_last().len() implies stops.drop_last()[i]
            != place_id by {
            assert(stops.drop_last()[i] == stops[i]);
        }
        law_registration_leaves_other_stops(index, stops.drop_last(), bus_id, place_id);
    }
}

/// The routing of a bus leaves out the stops that have no row among the
/// places, and nothing else: it is as much shorter than the route as stops
/// are missing.
pub proof fn law_routing_omits_missing_stops(store: StoreView, bus_id: Seq<char>)
    requires
        store.routes.contains_key(bus_id),
    ensures
        routing_of(store, bus_id) matches Some(routing) && routing.bus_id == bus_id
            && routing.places.len() + missing(
            split(store.routes[bus_id]),
            lookups(split(store.routes[bus_id]), store.places),
        ) == split(store.routes[bus_id]).len(),
{
    let stops = split(store.routes[bus_id]);
    lemma_routing_length(stops, lookups(stops, store.places));
}

/// A routing holds nothing but stops of the route that were found, each with
/// the coordinates that its own lookup gave.
pub proof fn law_routing_holds_found_stops(
    stops: Seq<Seq<char>>,
    found: Seq<Option<Coordinates>>,
    i: int,
)
    requires
        0 <= i < resolved(stops, found).len(),
    ensures
        exists|j: int|
            0 <= j < stops.len() && j < found.len() && found[j] is Some && resolved(stops, found)[i]
                == (#[trigger] stops[j], found[j]->0),
    decreases stops.len(),
{
    if stops.len() > 0 {
        let before = resolved(stops.drop_last(), found);
        let at = stops.len() - 1;
        if i < before.len() {
            law_routing_holds_found_stops(stops.drop_last(), found, i);
            let j = choose|j: int|
                0 <= j < stops.drop_last().len() && j < found.len() && found[j] is Some && before[i]
                    == (#[trigger] stops.drop_last()[j], found[j]->0);
            assert(stops[j] == stops.drop_last()[j]);
        } else {
            assert(resolved(stops, found)[i] == (stops[at], found[at]->0));
        }
    }
}

/// Where every stop of a route has a row among the places, the routing holds
/// every stop of the route, in order, with the coordinates of its row.
pub proof fn law_routing_of_known_stops(stops: Seq<Seq<char>>, places: Map<Seq<char>, Coordinates>)
    requires
        forall|i: int| 0 <= i < stops.len() ==> places.contains_key(#[trigger] stops[i]),
    ensures
        resolved(stops, lookups(stops, places)) == Seq::new(
            stops.len(),
            |i: int| (stops[i], places[stops[i]]),
        ),
    decreases stops.len(),
{
    if stops.len() > 0 {
        let shorter = stops.drop_last();
        assert forall|i: int| 0 <= i < shorter.len() implies places.contains_key(
            #[trigger] shorter[i],
        ) by {
            assert(shorter[i] == stops[i]);
        }
        law_routing_of_known_stops(shorter, places);
        lemma_resolved_ignores_later_lookups(
            shorter,
            lookups(shorter, places),
            lookups(stops, places),
        );
        assert(places.contains_key(stops[stops.len() - 1]));
        assert(resolved(stops, lookups(stops, places)) =~= Seq::new(
            stops.len(),
            |i: int| (stops[i], places[stops[i]]),
        ));
    } else {
        assert(resolved(stops, lookups(stops, places)) =~= Seq::new(
            stops.len(),
            |i: int| (stops[i], places[stops[i]]),
        ));
    }
}

proof fn lemma_resolved_ignores_later_lookups(
    stops: Seq<Seq<char>>,
    found: Seq<Option<Coordinates>>,
    longer: Seq<Option<Coordinates>>,
)
    requires
        stops.len() <= found.len() <= longer.len(),
        forall|i: int| 0 <= i < stops.len() ==> found[i] == longer[i],
    ensures
        resolved(stops, found) == resolved(stops, longer),
    decreases stops.len(),
{
    if stops.len() > 0 {
        lemma_resolved_ignores_later_lookups(stops.drop_last(), found, longer);
    }
}

/// A write that the store refuses ends the registration, and nothing that
/// comes in later moves it: where the route row is refused, the location row
/// is never asked for. The failure is a partial update where an earlier write
/// of the registration had gone through, and a storage failure where none
/// had.
pub proof fn law_refused_write_ends_registration(state: RegistrationView, later: ReplyView)
    requires
        state.phase matches Phase::Awaiting(action) && !(action is FindStop),
    ensures
        state.after(ReplyView::Rejected).phase == Phase::Finished(
            Err(
                if state.wrote {
                    ServiceError::PartialUpdate
                } else {
                    ServiceError::StorageFailure
                },
            ),
        ),
        state.after(ReplyView::Rejected).after(later) == state.after(ReplyView::Rejected),
{
}

/// The location row is asked for only as the next thing after the route row
/// was written.
pub proof fn law_location_follows_route(state: RegistrationView, reply: ReplyView)
    requires
        state.after(reply).phase matches Phase::Awaiting(action) && action is ReplaceLocation,
        !(state.phase matches Phase::Awaiting(action) && action is ReplaceLocation),
    ensures
        state.phase matches Phase::Awaiting(action) && action is ReplaceRoute,
        reply is Written,
{
}

/// A registration succeeds only by the location row being written.
pub proof fn law_success_follows_location(state: RegistrationView, reply: ReplyView)
    requires
        state.after(reply).phase == Phase::Finished(Ok::<(), ServiceError>(())),
        !(state.phase is Finished),
    ensures
        state.phase matches Phase::Awaiting(action) && action is ReplaceLocation,
        reply is Written,
{
}

/// A stop that was submitted and accepted is there with the coordinates that
/// were submitted, bit for bit.
pub proof fn law_place_round_trip(store: StoreView, place_id: Seq<char>, position: Coordinates)
    requires
        place_posted(store, place_id, position).1 is Ok,
    ensures
        place_posted(store, place_id, position).0.places.get(place_id) == Some(position),
{
}

/// Coordinates that were taken for a bus are the coordinates of the bus, bit
/// for bit.
pub proof fn law_location_round_trip(store: StoreView, bus_id: Seq<char>, position: Coordinates)
    requires
        location_posted(store, bus_id, position).1,
    ensures
        location_posted(store, bus_id, position).0.locations.get(bus_id) == Some(position),
{
}

/// Coordinates never enter the table for a bus that has no location row:
/// they are dropped, and the tables stay as they are.
pub proof fn law_location_of_unknown_bus(store: StoreView, bus_id: Seq<char>, position: Coordinates)
    requires
        !store.locations.contains_key(bus_id),
    ensures
        location_posted(store, bus_id, position) == (store, false),
{
}

/// Deleting the route of a bus leaves the index as it is: the stops go on
/// naming the bus.
pub proof fn law_route_deletion_leaves_index(store: StoreView, bus_id: Seq<char>)
    ensures
        (StoreView { routes: store.routes.remove(bus_id), ..store }).stop_index == store.stop_index,
{
}

} // verus!
