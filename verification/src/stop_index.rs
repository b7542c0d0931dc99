//! The stop index: for each stop, the buses that serve it.
//!
//! The index is derived from the routes, and is kept up to date one stop at a
//! time: whenever a route is registered, its bus is merged into the row of
//! each of its stops.

use crate::pipe_list::{appended, lists_id, split, with_id};
use crate::protocol::{Action, ActionView};
use vstd::prelude::*;

verus! {

/// The list of buses of a stop after `bus_id` was merged into it: the bus
/// alone where the stop had no row, the old list where it names the bus, and
/// else the old list with the bus appended.
pub open spec fn merged_list(existing: Option<Seq<char>>, bus_id: Seq<char>) -> Seq<char> {
    match existing {
        None => bus_id,
        Some(bus_list) => if split(bus_list).contains(bus_id) {
            bus_list
        } else {
            appended(bus_list, bus_id)
        },
    }
}

/// The write by which `bus_id` is merged into the row of `place_id`, given
/// what a lookup of the row found; `None` where the row names the bus and
/// stays as it is.
pub open spec fn merge_write(
    place_id: Seq<char>,
    existing: Option<Seq<char>>,
    bus_id: Seq<char>,
) -> Option<ActionView> {
    match existing {
        None => Some(ActionView::InsertStop { place_id, bus_list: bus_id }),
        Some(bus_list) => if split(bus_list).contains(bus_id) {
            None
        } else {
            Some(ActionView::ReplaceStop { place_id, bus_list: appended(bus_list, bus_id) })
        },
    }
}

/// The index after `bus_id` was merged into the row of `place_id`.
pub open spec fn merge_one(
    index: Map<Seq<char>, Seq<char>>,
    place_id: Seq<char>,
    bus_id: Seq<char>,
) -> Map<Seq<char>, Seq<char>> {
    index.insert(place_id, merged_list(index.get(place_id), bus_id))
}

/// The index after `bus_id` was merged into the rows of `stops`, one stop
/// after the other.
pub open spec fn merge_all(
    index: Map<Seq<char>, Seq<char>>,
    stops: Seq<Seq<char>>,
    bus_id: Seq<char>,
) -> Map<Seq<char>, Seq<char>>
    decreases stops.len(),
{
    if stops.len() == 0 {
        index
    } else {
        merge_one(merge_all(index, stops.drop_last(), bus_id), stops.last(), bus_id)
    }
}

/// What a lookup found, as a view.
pub open spec fn found_text(found: Option<&str>) -> Option<Seq<char>> {
    match found {
        Some(text) => Some(text@),
        None => None,
    }
}

/// Whether the row of `place_id` names `bus_id`.
pub open spec fn serves(
    index: Map<Seq<char>, Seq<char>>,
    place_id: Seq<char>,
    bus_id: Seq<char>,
) -> bool {
    index.contains_key(place_id) && split(index[place_id]).contains(bus_id)
}

/// Decides how to merge `bus_id` into the row of `place_id`, of which
/// `existing` is what a lookup found.
pub fn merge_bus(place_id: &str, existing: Option<&str>, bus_id: &str) -> (write: Option<Action>)
    ensures
        match write {
            Some(action) => merge_write(place_id@, found_text(existing), bus_id@) == Some(action@),
            None => merge_write(place_id@, found_text(existing), bus_id@) is None,
        },
{
    match existing {
        None => Some(
            Action::InsertStop { place_id: place_id.to_owned(), bus_list: bus_id.to_owned() },
        ),
        Some(bus_list) => {
            if lists_id(bus_list, bus_id) {
                None
            } else {
                Some(
                    Action::ReplaceStop {
                        place_id: place_id.to_owned(),
                        bus_list: with_id(bus_list, bus_id),
                    },
                )
            }
        },
    }
}

} // verus!
