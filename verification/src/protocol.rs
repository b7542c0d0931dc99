//! What a registration asks of the store that it runs against, and what the
//! store answers.
//!
//! The registration itself touches no store. It names one action at a time;
//! whoever holds the store performs the action and hands back the reply.

use crate::position::Coordinates;
use vstd::prelude::*;

verus! {

/// One access to the store.
#[derive(Clone, Debug, PartialEq, Eq)]
pub enum Action {
    /// Look up the stop-index row of a stop.
    FindStop { place_id: String },
    /// Add a stop-index row for a stop that had none when it was looked up.
    /// A store that finds a row there by now refuses.
    InsertStop { place_id: String, bus_list: String },
    /// Write the stop-index row of a stop, whatever the store holds for it.
    ReplaceStop { place_id: String, bus_list: String },
    /// Write the route row of a bus, in place of any earlier one.
    ReplaceRoute { bus_id: String, stop_list: String },
    /// Write the location row of a bus, in place of any earlier one.
    ReplaceLocation { bus_id: String, position: Coordinates },
}

/// The view of an [`Action`].
pub enum ActionView {
    FindStop { place_id: Seq<char> },
    InsertStop { place_id: Seq<char>, bus_list: Seq<char> },
    ReplaceStop { place_id: Seq<char>, bus_list: Seq<char> },
    ReplaceRoute { bus_id: Seq<char>, stop_list: Seq<char> },
    ReplaceLocation { bus_id: Seq<char>, position: Coordinates },
}

impl View for Action {
    type V = ActionView;

    open spec fn view(&self) -> ActionView {
        match self {
            Action::FindStop { place_id } => ActionView::FindStop { place_id: place_id@ },
            Action::InsertStop { place_id, bus_list } => ActionView::InsertStop {
                place_id: place_id@,
                bus_list: bus_list@,
            },
            Action::ReplaceStop { place_id, bus_list } => ActionView::ReplaceStop {
                place_id: place_id@,
                bus_list: bus_list@,
            },
            Action::ReplaceRoute { bus_id, stop_list } => ActionView::ReplaceRoute {
                bus_id: bus_id@,
                stop_list: stop_list@,
            },
            Action::ReplaceLocation { bus_id, position } => ActionView::ReplaceLocation {
                bus_id: bus_id@,
                position: *position,
            },
        }
    }
}

/// The store's answer to an [`Action`].
#[derive(Clone, Debug, PartialEq, Eq)]
pub enum Reply {
    /// The row that was looked up, by its list of buses.
    Found { bus_list: String },
    /// The lookup gave no row.
    Missing,
    /// The write went through.
    Written,
    /// The store refused the write.
    Rejected,
}

/// The view of a [`Reply`].
pub enum ReplyView {
    Found { bus_list: Seq<char> },
    Missing,
    Written,
    Rejected,
}

impl View for Reply {
    type V = ReplyView;

    open spec fn view(&self) -> ReplyView {
        match self {
            Reply::Found { bus_list } => ReplyView::Found { bus_list: bus_list@ },
            Reply::Missing => ReplyView::Missing,
            Reply::Written => ReplyView::Written,
            Reply::Rejected => ReplyView::Rejected,
        }
    }
}

} // verus!
