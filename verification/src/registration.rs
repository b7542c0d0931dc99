//! Registering the route of a bus, as a sequence of store accesses.
//!
//! A registration merges the bus into the stop-index row of each stop of the
//! route, in the order of the route, then writes the route row, then the
//! location row. It stops at the first write that the store refuses: the
//! writes before it stay, and none follows.
//!
//! [`Registration`] decides; it performs nothing. At each point it awaits the
//! reply to one [`Action`], and [`Registration::advance`] takes the reply to
//! the next point.
//!
//! Nothing ties the lookup of a stop to the write that follows it. Two
//! registrations that run against one store at the same time may both look a
//! stop up before either writes. Where the stop had a row, the later write
//! then replaces the earlier one, and the stop loses the bus of the earlier
//! one; where it had none, the store refuses the later insert, and that
//! registration fails. A registration that runs alone meets neither.

use crate::error::ServiceError;
use crate::pipe_list::{lemma_split_nonempty, split, split_fields};
use crate::position::Coordinates;
use crate::protocol::{Action, ActionView, Reply, ReplyView};
use crate::stop_index::{merge_bus, merge_write};
use vstd::prelude::*;

verus! {

/// Where a registration stands.
pub enum Phase {
    /// It awaits the reply to this action.
    Awaiting(ActionView),
    /// It has ended, with this outcome.
    Finished(Result<(), ServiceError>),
}

/// The view of a [`Registration`].
pub struct RegistrationView {
    /// The bus whose route is registered.
    pub bus_id: Seq<char>,
    /// The stops of the route, as stored text.
    pub stop_list: Seq<char>,
    /// Where the bus is at the time of registration.
    pub position: Coordinates,
    /// How many stops of the route the bus has been merged into.
    pub merged: nat,
    /// Whether a write of this registration has gone through.
    pub wrote: bool,
    pub phase: Phase,
}

/// Whether `reply` is an answer to `action`: a lookup is answered by what it
/// found, a write by whether it went through.
pub open spec fn answers(reply: ReplyView, action: ActionView) -> bool {
    match action {
        ActionView::FindStop { .. } => reply is Found || reply is Missing,
        _ => reply is Written || reply is Rejected,
    }
}

impl RegistrationView {
    /// The stops of the route, in order.
    pub open spec fn stops(self) -> Seq<Seq<char>> {
        split(self.stop_list)
    }

    /// The registration with its first `merged` stops done: it looks up the
    /// next stop, or, past the last one, writes the route row.
    pub open spec fn seeking(self, merged: nat) -> RegistrationView {
        RegistrationView {
            merged,
            phase: Phase::Awaiting(
                if merged < self.stops().len() {
                    ActionView::FindStop { place_id: self.stops()[merged as int] }
                } else {
                    ActionView::ReplaceRoute { bus_id: self.bus_id, stop_list: self.stop_list }
                },
            ),
            ..self
        }
    }

    /// The registration ended by a refused write: nothing was changed where
    /// no write had gone through before, and else the update is partial.
    pub open spec fn failed(self) -> RegistrationView {
        RegistrationView {
            phase: Phase::Finished(
                Err(
                    if self.wrote {
                        ServiceError::PartialUpdate
                    } else {
                        ServiceError::StorageFailure
                    },
                ),
            ),
            ..self
        }
    }

    /// The registration after a write went through.
    pub open spec fn written(self) -> RegistrationView {
        RegistrationView { wrote: true, ..self }
    }

    /// The registration after `reply` came in. A reply that does not answer
    /// the awaited action, or that comes after the end, changes nothing.
    pub open spec fn after(self, reply: ReplyView) -> RegistrationView {
        match self.phase {
            Phase::Finished(_) => self,
            Phase::Awaiting(action) => if !answers(reply, action) {
                self
            } else {
                match action {
                    ActionView::FindStop { place_id } => {
                        let existing = match reply {
                            ReplyView::Found { bus_list } => Some(bus_list),
                            _ => None,
                        };
                        match merge_write(place_id, existing, self.bus_id) {
                            Some(write) => RegistrationView {
                                phase: Phase::Awaiting(write),
                                ..self
                            },
                            None => self.seeking(self.merged + 1),
                        }
                    },
                    ActionView::InsertStop { .. } | ActionView::ReplaceStop { .. } => {
                        if reply is Written {
                            self.written().seeking(self.merged + 1)
                        } else {
                            self.failed()
                        }
                    },
                    ActionView::ReplaceRoute { .. } => {
                        if reply is Written {
                            RegistrationView {
                                phase: Phase::Awaiting(
                                    ActionView::ReplaceLocation {
                                        bus_id: self.bus_id,
                                        position: self.position,
                                    },
                                ),
                                ..self.written()
                            }
                        } else {
                            self.failed()
                        }
                    },
                    ActionView::ReplaceLocation { .. } => {
                        if reply is Written {
                            RegistrationView { phase: Phase::Finished(Ok(())), ..self.written() }
                        } else {
                            self.failed()
                        }
                    },
                }
            },
        }
    }

    /// A bound on the number of answers that the registration still takes
    /// before it ends.
    pub open spec fn steps_left(self) -> nat {
        let stops_left = if self.merged < self.stops().len() {
            (self.stops().len() - self.merged) as nat
        } else {
            0nat
        };
        match self.phase {
            Phase::Finished(_) => 0,
            Phase::Awaiting(ActionView::ReplaceLocation { .. }) => 1,
            Phase::Awaiting(ActionView::ReplaceRoute { .. }) => 2,
            Phase::Awaiting(ActionView::FindStop { .. }) => 2 * stops_left + 4,
            Phase::Awaiting(_) => 2 * stops_left + 3,
        }
    }
}

/// The registration of `stop_list` as the route of `bus_id`, before its first
/// action: the lookup of the first stop.
pub open spec fn started(
    bus_id: Seq<char>,
    stop_list: Seq<char>,
    position: Coordinates,
) -> RegistrationView {
    RegistrationView {
        bus_id,
        stop_list,
        position,
        merged: 0,
        wrote: false,
        phase: Phase::Awaiting(ActionView::FindStop { place_id: split(stop_list)[0] }),
    }
}

/// Every answer takes a registration nearer to its end.
pub proof fn lemma_answers_make_progress(state: RegistrationView, reply: ReplyView)
    requires
        state.phase matches Phase::Awaiting(action) && answers(reply, action),
    ensures
        state.after(reply).steps_left() < state.steps_left(),
{
}

/// The registration of one route: what it was asked to register, and how far
/// it has come.
pub struct Registration {
    bus_id: String,
    stop_list: String,
    position: Coordinates,
    stops: Vec<String>,
    merged: usize,
    wrote: bool,
    pending: Option<Action>,
    outcome: Result<(), ServiceError>,
}

impl View for Registration {
    type V = RegistrationView;

    closed spec fn view(&self) -> RegistrationView {
        RegistrationView {
            bus_id: self.bus_id@,
            stop_list: self.stop_list@,
            position: self.position,
            merged: self.merged as nat,
            wrote: self.wrote,
            phase: match self.pending {
                Some(action) => Phase::Awaiting(action@),
                None => Phase::Finished(self.outcome),
            },
        }
    }
}

impl Registration {
    #[verifier::type_invariant]
    spec fn well_formed(self) -> bool {
        &&& self.stops.deep_view() == split(self.stop_list@)
        &&& self.merged <= self.stops.len()
        &&& match self.pending {
            Some(Action::ReplaceRoute { .. }) | Some(Action::ReplaceLocation { .. }) | None => true,
            Some(_) => self.merged < self.stops.len(),
        }
    }

    /// Starts the registration of `stop_list`, a list of stops joined by `|`,
    /// as the route of `bus_id`.
    pub fn begin(bus_id: &str, stop_list: &str, position: Coordinates) -> (registration: Self)
        ensures
            registration@ == started(bus_id@, stop_list@, position),
    {
        let stops = split_fields(stop_list);
        proof {
            lemma_split_nonempty(stop_list@);
        }
        assert(stops.deep_view()[0] == stops[0]@);
        let first = Action::FindStop { place_id: stops[0].clone() };
        Registration {
            bus_id: bus_id.to_owned(),
            stop_list: stop_list.to_owned(),
            position,
            stops,
            merged: 0,
            wrote: false,
            pending: Some(first),
            outcome: Ok(()),
        }
    }

    /// The action whose reply the registration awaits; `None` once it has
    /// ended.
    pub fn pending(&self) -> (action: Option<&Action>)
        ensures
            match action {
                Some(action) => self@.phase == Phase::Awaiting(action@),
                None => self@.phase is Finished,
            },
    {
        self.pending.as_ref()
    }

    /// How the registration ended; `None` while it awaits a reply.
    pub fn outcome(&self) -> (outcome: Option<Result<(), ServiceError>>)
        ensures
            match outcome {
                Some(outcome) => self@.phase == Phase::Finished(outcome),
                None => self@.phase is Awaiting,
            },
    {
        match self.pending {
            Some(_) => None,
            None => Some(self.outcome),
        }
    }

    fn take_pending(&mut self) -> (action: Option<Action>)
        ensures
            action == old(self).pending,
            final(self).pending is None,
            final(self).bus_id == old(self).bus_id,
            final(self).stop_list == old(self).stop_list,
            final(self).position == old(self).position,
            final(self).stops == old(self).stops,
            final(self).merged == old(self).merged,
            final(self).wrote == old(self).wrote,
            final(self).outcome == old(self).outcome,
    {
        proof {
            use_type_invariant(&*self);
        }
        let mut action: Option<Action> = None;
        core::mem::swap(&mut self.pending, &mut action);
        action
    }

    fn seek(&mut self, merged: usize)
        requires
            merged <= old(self).stops.len(),
            old(self).pending is None,
        ensures
            final(self)@ == old(self)@.seeking(merged as nat),
    {
        proof {
            use_type_invariant(&*self);
        }
        let next = if merged < self.stops.len() {
            assert(self.stops.deep_view()[merged as int] == self.stops[merged as int]@);
            Action::FindStop { place_id: self.stops[merged].clone() }
        } else {
            Action::ReplaceRoute { bus_id: self.bus_id.clone(), stop_list: self.stop_list.clone() }
        };
        self.merged = merged;
        self.pending = Some(next);
    }

    fn fail(&mut self)
        ensures
            final(self)@ == old(self)@.failed(),
    {
        proof {
            use_type_invariant(&*self);
        }
        let error = if self.wrote {
            ServiceError::PartialUpdate
        } else {
            ServiceError::StorageFailure
        };
        self.pending = None;
        self.outcome = Err(error);
    }

    /// Takes in the reply to the awaited action.
    pub fn advance(&mut self, reply: Reply)
        ensures
            final(self)@ == old(self)@.after(reply@),
    {
        proof {
            use_type_invariant(&*self);
        }
        let pending = self.take_pending();
        match pending {
            None => {},
            Some(Action::FindStop { place_id }) => {
                let write = match reply {
                    Reply::Found { bus_list } => merge_bus(
                        place_id.as_str(),
                        Some(bus_list.as_str()),
                        self.bus_id.as_str(),
                    ),
                    Reply::Missing => merge_bus(place_id.as_str(), None, self.bus_id.as_str()),
                    _ => {
                        self.pending = Some(Action::FindStop { place_id });
                        return ;
                    },
                };
                match write {
                    Some(write) => {
                        self.pending = Some(write);
                    },
                    None => {
                        self.seek(self.merged + 1);
                    },
                }
            },
            Some(Action::InsertStop { place_id, bus_list }) => {
                match reply {
                    Reply::Written => {
                        self.wrote = true;
                        self.seek(self.merged + 1);
                    },
                    Reply::Rejected => {
                        self.fail();
                    },
                    _ => {
                        self.pending = Some(Action::InsertStop { place_id, bus_list });
                    },
                }
            },
            Some(Action::ReplaceStop { place_id, bus_list }) => {
                match reply {
                    Reply::Written => {
                        self.wrote = true;
                        self.seek(self.merged + 1);
                    },
                    Reply::Rejected => {
                        self.fail();
                    },
                    _ => {
                        self.pending = Some(Action::ReplaceStop { place_id, bus_list });
                    },
                }
            },
            Some(Action::ReplaceRoute { bus_id, stop_list }) => {
                match reply {
                    Reply::Written => {
                        self.wrote = true;
                        self.pending = Some(
                            Action::ReplaceLocation {
                                bus_id: self.bus_id.clone(),
                                position: self.position,
                            },
                        );
                    },
                    Reply::Rejected => {
                        self.fail();
                    },
                    _ => {
                        self.pending = Some(Action::ReplaceRoute { bus_id, stop_list });
                    },
                }
            },
            Some(Action::ReplaceLocation { bus_id, position }) => {
                match reply {
                    Reply::Written => {
                        self.wrote = true;
                        self.outcome = Ok(());
                    },
                    Reply::Rejected => {
                        self.fail();
                    },
                    _ => {
                        self.pending = Some(Action::ReplaceLocation { bus_id, position });
                    },
                }
            },
        }
    }
}

} // verus!
