//! Route registration, stop-index maintenance and route assembly for a
//! transit tracking service.
//!
//! The service keeps four tables: where each bus is, where each stop is, the
//! route of each bus, and, derived from the routes, the buses that serve each
//! stop. Routes and bus lists are kept as text, their items joined by `|`.
//!
//! - [`pipe_list`] reads and extends such text.
//! - [`stop_index`] decides how a bus is merged into the row of a stop.
//! - [`registration`] registers a route as a sequence of store accesses, which
//!   [`protocol`] names: it decides what to ask of the store next, and leaves
//!   the asking to whoever holds the store.
//! - [`routing`] puts the route of a bus together with the coordinates of its
//!   stops.
//! - [`table`] and [`store`] hold the tables in memory and run registrations
//!   against them.
//! - [`laws`] proves what holds of all of this, whatever the values.
//! - [`cors`] and [`service`] describe the service as seen from outside: its
//!   resources, their endpoints, and who may call them.

pub mod cors;
pub mod error;
pub mod laws;
pub mod pipe_list;
pub mod position;
pub mod protocol;
pub mod registration;
pub mod routing;
pub mod service;
pub mod stop_index;
pub mod store;
pub mod table;
