//! Book-keeping and message routing for the JavaScript workers of a box:
//! the registry of workers, the named message broker, the decisions taken by
//! the runtime actor, the HTTP routers and the events sent to clients.

pub mod strmap;
pub mod jsworkers;
pub mod workers;
pub mod broker;
pub mod sparrow;
pub mod frames;
pub mod actor;
pub mod ids;
pub mod connection;
pub mod router;
pub mod context;
pub mod events;
