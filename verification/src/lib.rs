//! A message-broker fleet: broker nodes host queues and single-use,
//! topic-filtered subscription channels; a manager tracks the nodes and
//! routes queue and channel requests to them.

pub mod endpoints;
pub mod error;
pub mod ident;
pub mod message;
pub mod mom;
pub mod queue;
pub mod registry;
pub mod stream_server;
