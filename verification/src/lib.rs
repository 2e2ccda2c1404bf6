#![verifier::loop_isolation(false)]
//! A device self-description library: a hierarchical device model, a graph
//! persistence protocol that maps the model onto create-and-relate operations
//! in a property-graph store, and a topic-addressed presence protocol over a
//! publish/subscribe bus.

pub mod db;
pub mod ipc;
pub mod keyed;
pub mod model;
pub mod store;
pub mod text;
pub mod uri;
pub mod uri_list;
