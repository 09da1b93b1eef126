//! What the library guarantees, stated over its models and proved: a command
//! takes effect once, and every queued task is served without loss or
//! duplication.

pub mod delivery;
pub mod exactly_once;
