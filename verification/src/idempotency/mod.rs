//! The idempotency store and the guard built on it: a command is processed
//! once per caller and key, and a repeat gets the saved response back.

pub mod guard;
pub mod key;
pub mod persistence;
pub mod response;

pub use guard::{get_saved_response, save_response, try_processing, NextAction};
pub use key::IdempotencyKey;
