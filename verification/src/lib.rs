//! Exactly-once newsletter publishing: an idempotent command guard in front of
//! a durable delivery queue, with the input rules of the subscriber domain.

pub mod authentication;
pub mod database;
pub mod domain;
pub mod email_client;
pub mod guarantees;
pub mod idempotency;
pub mod issue_delivery_queue;
pub mod issue_delivery_worker;
pub mod newsletter;
pub mod publish;
pub mod routes;
pub mod text;
