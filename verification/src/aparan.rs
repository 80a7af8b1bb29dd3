//! Aparan: topics, channels and subscriptions of a node's workers.
pub mod message;
pub mod error;
pub mod context;
pub mod prelude;
pub mod runtime;
