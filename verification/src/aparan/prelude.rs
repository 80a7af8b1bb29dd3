//! A re-export of the important Aparan types.
pub use super::context::Context;
pub use super::error::{AparanError, Result};
pub use super::message::{Message, Sendable};
