//! The systems of the Suitware server.
pub mod temperature;
