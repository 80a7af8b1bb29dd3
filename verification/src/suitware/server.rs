//! The standalone temperature server of the Suitware crate, with the same
//! sensor as the server's systems.
pub use crate::suitware::systems::temperature::TemperatureSensor;
