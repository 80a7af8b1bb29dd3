//! Suitware: the verified core of a spacesuit software stack.
//!
//! The crate gathers the decision-making parts of the suite: the `aparan`
//! message-passing context, the `suitware` application builder and its launch
//! sequence, the temperature sensor readings of the hardware layer, the
//! simulator and the server, the display logic of the reading assistant, and
//! the parameters of the vehicle sound synthesis.
pub mod aparan;
pub mod suitware;
pub mod hal;
pub mod server;
pub mod sim;
pub mod raa;
pub mod synthesis;
