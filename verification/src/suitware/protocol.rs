//! The messages of the temperature service.
use vstd::prelude::*;

verus! {

/// A request for the current temperature.
#[derive(Clone, Copy, Debug, PartialEq, Eq, Structural)]
pub struct TemperatureRequest {}

/// A request to set the target temperature.
#[derive(Clone, Copy, Debug, PartialEq, Eq, Structural)]
pub struct TargetTemperatureRequest {
    pub target_temperature: i32,
}

/// A temperature report: the measured temperature and the target.
#[derive(Clone, Copy, Debug, PartialEq, Eq, Structural)]
pub struct Temperature {
    pub temperature: i32,
    pub target_temperature: i32,
}

} // verus!
