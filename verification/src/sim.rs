//! The temperature service of the simulator.
use vstd::prelude::*;

use crate::suitware::protocol::{TargetTemperatureRequest, Temperature, TemperatureRequest};

verus! {

/// The report of the simulated sensor: a temperature of 20 and a target of 22.
pub open spec fn simulated_report() -> Temperature {
    Temperature { temperature: 20, target_temperature: 22 }
}

/// The simulated temperature sensor.
#[derive(Debug)]
pub struct TemperatureSensor {}

impl Default for TemperatureSensor {
    fn default() -> (sensor: Self)
        ensures
            sensor == (TemperatureSensor {}),
    {
        TemperatureSensor {}
    }
}

impl TemperatureSensor {
    /// Answers a request for the temperature.
    pub fn get_temperature(&self, request: TemperatureRequest) -> (reply: Temperature)
        ensures
            reply == simulated_report(),
    {
        Temperature { temperature: 20, target_temperature: 22 }
    }

    /// Answers a request to set the target; the simulation does not follow it.
    pub fn set_temperature(&self, request: TargetTemperatureRequest) -> (reply: Temperature)
        ensures
            reply == simulated_report(),
    {
        Temperature { temperature: 20, target_temperature: 22 }
    }
}

} // verus!
