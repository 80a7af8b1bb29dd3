//! The temperature service of the Suitware server, which answers with a fixed report.
use vstd::prelude::*;

use crate::suitware::protocol::{TargetTemperatureRequest, Temperature, TemperatureRequest};

verus! {

/// The temperature sensor of the Suitware server.
#[derive(Clone, Copy, Debug, Default)]
pub struct TemperatureSensor {}

/// The report that the sensor gives: a temperature of 1 and a target of 5.
pub open spec fn fixed_report() -> Temperature {
    Temperature { temperature: 1, target_temperature: 5 }
}

impl TemperatureSensor {
    /// Answers a request for the temperature.
    pub fn get_temperature(&self, request: TemperatureRequest) -> (reply: Temperature)
        ensures
            reply == fixed_report(),
    {
        Temperature { temperature: 1, target_temperature: 5 }
    }

    /// Answers a request to set the target; the report does not follow the
    /// requested target.
    pub fn set_temperature(&self, request: TargetTemperatureRequest) -> (reply: Temperature)
        ensures
            reply == fixed_report(),
    {
        Temperature { temperature: 1, target_temperature: 5 }
    }
}

} // verus!
