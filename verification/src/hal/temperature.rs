//! A temperature sensor with fixed readings.
use vstd::prelude::*;

verus! {

/// The temperature that the unconnected sensor reads.
pub const SENSOR_TEMPERATURE: i32 = 20;

/// The target temperature that the unconnected sensor reports.
pub const SENSOR_TARGET_TEMPERATURE: i32 = 22;

/// A temperature sensor that is not connected yet: it reads fixed values.
#[derive(Debug)]
pub struct TemperatureSensor;

impl Default for TemperatureSensor {
    fn default() -> (sensor: Self)
        ensures
            sensor == TemperatureSensor,
    {
        TemperatureSensor
    }
}

impl TemperatureSensor {
    /// The measured temperature.
    pub fn get_temperature(&self) -> (temperature: i32)
        ensures
            temperature == SENSOR_TEMPERATURE,
    {
        SENSOR_TEMPERATURE
    }

    /// The target temperature.
    pub fn get_target_temperature(&self) -> (target: i32)
        ensures
            target == SENSOR_TARGET_TEMPERATURE,
    {
        SENSOR_TARGET_TEMPERATURE
    }

    /// Setting the target has no effect.
    pub fn set_target_temperature(&self, target: i32) {
    }
}

} // verus!
