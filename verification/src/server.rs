//! The temperature service of the Suitware server, backed by the hardware layer.
//!
//! Each answer (to a request for the temperature, to a request to set the
//! target, and to each request of a temperature stream) is the report of the
//! sensor's current readings, which the caller reads from the sensor.
use vstd::prelude::*;

use crate::suitware::protocol::Temperature;

verus! {

/// The report of a sensor whose readings are `temperature` and `target_temperature`.
pub fn temperature_report(temperature: i32, target_temperature: i32) -> (reply: Temperature)
    ensures
        reply == (Temperature { temperature, target_temperature }),
{
    Temperature { temperature, target_temperature }
}

} // verus!
