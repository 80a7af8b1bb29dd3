//! Hardware abstraction layer for Suitware systems: the temperature sensor.
//!
//! Reading a sensor is I/O (the hardware, or the simulator over gRPC): the
//! readings reach this library as arguments.
pub mod temperature;

use vstd::prelude::*;

verus! {

/// A temperature sensor: what it reads, what it aims at, and how to set its aim.
pub trait TemperatureSensorTrait {
    fn get_temperature(&self) -> i32;

    fn get_target_temperature(&self) -> i32;

    fn set_target_temperature(&self, target: i32);
}

} // verus!
