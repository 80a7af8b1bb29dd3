//! The vehicle whose engine sound the suit synthesizes, and the parameters of
//! the sound.
use vstd::prelude::*;

verus! {

/// The sample rate of the vehicle sound, in samples per second.
pub const VEHICLE_SAMPLE_RATE: u32 = 48_000;

/// The length of a synthesized vehicle sound, in seconds.
pub const VEHICLE_SOUND_SECONDS: u32 = 5;

/// A vehicle near the suit.
#[derive(Clone, Copy, Debug, PartialEq, Eq, Structural)]
pub struct Vehicle {}

/// The state of a vehicle's engine.
#[derive(Clone, Copy, Debug, PartialEq, Eq, Structural)]
pub enum EngineState {
    Off,
    On,
}

/// The parameters of a vehicle sound.
#[derive(Clone, Copy, Debug, PartialEq, Eq, Structural)]
pub struct Params {
    /// Distance, in meters, from the spacesuit's head.
    pub distance: u8,
    pub velocity: u32,
    pub state: EngineState,
    pub rate_of_change: u32,
}

/// The number of samples of a vehicle sound: five seconds at the sample rate.
pub fn vehicle_sound_samples() -> (samples: usize)
    ensures
        samples == VEHICLE_SAMPLE_RATE * VEHICLE_SOUND_SECONDS,
{
    let rate: usize = VEHICLE_SAMPLE_RATE as usize;
    rate * (VEHICLE_SOUND_SECONDS as usize)
}

/// The parameters with which the synthesizer's inspector renders a vehicle at
/// `distance`: a velocity of 5, the engine off, and a rate of change of 5.
pub fn inspector_params(distance: u8) -> (params: Params)
    ensures
        params == (Params { distance, velocity: 5, state: EngineState::Off, rate_of_change: 5 }),
{
    Params { distance, velocity: 5, state: EngineState::Off, rate_of_change: 5 }
}

} // verus!
