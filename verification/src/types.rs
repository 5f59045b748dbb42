//! What the controller reads and what it gives out.
use vstd::prelude::*;
use crate::speed::Speed;

verus! {

/// The states of the controller.
#[derive(Debug, Clone, Copy, PartialEq, Eq, Structural)]
pub enum SystemState {
    Idle,
    AssistOn,
    AssistPassive,
    EmergencyBraking,
    Fault,
}

/// One reading of all sensors.
#[derive(Debug, Clone, Copy)]
pub struct SensorInputs {
    pub pas_value: u8,
    pub pas_err: bool,
    pub brake_value: u8,
    pub brake_err: bool,
    pub speed_value: Speed,
    pub speed_err: bool,
    pub battery_ok: bool,
    pub battery_err: bool,
}

/// A bike at rest with nothing pressed and nothing wrong.
pub open spec fn resting_inputs() -> SensorInputs {
    SensorInputs {
        pas_value: 0,
        pas_err: false,
        brake_value: 0,
        brake_err: false,
        speed_value: Speed { bits: 0 },
        speed_err: false,
        battery_ok: true,
        battery_err: false,
    }
}

impl Default for SensorInputs {
    fn default() -> (inputs: Self)
        ensures
            inputs == resting_inputs(),
    {
        Self {
            pas_value: 0,
            pas_err: false,
            brake_value: 0,
            brake_err: false,
            speed_value: Speed::from_bits(0),
            speed_err: false,
            battery_ok: true,
            battery_err: false,
        }
    }
}

/// What the controller drives: the motor and the fault lamp.
#[derive(Debug, Clone, Copy, PartialEq, Eq, Structural)]
pub struct SystemOutputs {
    pub motor_power: u8,
    pub status_led: bool,
}

} // verus!
