//! What one tick of the controller does, over mathematical values.
use vstd::prelude::*;
use crate::logger::{LogEntry, BRAKE_WARNING, PAS_WARNING, SPEED_WARNING};
use crate::power::{assist_power, brake_ceiling};
use crate::speed::{kmh, Speed};
use crate::types::{SensorInputs, SystemOutputs, SystemState};

verus! {

/// How many milliseconds one tick lasts.
pub const TICK_RATE_MS: u32 = 10;

/// How many ticks on a bad battery cost one step of the power ceiling.
pub const BATTERY_DEGRADATION_TICKS: u32 = 100_000 / TICK_RATE_MS;

/// How many ticks of passive assist cost one step of motor power.
pub const PASSIVE_DECREASE_TICKS: u32 = 5_000 / TICK_RATE_MS;

/// The power ceiling of a new controller.
pub const MAX_POWER_LIMIT: u8 = 100;

/// The highest pedal assist level.
pub const MAX_PAS_VALUE: u8 = 100;

/// The brake value of a fully applied brake.
pub const MAX_BRAKE_VALUE: u8 = 100;

/// The controller's memory between ticks.
pub struct ControllerView {
    pub state: SystemState,
    pub power: nat,
    pub ceiling: nat,
    pub battery_ticks: nat,
    pub passive_ticks: nat,
}

/// Whether the motor may run in a state.
pub open spec fn assisting(state: SystemState) -> bool {
    state == SystemState::AssistOn || state == SystemState::AssistPassive
}

impl ControllerView {
    /// What holds of a controller between any two ticks.
    pub open spec fn wf(self) -> bool {
        &&& self.power <= self.ceiling <= MAX_POWER_LIMIT
        &&& self.battery_ticks < BATTERY_DEGRADATION_TICKS
        &&& self.passive_ticks < PASSIVE_DECREASE_TICKS
        &&& self.battery_ticks > 0 ==> assisting(self.state)
        &&& self.passive_ticks > 0 ==> self.state == SystemState::AssistPassive
        &&& self.power > 0 ==> assisting(self.state)
    }
}

/// A new controller.
pub open spec fn initial() -> ControllerView {
    ControllerView {
        state: SystemState::Idle,
        power: 0,
        ceiling: MAX_POWER_LIMIT as nat,
        battery_ticks: 0,
        passive_ticks: 0,
    }
}

/// Whether all readings are in range.
pub open spec fn in_range(inputs: SensorInputs) -> bool {
    &&& inputs.pas_value <= MAX_PAS_VALUE
    &&& inputs.brake_value <= MAX_BRAKE_VALUE
    &&& inputs.speed_value.valid()
}

/// The readings with those out of range replaced: levels by their maximum, an
/// invalid speed by zero.
pub open spec fn cleaned(inputs: SensorInputs) -> SensorInputs {
    SensorInputs {
        pas_value: if inputs.pas_value > MAX_PAS_VALUE {
            MAX_PAS_VALUE
        } else {
            inputs.pas_value
        },
        brake_value: if inputs.brake_value > MAX_BRAKE_VALUE {
            MAX_BRAKE_VALUE
        } else {
            inputs.brake_value
        },
        speed_value: if inputs.speed_value.valid() {
            inputs.speed_value
        } else {
            Speed { bits: 0 }
        },
        ..inputs
    }
}

/// The report `message` where `due`, else nothing.
pub open spec fn report_if(due: bool, message: Seq<char>) -> Seq<LogEntry> {
    if due {
        seq![LogEntry::Event(message)]
    } else {
        seq![]
    }
}

/// One warning for each reading out of range.
pub open spec fn warnings(inputs: SensorInputs) -> Seq<LogEntry> {
    report_if(inputs.pas_value > MAX_PAS_VALUE, PAS_WARNING@) + report_if(
        inputs.brake_value > MAX_BRAKE_VALUE,
        BRAKE_WARNING@,
    ) + report_if(!inputs.speed_value.valid(), SPEED_WARNING@)
}

/// Whether any sensor reports an error.
pub open spec fn sensor_fault(inputs: SensorInputs) -> bool {
    inputs.pas_err || inputs.brake_err || inputs.speed_err || inputs.battery_err
}

/// Whether the rider pedals below the speed limit.
pub open spec fn assist_wanted(inputs: SensorInputs) -> bool {
    inputs.pas_value > 0 && inputs.speed_value.value() < kmh(25)
}

/// The state that follows when there is neither a fault nor a sudden full brake.
pub open spec fn normal_successor(v: ControllerView, inputs: SensorInputs) -> SystemState {
    match v.state {
        SystemState::Idle => if assist_wanted(inputs) && inputs.brake_value < MAX_BRAKE_VALUE {
            SystemState::AssistOn
        } else {
            SystemState::Idle
        },
        SystemState::AssistOn => if assist_wanted(inputs) {
            SystemState::AssistOn
        } else {
            SystemState::AssistPassive
        },
        SystemState::AssistPassive => if v.power == 0 {
            SystemState::Idle
        } else if assist_wanted(inputs) {
            SystemState::AssistOn
        } else {
            SystemState::AssistPassive
        },
        SystemState::EmergencyBraking => if inputs.brake_value == 0 {
            SystemState::Idle
        } else {
            SystemState::EmergencyBraking
        },
        SystemState::Fault => SystemState::Fault,
    }
}

/// The state that follows: a sensor error comes before a full brake, and that
/// before everything else.
pub open spec fn successor(v: ControllerView, inputs: SensorInputs) -> SystemState {
    if sensor_fault(inputs) {
        SystemState::Fault
    } else if inputs.brake_value == MAX_BRAKE_VALUE {
        SystemState::EmergencyBraking
    } else {
        normal_successor(v, inputs)
    }
}

/// The controller moved to `state`; a change of state restarts the passive timer.
pub open spec fn moved(v: ControllerView, state: SystemState) -> ControllerView {
    if v.state == state {
        v
    } else {
        ControllerView { state, passive_ticks: 0, ..v }
    }
}

/// The report of a move.
pub open spec fn move_log(from: SystemState, to: SystemState) -> Seq<LogEntry> {
    if from == to {
        seq![]
    } else {
        seq![LogEntry::StateChange { from, to }]
    }
}

/// One less, but not below zero.
pub open spec fn one_less(n: nat) -> nat {
    if n == 0 {
        0
    } else {
        (n - 1) as nat
    }
}

/// Whether this tick counts against the battery.
pub open spec fn draining(v: ControllerView, inputs: SensorInputs) -> bool {
    !inputs.battery_ok && assisting(v.state)
}

/// Whether the battery timer runs out in this tick.
pub open spec fn battery_due(v: ControllerView, inputs: SensorInputs) -> bool {
    draining(v, inputs) && v.battery_ticks + 1 >= BATTERY_DEGRADATION_TICKS
}

/// Whether the passive timer runs out in this tick.
pub open spec fn passive_due(v: ControllerView) -> bool {
    v.state == SystemState::AssistPassive && v.passive_ticks + 1 >= PASSIVE_DECREASE_TICKS
}

/// The power ceiling after a tick in the state reached.
pub open spec fn next_ceiling(v: ControllerView, inputs: SensorInputs) -> nat {
    if battery_due(v, inputs) {
        one_less(v.ceiling)
    } else {
        v.ceiling
    }
}

/// The motor power after a tick in the state reached.
pub open spec fn next_power(v: ControllerView, inputs: SensorInputs) -> nat {
    let ceiling = next_ceiling(v, inputs);
    match v.state {
        SystemState::AssistOn => assist_power(
            ceiling,
            inputs.pas_value as nat,
            inputs.brake_value as nat,
        ),
        SystemState::AssistPassive => {
            let kept = if passive_due(v) {
                one_less(v.power)
            } else {
                v.power
            };
            let allowed = brake_ceiling(ceiling, inputs.brake_value as nat);
            if kept <= allowed {
                kept
            } else {
                allowed
            }
        },
        _ => 0,
    }
}

/// The controller after it acted in the state reached.
pub open spec fn acted(v: ControllerView, inputs: SensorInputs) -> ControllerView {
    ControllerView {
        state: v.state,
        power: next_power(v, inputs),
        ceiling: next_ceiling(v, inputs),
        battery_ticks: if draining(v, inputs) && !battery_due(v, inputs) {
            v.battery_ticks + 1
        } else {
            0
        },
        passive_ticks: if v.state != SystemState::AssistPassive {
            v.passive_ticks
        } else if passive_due(v) {
            0
        } else {
            v.passive_ticks + 1
        },
    }
}

/// The controller after one tick with the given readings.
pub open spec fn tick(v: ControllerView, inputs: SensorInputs) -> ControllerView {
    let clean = cleaned(inputs);
    acted(moved(v, successor(v, clean)), clean)
}

/// What one tick reports.
pub open spec fn tick_log(v: ControllerView, inputs: SensorInputs) -> Seq<LogEntry> {
    warnings(inputs) + move_log(v.state, successor(v, cleaned(inputs)))
}

/// What the controller drives between ticks.
pub open spec fn outputs_of(v: ControllerView) -> SystemOutputs {
    SystemOutputs { motor_power: v.power as u8, status_led: v.state == SystemState::Fault }
}

} // verus!
