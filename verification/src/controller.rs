//! The motor controller.
use vstd::prelude::*;
use crate::logger::{Logger, BRAKE_WARNING, PAS_WARNING, SPEED_WARNING};
use crate::model::{
    acted, cleaned, in_range, initial, move_log, moved, normal_successor, outputs_of, sensor_fault,
    tick, tick_log, warnings, ControllerView,
};
use crate::model::{
    BATTERY_DEGRADATION_TICKS, MAX_BRAKE_VALUE, MAX_PAS_VALUE, MAX_POWER_LIMIT,
    PASSIVE_DECREASE_TICKS,
};
use crate::power::{compute_assist_power, compute_brake_ceiling};
use crate::speed::Speed;
use crate::types::{SensorInputs, SystemOutputs, SystemState};

verus! {

/// The controller of the motor: a state machine that moves on once per tick.
pub struct BikeEngineController {
    state: SystemState,
    current_motor_power: u8,
    max_motor_power: u8,
    battery_timer_ticks: u32,
    passive_timer_ticks: u32,
}

impl View for BikeEngineController {
    type V = ControllerView;

    closed spec fn view(&self) -> ControllerView {
        ControllerView {
            state: self.state,
            power: self.current_motor_power as nat,
            ceiling: self.max_motor_power as nat,
            battery_ticks: self.battery_timer_ticks as nat,
            passive_ticks: self.passive_timer_ticks as nat,
        }
    }
}

impl BikeEngineController {
    /// What holds of a controller between any two calls.
    pub open spec fn wf(&self) -> bool {
        self@.wf()
    }

    /// The state the controller is in.
    pub fn current_state(&self) -> (state: SystemState)
        ensures
            state == self@.state,
    {
        self.state
    }

    /// The power ceiling.
    pub fn max_motor_power(&self) -> (power: u8)
        ensures
            power == self@.ceiling,
    {
        self.max_motor_power
    }

    /// The ticks for which the battery has been bad.
    pub fn battery_timer_ticks(&self) -> (ticks: u32)
        ensures
            ticks == self@.battery_ticks,
    {
        self.battery_timer_ticks
    }

    /// The ticks of passive assist since the last loss of power.
    pub fn passive_timer_ticks(&self) -> (ticks: u32)
        ensures
            ticks == self@.passive_ticks,
    {
        self.passive_timer_ticks
    }
}

impl Default for BikeEngineController {
    fn default() -> (controller: Self)
        ensures
            controller.wf(),
            controller@ == initial(),
    {
        Self::new()
    }
}

impl BikeEngineController {
    /// A controller at rest with its full power ceiling.
    pub fn new() -> (controller: Self)
        ensures
            controller.wf(),
            controller@ == initial(),
    {
        Self {
            state: SystemState::Idle,
            current_motor_power: 0,
            max_motor_power: MAX_POWER_LIMIT,
            battery_timer_ticks: 0,
            passive_timer_ticks: 0,
        }
    }

    /// Runs one tick: checks the readings, moves to the next state, acts in it and
    /// gives out motor power and fault lamp.
    pub fn update<L: Logger + ?Sized>(&mut self, inputs: &SensorInputs, logger: &mut L) -> (outputs: SystemOutputs)
        requires
            old(self).wf(),
        ensures
            final(self).wf(),
            final(self)@ == tick(old(self)@, *inputs),
            outputs == outputs_of(final(self)@),
            final(logger).history() == old(logger).history() + tick_log(old(self)@, *inputs),
    {
        let valid_inputs = self.validate_inputs(inputs, logger);

        if self.check_global_fault(&valid_inputs) {
            self.transition_to(SystemState::Fault, logger);
        } else if valid_inputs.brake_value == MAX_BRAKE_VALUE && self.state
            != SystemState::EmergencyBraking {
            self.transition_to(SystemState::EmergencyBraking, logger);
        } else {
            self.evaluate_normal_transitions(&valid_inputs, logger);
        }

        self.execute_state_actions(&valid_inputs);

        SystemOutputs {
            motor_power: self.current_motor_power,
            status_led: self.state == SystemState::Fault,
        }
    }

    /// The readings with those out of range replaced and reported.
    fn validate_inputs<L: Logger + ?Sized>(&self, inputs: &SensorInputs, logger: &mut L) -> (clean: SensorInputs)
        ensures
            clean == cleaned(*inputs),
            in_range(clean),
            final(logger).history() == old(logger).history() + warnings(*inputs),
    {
        let mut clean = *inputs;
        if clean.pas_value > MAX_PAS_VALUE {
            logger.log_event(PAS_WARNING);
            clean.pas_value = MAX_PAS_VALUE;
        }
        if clean.brake_value > MAX_BRAKE_VALUE {
            logger.log_event(BRAKE_WARNING);
            clean.brake_value = MAX_BRAKE_VALUE;
        }
        if clean.speed_value.is_negative() || !clean.speed_value.is_finite() {
            logger.log_event(SPEED_WARNING);
            clean.speed_value = Speed::from_bits(0);
        }
        clean
    }

    /// Whether any sensor reports an error.
    fn check_global_fault(&self, inputs: &SensorInputs) -> (fault: bool)
        ensures
            fault == sensor_fault(*inputs),
    {
        inputs.pas_err || inputs.brake_err || inputs.speed_err || inputs.battery_err
    }

    /// Moves to a state, and reports the move if it is one.
    fn transition_to<L: Logger + ?Sized>(&mut self, new_state: SystemState, logger: &mut L)
        ensures
            final(self)@ == moved(old(self)@, new_state),
            final(logger).history() == old(logger).history() + move_log(old(self)@.state, new_state),
    {
        if self.state != new_state {
            logger.log_state_change(self.state, new_state);
            self.state = new_state;
            self.passive_timer_ticks = 0;
        }
    }

    /// Moves on by the table of ordinary transitions.
    fn evaluate_normal_transitions<L: Logger + ?Sized>(&mut self, inputs: &SensorInputs, logger: &mut L)
        requires
            in_range(*inputs),
        ensures
            final(self)@ == moved(old(self)@, normal_successor(old(self)@, *inputs)),
            final(logger).history() == old(logger).history() + move_log(
                old(self)@.state,
                normal_successor(old(self)@, *inputs),
            ),
    {
        match self.state {
            SystemState::Idle => {
                if inputs.pas_value > 0 && inputs.brake_value < MAX_BRAKE_VALUE
                    && inputs.speed_value.is_below_limit() {
                    self.transition_to(SystemState::AssistOn, logger);
                }
            },
            SystemState::AssistOn => {
                if !inputs.speed_value.is_below_limit() || inputs.pas_value == 0 {
                    self.transition_to(SystemState::AssistPassive, logger);
                }
            },
            SystemState::AssistPassive => {
                if self.current_motor_power == 0 {
                    self.transition_to(SystemState::Idle, logger);
                } else if inputs.speed_value.is_below_limit() && inputs.pas_value > 0 {
                    self.transition_to(SystemState::AssistOn, logger);
                }
            },
            SystemState::EmergencyBraking => {
                if inputs.brake_value == 0 {
                    self.transition_to(SystemState::Idle, logger);
                }
            },
            SystemState::Fault => {},
        }
    }

    /// Runs the timers and sets the motor power of the state reached.
    fn execute_state_actions(&mut self, inputs: &SensorInputs)
        requires
            in_range(*inputs),
            old(self)@.battery_ticks < BATTERY_DEGRADATION_TICKS,
            old(self)@.passive_ticks < PASSIVE_DECREASE_TICKS,
        ensures
            final(self)@ == acted(old(self)@, *inputs),
            final(self)@.power <= final(self)@.ceiling,
    {
        if !inputs.battery_ok && (self.state == SystemState::AssistOn || self.state
            == SystemState::AssistPassive) {
            self.battery_timer_ticks = self.battery_timer_ticks.saturating_add(1);
            if self.battery_timer_ticks >= BATTERY_DEGRADATION_TICKS {
                self.max_motor_power = self.max_motor_power.saturating_sub(1);
                self.battery_timer_ticks = 0;
            }
        } else {
            self.battery_timer_ticks = 0;
        }

        match self.state {
            SystemState::Idle => {
                self.current_motor_power = 0;
            },
            SystemState::AssistOn => {
                self.current_motor_power = compute_assist_power(
                    self.max_motor_power,
                    inputs.pas_value,
                    inputs.brake_value,
                );
            },
            SystemState::AssistPassive => {
                self.passive_timer_ticks = self.passive_timer_ticks.saturating_add(1);
                if self.passive_timer_ticks >= PASSIVE_DECREASE_TICKS {
                    self.current_motor_power = self.current_motor_power.saturating_sub(1);
                    self.passive_timer_ticks = 0;
                }
                let braked_power: u8 = compute_brake_ceiling(
                    self.max_motor_power,
                    inputs.brake_value,
                );
                if self.current_motor_power > braked_power {
                    self.current_motor_power = braked_power;
                }
            },
            SystemState::EmergencyBraking | SystemState::Fault => {
                self.current_motor_power = 0;
            },
        }
    }
}

} // verus!
