use bike_controller::controller::BikeEngineController;
use bike_controller::logger::{
    EventLog, Logger, Report, BRAKE_WARNING, PAS_WARNING, SPEED_WARNING,
};
use bike_controller::speed::Speed;
use bike_controller::types::{SensorInputs, SystemOutputs, SystemState};

fn kmh(value: f32) -> Speed {
    Speed::from_bits(value.to_bits())
}

fn pedalling(pas_value: u8, speed: f32) -> SensorInputs {
    SensorInputs { pas_value, speed_value: kmh(speed), ..Default::default() }
}

fn braking(brake_value: u8) -> SensorInputs {
    SensorInputs { brake_value, ..Default::default() }
}

fn tick(controller: &mut BikeEngineController, inputs: &SensorInputs) -> SystemOutputs {
    let mut log = EventLog::new();
    controller.update(inputs, &mut log)
}

fn assisting(power: u8) -> BikeEngineController {
    let mut controller = BikeEngineController::new();
    assert_eq!(tick(&mut controller, &pedalling(power, 10.0)).motor_power, power);
    controller
}

fn passive(power: u8) -> BikeEngineController {
    let mut controller = assisting(power);
    tick(&mut controller, &pedalling(0, 10.0));
    assert_eq!(controller.current_state(), SystemState::AssistPassive);
    controller
}

#[test]
fn new_controller_is_idle() {
    for controller in [BikeEngineController::new(), BikeEngineController::default()] {
        assert_eq!(controller.current_state(), SystemState::Idle);
        assert_eq!(controller.max_motor_power(), 100);
        assert_eq!(controller.battery_timer_ticks(), 0);
        assert_eq!(controller.passive_timer_ticks(), 0);
    }
}

#[test]
fn default_inputs_are_at_rest() {
    let inputs = SensorInputs::default();
    assert_eq!(inputs.pas_value, 0);
    assert_eq!(inputs.brake_value, 0);
    assert_eq!(inputs.speed_value.to_bits(), 0.0f32.to_bits());
    assert!(inputs.battery_ok);
    assert!(!inputs.pas_err && !inputs.brake_err && !inputs.speed_err && !inputs.battery_err);
}

#[test]
fn rest_stays_rest() {
    let mut controller = BikeEngineController::new();
    let mut log = EventLog::new();
    for _ in 0..1000 {
        let outputs = controller.update(&SensorInputs::default(), &mut log);
        assert_eq!(outputs, SystemOutputs { motor_power: 0, status_led: false });
    }
    assert_eq!(controller.current_state(), SystemState::Idle);
    assert!(log.reports().is_empty());
}

#[test]
fn pedalling_starts_assist() {
    let mut controller = BikeEngineController::new();
    let mut log = EventLog::new();
    let outputs = controller.update(&pedalling(50, 15.0), &mut log);
    assert_eq!(outputs, SystemOutputs { motor_power: 50, status_led: false });
    assert_eq!(controller.current_state(), SystemState::AssistOn);
    assert_eq!(
        *log.reports(),
        vec![Report::StateChange { from: SystemState::Idle, to: SystemState::AssistOn }]
    );
}

#[test]
fn no_assist_from_rest_at_the_limit() {
    for speed in [25.0, 25.5, 1000.0] {
        let mut controller = BikeEngineController::new();
        assert_eq!(tick(&mut controller, &pedalling(100, speed)).motor_power, 0);
        assert_eq!(controller.current_state(), SystemState::Idle);
    }
}

#[test]
fn speed_limit_or_rest_makes_assist_passive() {
    for inputs in [pedalling(50, 25.0), pedalling(0, 10.0)] {
        let mut controller = assisting(50);
        assert_eq!(tick(&mut controller, &inputs).motor_power, 50);
        assert_eq!(controller.current_state(), SystemState::AssistPassive);
        assert_eq!(controller.passive_timer_ticks(), 1);
    }
}

#[test]
fn passive_assist_resumes() {
    let mut controller = passive(50);
    assert_eq!(tick(&mut controller, &pedalling(60, 10.0)).motor_power, 60);
    assert_eq!(controller.current_state(), SystemState::AssistOn);
    assert_eq!(controller.passive_timer_ticks(), 0);
}

#[test]
fn passive_assist_decays_to_rest() {
    let mut controller = passive(2);
    let inputs = pedalling(0, 10.0);
    for _ in 0..498 {
        assert_eq!(tick(&mut controller, &inputs).motor_power, 2);
    }
    assert_eq!(controller.passive_timer_ticks(), 499);
    assert_eq!(tick(&mut controller, &inputs).motor_power, 1);
    assert_eq!(controller.passive_timer_ticks(), 0);
    for _ in 0..499 {
        assert_eq!(tick(&mut controller, &inputs).motor_power, 1);
    }
    assert_eq!(tick(&mut controller, &inputs).motor_power, 0);
    assert_eq!(controller.current_state(), SystemState::AssistPassive);
    assert_eq!(tick(&mut controller, &inputs).motor_power, 0);
    assert_eq!(controller.current_state(), SystemState::Idle);
}

#[test]
fn brake_limits_passive_power() {
    let mut controller = passive(80);
    assert_eq!(tick(&mut controller, &braking(30)).motor_power, 70);
    assert_eq!(tick(&mut controller, &braking(0)).motor_power, 70);
    assert_eq!(tick(&mut controller, &braking(99)).motor_power, 1);
}

#[test]
fn full_brake_cuts_the_motor_in_every_state() {
    let mut fault = BikeEngineController::new();
    tick(&mut fault, &SensorInputs { pas_err: true, ..Default::default() });
    for mut controller in [BikeEngineController::new(), assisting(80), passive(80), fault] {
        let inputs = SensorInputs { pas_value: 80, brake_value: 100, ..Default::default() };
        let outputs = tick(&mut controller, &inputs);
        assert_eq!(outputs, SystemOutputs { motor_power: 0, status_led: false });
        assert_eq!(controller.current_state(), SystemState::EmergencyBraking);
        assert_eq!(tick(&mut controller, &inputs).motor_power, 0);
        assert_eq!(controller.current_state(), SystemState::EmergencyBraking);
    }
}

#[test]
fn emergency_braking_ends_with_a_released_brake() {
    let mut controller = assisting(80);
    tick(&mut controller, &braking(100));
    for brake in [99, 50, 1] {
        tick(&mut controller, &braking(brake));
        assert_eq!(controller.current_state(), SystemState::EmergencyBraking);
    }
    tick(&mut controller, &braking(0));
    assert_eq!(controller.current_state(), SystemState::Idle);
}

#[test]
fn each_sensor_error_is_a_fault() {
    let errors = [
        SensorInputs { pas_err: true, ..pedalling(50, 10.0) },
        SensorInputs { brake_err: true, ..pedalling(50, 10.0) },
        SensorInputs { speed_err: true, ..pedalling(50, 10.0) },
        SensorInputs { battery_err: true, ..pedalling(50, 10.0) },
    ];
    for inputs in errors {
        let mut controller = assisting(50);
        let outputs = tick(&mut controller, &inputs);
        assert_eq!(outputs, SystemOutputs { motor_power: 0, status_led: true });
        assert_eq!(controller.current_state(), SystemState::Fault);
    }
}

#[test]
fn sensor_error_comes_before_full_brake() {
    let mut controller = assisting(50);
    let inputs = SensorInputs { speed_err: true, ..braking(100) };
    assert!(tick(&mut controller, &inputs).status_led);
    assert_eq!(controller.current_state(), SystemState::Fault);
}

#[test]
fn fault_is_latched() {
    let mut controller = BikeEngineController::new();
    tick(&mut controller, &SensorInputs { pas_err: true, ..Default::default() });
    for brake_value in 0..100u8 {
        let inputs = SensorInputs { brake_value, ..pedalling(100, 10.0) };
        let outputs = tick(&mut controller, &inputs);
        assert_eq!(outputs, SystemOutputs { motor_power: 0, status_led: true });
        assert_eq!(controller.current_state(), SystemState::Fault);
    }
}

#[test]
fn full_brake_leaves_the_fault_state() {
    let mut controller = BikeEngineController::new();
    tick(&mut controller, &SensorInputs { pas_err: true, ..Default::default() });
    assert!(!tick(&mut controller, &braking(100)).status_led);
    assert_eq!(controller.current_state(), SystemState::EmergencyBraking);
    tick(&mut controller, &braking(0));
    assert_eq!(controller.current_state(), SystemState::Idle);
}

#[test]
fn out_of_range_readings_are_replaced_and_reported() {
    let mut controller = BikeEngineController::new();
    let mut log = EventLog::new();
    let inputs = SensorInputs {
        pas_value: 255,
        brake_value: 101,
        speed_value: kmh(-1.0),
        ..Default::default()
    };
    controller.update(&inputs, &mut log);
    assert_eq!(controller.current_state(), SystemState::EmergencyBraking);
    assert_eq!(
        *log.reports(),
        vec![
            Report::Event(PAS_WARNING),
            Report::Event(BRAKE_WARNING),
            Report::Event(SPEED_WARNING),
            Report::StateChange { from: SystemState::Idle, to: SystemState::EmergencyBraking },
        ]
    );
}

#[test]
fn too_much_pedalling_counts_as_full() {
    let mut controller = BikeEngineController::new();
    assert_eq!(tick(&mut controller, &pedalling(200, 10.0)).motor_power, 100);
}

#[test]
fn invalid_speed_counts_as_standing() {
    for speed in [-3.5, f32::NAN, f32::INFINITY, f32::NEG_INFINITY] {
        let mut controller = BikeEngineController::new();
        let mut log = EventLog::new();
        let outputs = controller.update(&pedalling(40, speed), &mut log);
        assert_eq!(outputs.motor_power, 40);
        assert_eq!(log.reports()[0], Report::Event(SPEED_WARNING));
        assert_eq!(log.reports().len(), 2);
    }
}

#[test]
fn negative_zero_speed_is_valid() {
    let mut controller = BikeEngineController::new();
    let mut log = EventLog::new();
    assert_eq!(controller.update(&pedalling(40, -0.0), &mut log).motor_power, 40);
    assert_eq!(log.reports().len(), 1);
}

#[test]
fn highest_levels_are_in_range() {
    let mut controller = BikeEngineController::new();
    let mut log = EventLog::new();
    let inputs = SensorInputs { pas_value: 100, brake_value: 100, ..Default::default() };
    controller.update(&inputs, &mut log);
    assert_eq!(log.reports().len(), 1);
}

#[test]
fn warning_texts() {
    assert_eq!(
        PAS_WARNING,
        "Ostrzezenie: Przekroczono zakres PAS_Value, obcieto do MAX_PAS_VALUE"
    );
    assert_eq!(
        BRAKE_WARNING,
        "Ostrzezenie: Przekroczono zakres Brake_Value, obcieto do MAX_BRAKE_VALUE"
    );
    assert_eq!(SPEED_WARNING, "Ostrzezenie: Nieprawidlowa predkosc, obcieto do 0.0");
}

#[test]
fn bad_battery_lowers_the_ceiling() {
    let mut controller = BikeEngineController::new();
    let inputs = SensorInputs { battery_ok: false, ..pedalling(100, 10.0) };
    for _ in 0..9_999 {
        assert_eq!(tick(&mut controller, &inputs).motor_power, 100);
    }
    assert_eq!(controller.battery_timer_ticks(), 9_999);
    assert_eq!(controller.max_motor_power(), 100);
    assert_eq!(tick(&mut controller, &inputs).motor_power, 99);
    assert_eq!(controller.battery_timer_ticks(), 0);
    assert_eq!(controller.max_motor_power(), 99);
}

#[test]
fn good_battery_or_rest_restarts_the_battery_timer() {
    let bad = SensorInputs { battery_ok: false, ..pedalling(100, 10.0) };
    let mut controller = BikeEngineController::new();
    for _ in 0..50 {
        tick(&mut controller, &bad);
    }
    assert_eq!(controller.battery_timer_ticks(), 50);
    tick(&mut controller, &pedalling(100, 10.0));
    assert_eq!(controller.battery_timer_ticks(), 0);
    tick(&mut controller, &bad);
    assert_eq!(controller.battery_timer_ticks(), 1);
    tick(&mut controller, &SensorInputs { battery_ok: false, ..braking(100) });
    assert_eq!(controller.battery_timer_ticks(), 0);
}

#[test]
fn ceiling_stops_at_zero() {
    let mut controller = BikeEngineController::new();
    let inputs = SensorInputs { battery_ok: false, ..pedalling(100, 10.0) };
    for _ in 0..1_010_000u32 {
        tick(&mut controller, &inputs);
    }
    assert_eq!(controller.max_motor_power(), 0);
    assert_eq!(controller.current_state(), SystemState::AssistOn);
    assert_eq!(tick(&mut controller, &inputs).motor_power, 0);
}

struct Counter {
    events: u32,
    changes: u32,
}

impl Logger for Counter {
    fn log_event(&mut self, _message: &'static str) {
        self.events += 1;
    }

    fn log_state_change(&mut self, _from: SystemState, _to: SystemState) {
        self.changes += 1;
    }
}

#[test]
fn any_logger_receives_the_reports() {
    let mut counter = Counter { events: 0, changes: 0 };
    let mut controller = BikeEngineController::new();
    {
        let logger: &mut dyn Logger = &mut counter;
        controller.update(&pedalling(150, -1.0), logger);
        controller.update(&pedalling(50, 10.0), logger);
        controller.update(&pedalling(50, 30.0), logger);
    }
    assert_eq!(counter.events, 2);
    assert_eq!(counter.changes, 2);
}
