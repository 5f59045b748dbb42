use bike_controller::controller::BikeEngineController;
use bike_controller::logger::{EventLog, Report};
use bike_controller::report::{
    bool_str, led_label, state_label, status_report, virtual_time, VirtualTime,
};
use bike_controller::simulation::simulate;
use bike_controller::speed::Speed;
use bike_controller::types::{SensorInputs, SystemOutputs, SystemState};

struct Run {
    controller: BikeEngineController,
    log: EventLog,
    total: u64,
    since: u64,
    seen: SystemState,
}

impl Run {
    fn new() -> Self {
        Run {
            controller: BikeEngineController::new(),
            log: EventLog::new(),
            total: 0,
            since: 0,
            seen: SystemState::Idle,
        }
    }

    fn go(&mut self, inputs: &SensorInputs, ticks: u32) -> SystemOutputs {
        simulate(
            &mut self.controller,
            &mut self.log,
            inputs,
            ticks,
            &mut self.total,
            &mut self.since,
            &mut self.seen,
        )
    }

    fn shows(&self, state: SystemState, total: u64, since: u64) {
        assert_eq!(self.controller.current_state(), state);
        assert_eq!(self.seen, state);
        assert_eq!(self.total, total);
        assert_eq!(self.since, since);
    }
}

fn kmh(value: f32) -> Speed {
    Speed::from_bits(value.to_bits())
}

#[test]
fn a_ride() {
    let mut run = Run::new();

    assert_eq!(run.go(&SensorInputs::default(), 10).motor_power, 0);
    run.shows(SystemState::Idle, 10, 0);

    let inputs = SensorInputs { pas_value: 50, speed_value: kmh(15.0), ..Default::default() };
    assert_eq!(run.go(&inputs, 500).motor_power, 50);
    run.shows(SystemState::AssistOn, 510, 11);

    let inputs = SensorInputs { pas_value: 50, speed_value: kmh(28.0), ..Default::default() };
    assert_eq!(run.go(&inputs, 500).motor_power, 49);
    run.shows(SystemState::AssistPassive, 1010, 511);
    assert_eq!(run.go(&inputs, 2000).motor_power, 45);
    run.shows(SystemState::AssistPassive, 3010, 511);

    let inputs = SensorInputs {
        pas_value: 80,
        brake_value: 100,
        speed_value: kmh(20.0),
        ..Default::default()
    };
    assert_eq!(run.go(&inputs, 20).motor_power, 0);
    run.shows(SystemState::EmergencyBraking, 3030, 3011);

    assert_eq!(run.go(&SensorInputs::default(), 100).motor_power, 0);
    run.shows(SystemState::Idle, 3130, 3031);

    let inputs = SensorInputs { pas_err: true, ..Default::default() };
    assert!(run.go(&inputs, 10).status_led);
    run.shows(SystemState::Fault, 3140, 3131);

    let inputs = SensorInputs { pas_value: 100, ..Default::default() };
    let outputs = run.go(&inputs, 3_000);
    assert_eq!(outputs, SystemOutputs { motor_power: 0, status_led: true });
    run.shows(SystemState::Fault, 6140, 3131);

    let change = |from, to| Report::StateChange { from, to };
    assert_eq!(
        *run.log.reports(),
        vec![
            change(SystemState::Idle, SystemState::AssistOn),
            change(SystemState::AssistOn, SystemState::AssistPassive),
            change(SystemState::AssistPassive, SystemState::EmergencyBraking),
            change(SystemState::EmergencyBraking, SystemState::Idle),
            change(SystemState::Idle, SystemState::Fault),
        ]
    );
}

#[test]
fn no_ticks_change_nothing() {
    let mut run = Run::new();
    let inputs = SensorInputs { pas_value: 50, ..Default::default() };
    let outputs = run.go(&inputs, 0);
    assert_eq!(outputs, SystemOutputs { motor_power: 0, status_led: false });
    run.shows(SystemState::Idle, 0, 0);
}

#[test]
fn runs_compose() {
    let inputs = SensorInputs { pas_value: 3, speed_value: kmh(10.0), ..Default::default() };
    let coasting = SensorInputs { speed_value: kmh(10.0), ..Default::default() };
    let mut once = Run::new();
    once.go(&inputs, 1);
    let whole = once.go(&coasting, 1234);
    let mut twice = Run::new();
    twice.go(&inputs, 1);
    twice.go(&coasting, 1000);
    let second = twice.go(&coasting, 234);
    assert_eq!(whole, second);
    assert_eq!(once.total, twice.total);
    assert_eq!(once.since, twice.since);
    assert_eq!(once.controller.passive_timer_ticks(), twice.controller.passive_timer_ticks());
    assert_eq!(once.log.reports(), twice.log.reports());
}

#[test]
fn tick_count_stops_at_its_maximum() {
    let mut run = Run::new();
    run.total = u64::MAX - 1;
    run.go(&SensorInputs::default(), 5);
    assert_eq!(run.total, u64::MAX);
    assert_eq!(run.since, 0);
}

#[test]
fn labels() {
    assert_eq!(bool_str(true), "tak");
    assert_eq!(bool_str(false), "nie");
    assert_eq!(led_label(true), "SWIECI (awaria)");
    assert_eq!(led_label(false), "nie swieci (OK)");
    assert_eq!(state_label(SystemState::Idle), "Idle");
    assert_eq!(state_label(SystemState::AssistOn), "AssistOn");
    assert_eq!(state_label(SystemState::AssistPassive), "AssistPassive");
    assert_eq!(state_label(SystemState::EmergencyBraking), "EmergencyBraking");
    assert_eq!(state_label(SystemState::Fault), "Fault");
}

#[test]
fn times_in_their_units() {
    assert_eq!(virtual_time(0), VirtualTime::Milliseconds { ms: 0 });
    assert_eq!(virtual_time(99), VirtualTime::Milliseconds { ms: 990 });
    assert_eq!(virtual_time(100), VirtualTime::Seconds { ms: 1_000 });
    assert_eq!(virtual_time(5_999), VirtualTime::Seconds { ms: 59_990 });
    assert_eq!(virtual_time(6_000), VirtualTime::Minutes { mins: 1, ms: 0 });
    assert_eq!(virtual_time(6_140), VirtualTime::Minutes { mins: 1, ms: 1_400 });
}

#[test]
fn a_status_report() {
    let mut run = Run::new();
    let inputs = SensorInputs { pas_value: 50, battery_ok: false, ..Default::default() };
    let outputs = run.go(&inputs, 120);
    let report = status_report(&inputs, &outputs, &run.controller, run.total, run.since);
    assert_eq!(report.pas_err, "nie");
    assert_eq!(report.brake_err, "nie");
    assert_eq!(report.speed_err, "nie");
    assert_eq!(report.battery_ok, "nie");
    assert_eq!(report.battery_err, "nie");
    assert_eq!(report.motor_power, 50);
    assert_eq!(report.max_motor_power, 100);
    assert_eq!(report.led, "nie swieci (OK)");
    assert_eq!(report.state, "AssistOn");
    assert_eq!(report.battery_timer_ticks, 120);
    assert_eq!(report.passive_timer_ticks, 0);
    assert_eq!(report.simulated, VirtualTime::Seconds { ms: 1_200 });
    assert_eq!(report.in_state, VirtualTime::Seconds { ms: 1_190 });

    let inputs = SensorInputs { speed_err: true, battery_err: true, ..Default::default() };
    let outputs = run.go(&inputs, 1);
    let report = status_report(&inputs, &outputs, &run.controller, run.total, run.since);
    assert_eq!(report.speed_err, "tak");
    assert_eq!(report.battery_err, "tak");
    assert_eq!(report.battery_ok, "tak");
    assert_eq!(report.led, "SWIECI (awaria)");
    assert_eq!(report.state, "Fault");
    assert_eq!(report.in_state, VirtualTime::Milliseconds { ms: 0 });
}
