//! What the controller guarantees the rider, for all readings and all states.
use vstd::prelude::*;
use crate::logger::{LogEntry, BRAKE_WARNING, PAS_WARNING, SPEED_WARNING};
use crate::model::{
    acted, assist_wanted, assisting, cleaned, draining, in_range, initial, move_log, moved,
    outputs_of, report_if, sensor_fault, successor, tick, tick_log, warnings, ControllerView,
};
use crate::model::{
    BATTERY_DEGRADATION_TICKS, MAX_BRAKE_VALUE, MAX_PAS_VALUE, PASSIVE_DECREASE_TICKS,
};
use crate::power::{assist_power, brake_ceiling};
use crate::power::{law_assist_power_bounded, law_assist_power_extremes};
use crate::simulation::{run, run_tick, silent, RunView};
use crate::speed::{kmh, magnitude, Speed, SPEED_LIMIT};
use crate::speed::{law_speed_limit, law_speed_order, law_speed_patterns};
use crate::types::{resting_inputs, SensorInputs, SystemState};

verus! {

/// Cleaned readings are in range.
proof fn lemma_cleaned_in_range(inputs: SensorInputs)
    ensures
        in_range(cleaned(inputs)),
{
    assert(magnitude(0) == 0);
}

/// A new controller satisfies the invariant, and every tick keeps it.
pub proof fn law_invariant_kept(v: ControllerView, inputs: SensorInputs)
    ensures
        initial().wf(),
        v.wf() ==> tick(v, inputs).wf(),
{
    let clean = cleaned(inputs);
    lemma_cleaned_in_range(inputs);
    let m = moved(v, successor(v, clean));
    let c = acted(m, clean).ceiling;
    if v.wf() {
        law_assist_power_bounded(c, clean.pas_value as nat, clean.brake_value as nat);
    }
}

/// Cleaning leaves readings in range alone, replaces all others, and a second
/// cleaning finds nothing to do.
pub proof fn law_cleaning(inputs: SensorInputs)
    ensures
        in_range(cleaned(inputs)),
        in_range(inputs) <==> cleaned(inputs) == inputs,
        cleaned(cleaned(inputs)) == cleaned(inputs),
        in_range(inputs) <==> warnings(inputs) == Seq::<LogEntry>::empty(),
{
    lemma_cleaned_in_range(inputs);
    let w = warnings(inputs);
    let pas = report_if(inputs.pas_value > MAX_PAS_VALUE, PAS_WARNING@);
    let brake = report_if(inputs.brake_value > MAX_BRAKE_VALUE, BRAKE_WARNING@);
    let speed = report_if(!inputs.speed_value.valid(), SPEED_WARNING@);
    assert(w.len() == pas.len() + brake.len() + speed.len());
    if in_range(inputs) {
        assert(w == Seq::<LogEntry>::empty());
    }
}

/// The controller acts on the cleaned readings alone.
pub proof fn law_only_cleaned_readings_count(v: ControllerView, inputs: SensorInputs)
    ensures
        tick(v, inputs) == tick(v, cleaned(inputs)),
{
    law_cleaning(inputs);
}

/// Any sensor error leads to the fault state at once, with the motor off and the
/// fault lamp lit.
pub proof fn law_sensor_error_stops_motor(v: ControllerView, inputs: SensorInputs)
    requires
        sensor_fault(inputs),
    ensures
        tick(v, inputs).state == SystemState::Fault,
        tick(v, inputs).power == 0,
        outputs_of(tick(v, inputs)).motor_power == 0,
        outputs_of(tick(v, inputs)).status_led,
{
}

/// A tick ends in the fault state exactly if a sensor reports an error, or the
/// controller was in it already and the brake is not fully applied.
pub proof fn law_fault_entered_and_kept(v: ControllerView, inputs: SensorInputs)
    ensures
        tick(v, inputs).state == SystemState::Fault <==> sensor_fault(inputs) || (v.state
            == SystemState::Fault && inputs.brake_value < MAX_BRAKE_VALUE),
{
}

/// A fault is latched: however long the sensors report no error, the controller
/// stays in it, with the motor off, as long as the brake is not fully applied.
pub proof fn law_fault_latched(r: RunView, inputs: SensorInputs, ticks: nat)
    requires
        r.controller.wf(),
        r.controller.state == SystemState::Fault,
        inputs.brake_value < MAX_BRAKE_VALUE,
    ensures
        run(r, inputs, ticks).controller.state == SystemState::Fault,
        run(r, inputs, ticks).controller.power == 0,
    decreases ticks,
{
    if ticks > 0 {
        law_fault_latched(r, inputs, (ticks - 1) as nat);
        law_fault_entered_and_kept(run(r, inputs, (ticks - 1) as nat).controller, inputs);
    }
}

/// A fully applied brake cuts the motor in every state.
pub proof fn law_full_brake_stops_motor(v: ControllerView, inputs: SensorInputs)
    requires
        inputs.brake_value >= MAX_BRAKE_VALUE,
    ensures
        tick(v, inputs).power == 0,
        tick(v, inputs).state == if sensor_fault(inputs) {
            SystemState::Fault
        } else {
            SystemState::EmergencyBraking
        },
{
}

/// Emergency braking ends only by a sensor error or a fully released brake.
pub proof fn law_emergency_braking_held(v: ControllerView, inputs: SensorInputs)
    requires
        v.state == SystemState::EmergencyBraking,
    ensures
        tick(v, inputs).state == if sensor_fault(inputs) {
            SystemState::Fault
        } else if inputs.brake_value == 0 {
            SystemState::Idle
        } else {
            SystemState::EmergencyBraking
        },
        tick(v, inputs).power == 0,
{
}

/// Outside the two assist states the motor is off, and the fault lamp is lit in
/// the fault state alone.
pub proof fn law_outputs(v: ControllerView)
    requires
        v.wf(),
    ensures
        outputs_of(v).motor_power == v.power,
        !assisting(v.state) ==> outputs_of(v).motor_power == 0,
        outputs_of(v).status_led <==> v.state == SystemState::Fault,
{
}

/// The power ceiling never rises, and it falls by one at most per tick.
pub proof fn law_ceiling_never_rises(v: ControllerView, inputs: SensorInputs)
    ensures
        tick(v, inputs).ceiling <= v.ceiling <= tick(v, inputs).ceiling + 1,
        inputs.battery_ok ==> tick(v, inputs).ceiling == v.ceiling,
{
}

/// After a tick the motor power is within what the brake allows, in every state.
pub proof fn law_power_within_brake(v: ControllerView, inputs: SensorInputs)
    requires
        v.wf(),
    ensures
        tick(v, inputs).power <= brake_ceiling(
            tick(v, inputs).ceiling,
            cleaned(inputs).brake_value as nat,
        ) <= tick(v, inputs).ceiling,
{
    let clean = cleaned(inputs);
    law_invariant_kept(v, inputs);
    law_assist_power_bounded(
        tick(v, inputs).ceiling,
        clean.pas_value as nat,
        clean.brake_value as nat,
    );
}

/// At 25 km/h and above, and whenever the rider does not pedal, a tick does not
/// end in active assist and the motor power does not rise.
pub proof fn law_no_active_assist(v: ControllerView, inputs: SensorInputs)
    requires
        v.wf(),
        inputs.pas_value == 0 || (inputs.speed_value.valid() && inputs.speed_value.value() >= kmh(25)),
    ensures
        tick(v, inputs).state != SystemState::AssistOn,
        tick(v, inputs).power <= v.power,
{
    assert(!assist_wanted(cleaned(inputs)));
}

/// Active assist is reached exactly from rest or from an assist state with power
/// left, by pedalling below 25 km/h with the brake not fully applied and no
/// sensor error.
pub proof fn law_active_assist(v: ControllerView, inputs: SensorInputs)
    ensures
        tick(v, inputs).state == SystemState::AssistOn <==> {
            &&& !sensor_fault(inputs)
            &&& inputs.brake_value < MAX_BRAKE_VALUE
            &&& assist_wanted(cleaned(inputs))
            &&& v.state == SystemState::Idle || v.state == SystemState::AssistOn || (v.state
                == SystemState::AssistPassive && v.power > 0)
        },
{
}

/// In active assist the motor power is what ceiling, pedals and brake give.
pub proof fn law_active_assist_power(v: ControllerView, inputs: SensorInputs)
    requires
        tick(v, inputs).state == SystemState::AssistOn,
    ensures
        tick(v, inputs).power == assist_power(
            tick(v, inputs).ceiling,
            cleaned(inputs).pas_value as nat,
            cleaned(inputs).brake_value as nat,
        ),
{
}

/// A tick reports a move exactly if it changes the state, as its last report, and
/// it reports at most one.
pub proof fn law_moves_are_reported(v: ControllerView, inputs: SensorInputs)
    ensures
        tick_log(v, inputs) == warnings(inputs) + move_log(v.state, tick(v, inputs).state),
        forall|k: int|
            0 <= k < tick_log(v, inputs).len() ==> ((#[trigger] tick_log(v, inputs)[k])
                is StateChange <==> k == tick_log(v, inputs).len() - 1 && v.state != tick(
                v,
                inputs,
            ).state),
{
    let log = tick_log(v, inputs);
    let w = warnings(inputs);
    let m = move_log(v.state, tick(v, inputs).state);
    assert(log == w + m);
    assert forall|k: int| 0 <= k < w.len() implies !((#[trigger] w[k]) is StateChange) by {}
}

/// A change of state restarts the passive timer.
pub proof fn law_passive_timer_restarts(v: ControllerView, inputs: SensorInputs)
    requires
        v.wf(),
        tick(v, inputs).state != v.state,
    ensures
        tick(v, inputs).passive_ticks == if tick(v, inputs).state == SystemState::AssistPassive {
            1nat
        } else {
            0nat
        },
{
}

/// The battery timer starts over whenever the battery is good or the motor may
/// not run.
pub proof fn law_battery_timer_restarts(v: ControllerView, inputs: SensorInputs)
    ensures
        inputs.battery_ok || !assisting(tick(v, inputs).state) ==> tick(v, inputs).battery_ticks
            == 0,
{
}

/// Running on is one longer run.
pub proof fn law_runs_compose(r: RunView, inputs: SensorInputs, first: nat, second: nat)
    ensures
        run(run(r, inputs, first), inputs, second) == run(r, inputs, first + second),
    decreases second,
{
    if second > 0 {
        law_runs_compose(r, inputs, first, (second - 1) as nat);
        assert((first + second - 1) as nat == first + (second - 1) as nat);
    }
}

/// A run keeps the controller's invariant and the order of its two counts, it
/// sees the state the controller is in, and it takes back no report.
pub proof fn law_runs_keep_order(r: RunView, inputs: SensorInputs, ticks: nat)
    requires
        r.controller.wf(),
        r.since <= r.total <= u64::MAX,
        r.seen == r.controller.state,
    ensures
        run(r, inputs, ticks).controller.wf(),
        run(r, inputs, ticks).since <= run(r, inputs, ticks).total <= u64::MAX,
        run(r, inputs, ticks).seen == run(r, inputs, ticks).controller.state,
        r.log.is_prefix_of(run(r, inputs, ticks).log),
        r.total + ticks <= u64::MAX ==> run(r, inputs, ticks).total == r.total + ticks,
    decreases ticks,
{
    if ticks > 0 {
        let before = run(r, inputs, (ticks - 1) as nat);
        law_runs_keep_order(r, inputs, (ticks - 1) as nat);
        law_invariant_kept(before.controller, inputs);
        let added = tick_log(before.controller, inputs);
        assert(run(r, inputs, ticks).log == before.log + added);
        assert(r.log.is_prefix_of(before.log + added));
    }
}

/// A new controller on a resting bike stays as it is, drives nothing and reports
/// nothing.
pub proof fn law_rest_stays_rest(r: RunView, ticks: nat)
    requires
        r.controller == initial(),
        r.outputs == silent(),
    ensures
        run(r, resting_inputs(), ticks).controller == initial(),
        run(r, resting_inputs(), ticks).outputs == silent(),
        run(r, resting_inputs(), ticks).log == r.log,
    decreases ticks,
{
    if ticks > 0 {
        law_rest_stays_rest(r, (ticks - 1) as nat);
        let before = run(r, resting_inputs(), (ticks - 1) as nat);
        assert(magnitude(0) == 0);
        law_cleaning(resting_inputs());
        assert(!assist_wanted(resting_inputs()));
        assert(tick(initial(), resting_inputs()) == initial());
        assert(tick_log(initial(), resting_inputs()) == Seq::<LogEntry>::empty());
        assert(before.log + Seq::<LogEntry>::empty() == before.log);
    }
}

/// Readings under which passive assist runs out undisturbed: no error, no brake,
/// a good battery, and no pedalling below the speed limit.
pub open spec fn coasting(inputs: SensorInputs) -> bool {
    &&& !sensor_fault(inputs)
    &&& inputs.brake_value == 0
    &&& inputs.battery_ok
    &&& !assist_wanted(cleaned(inputs))
}

/// Five seconds are 500 ticks.
proof fn lemma_passive_period(n: nat)
    ensures
        PASSIVE_DECREASE_TICKS == 500,
        PASSIVE_DECREASE_TICKS * n == 500 * n,
{
    assert(PASSIVE_DECREASE_TICKS * n == 500 * n) by (nonlinear_arith)
        requires
            PASSIVE_DECREASE_TICKS == 500,
    ;
}

/// In passive assist the motor loses one step of power every five seconds.
pub proof fn law_passive_decay(r: RunView, inputs: SensorInputs, ticks: nat)
    requires
        r.controller.wf(),
        r.controller.state == SystemState::AssistPassive,
        coasting(inputs),
        r.controller.passive_ticks + ticks <= PASSIVE_DECREASE_TICKS * r.controller.power,
    ensures
        run(r, inputs, ticks).controller == (ControllerView {
            power: (r.controller.power - (r.controller.passive_ticks + ticks)
                / PASSIVE_DECREASE_TICKS as nat) as nat,
            passive_ticks: (r.controller.passive_ticks + ticks) % PASSIVE_DECREASE_TICKS as nat,
            battery_ticks: if ticks == 0 {
                r.controller.battery_ticks
            } else {
                0
            },
            ..r.controller
        }),
    decreases ticks,
{
    lemma_passive_period(r.controller.power);
    if ticks > 0 {
        law_passive_decay(r, inputs, (ticks - 1) as nat);
        let before = run(r, inputs, (ticks - 1) as nat).controller;
        let elapsed = r.controller.passive_ticks + ticks;
        assert(elapsed - 1 < 500 * r.controller.power);
        assert(before.power > 0);
        law_assist_power_extremes(before.ceiling, 0, 0);
    }
}

/// Left alone, passive assist ends at rest with the motor off: at the first tick
/// after all power has decayed.
pub proof fn law_passive_ends_idle(r: RunView, inputs: SensorInputs)
    requires
        r.controller.wf(),
        r.controller.state == SystemState::AssistPassive,
        r.controller.power > 0,
        coasting(inputs),
    ensures
        ({
            let ticks = (PASSIVE_DECREASE_TICKS * r.controller.power - r.controller.passive_ticks
                + 1) as nat;
            &&& run(r, inputs, ticks).controller.state == SystemState::Idle
            &&& run(r, inputs, ticks).controller.power == 0
        }),
{
    let ticks = (PASSIVE_DECREASE_TICKS * r.controller.power - r.controller.passive_ticks) as nat;
    lemma_passive_period(r.controller.power);
    law_passive_decay(r, inputs, ticks);
    assert(run(r, inputs, ticks + 1) == run_tick(run(r, inputs, ticks), inputs));
}

/// `n` less, but not below zero.
pub open spec fn reduced(value: nat, n: nat) -> nat {
    if n <= value {
        (value - n) as nat
    } else {
        0
    }
}

/// As long as the motor may run on a bad battery, the power ceiling loses one
/// step every hundred seconds, down to zero.
pub proof fn law_battery_degradation(r: RunView, inputs: SensorInputs, ticks: nat)
    requires
        r.controller.wf(),
        !inputs.battery_ok,
        forall|k: nat|
            1 <= k <= ticks ==> assisting((#[trigger] run(r, inputs, k)).controller.state),
    ensures
        ({
            let elapsed = r.controller.battery_ticks + ticks;
            let after = run(r, inputs, ticks).controller;
            &&& after.battery_ticks == elapsed % BATTERY_DEGRADATION_TICKS as nat
            &&& after.ceiling == reduced(
                r.controller.ceiling,
                elapsed / BATTERY_DEGRADATION_TICKS as nat,
            )
        }),
    decreases ticks,
{
    if ticks > 0 {
        law_battery_degradation(r, inputs, (ticks - 1) as nat);
        let before = run(r, inputs, (ticks - 1) as nat).controller;
        assert(run(r, inputs, ticks).controller == tick(before, inputs));
        assert(draining(moved(before, successor(before, cleaned(inputs))), cleaned(inputs)));
    }
}

/// Readings under which active assist goes on.
pub open spec fn riding(inputs: SensorInputs) -> bool {
    &&& !sensor_fault(inputs)
    &&& inputs.brake_value < MAX_BRAKE_VALUE
    &&& assist_wanted(cleaned(inputs))
}

/// Who goes on pedalling below the speed limit stays in active assist, with the
/// power that ceiling, pedals and brake give; on a good battery the power ceiling
/// stays as it is.
pub proof fn law_riding_goes_on(r: RunView, inputs: SensorInputs, ticks: nat)
    requires
        r.controller.state == SystemState::AssistOn,
        riding(inputs),
    ensures
        run(r, inputs, ticks).controller.state == SystemState::AssistOn,
        ticks > 0 ==> run(r, inputs, ticks).controller.power == assist_power(
            run(r, inputs, ticks).controller.ceiling,
            cleaned(inputs).pas_value as nat,
            cleaned(inputs).brake_value as nat,
        ),
        inputs.battery_ok ==> run(r, inputs, ticks).controller.ceiling == r.controller.ceiling,
    decreases ticks,
{
    if ticks > 0 {
        law_riding_goes_on(r, inputs, (ticks - 1) as nat);
    }
}

/// Riding on a bad battery wears the power ceiling down to zero, and the motor
/// power with it.
pub proof fn law_riding_on_bad_battery(r: RunView, inputs: SensorInputs, ticks: nat)
    requires
        r.controller.wf(),
        r.controller.state == SystemState::AssistOn,
        riding(inputs),
        !inputs.battery_ok,
    ensures
        run(r, inputs, ticks).controller.ceiling == reduced(
            r.controller.ceiling,
            (r.controller.battery_ticks + ticks) / BATTERY_DEGRADATION_TICKS as nat,
        ),
        ticks >= BATTERY_DEGRADATION_TICKS * r.controller.ceiling && ticks > 0 ==> run(
            r,
            inputs,
            ticks,
        ).controller.power == 0,
{
    assert forall|k: nat| 1 <= k <= ticks implies assisting(
        (#[trigger] run(r, inputs, k)).controller.state,
    ) by {
        law_riding_goes_on(r, inputs, k);
    }
    law_battery_degradation(r, inputs, ticks);
    law_riding_goes_on(r, inputs, ticks);
    if ticks >= BATTERY_DEGRADATION_TICKS * r.controller.ceiling && ticks > 0 {
        assert(BATTERY_DEGRADATION_TICKS * r.controller.ceiling == 10_000 * r.controller.ceiling)
            by (nonlinear_arith)
            requires
                BATTERY_DEGRADATION_TICKS == 10_000,
        ;
        assert(run(r, inputs, ticks).controller.ceiling == 0);
        lemma_cleaned_in_range(inputs);
        law_assist_power_bounded(
            0,
            cleaned(inputs).pas_value as nat,
            cleaned(inputs).brake_value as nat,
        );
    }
}

/// Whether the speed reading is a number from 25 km/h up. A reading without a
/// usable speed counts as standing still.
pub open spec fn fast(inputs: SensorInputs) -> bool {
    0x41C8_0000 <= inputs.speed_value.bits < 0x7F80_0000
}

/// Whether the speed reading is usable: a number from zero up, negative zero
/// among them.
pub open spec fn usable_speed(inputs: SensorInputs) -> bool {
    inputs.speed_value.bits < 0x7F80_0000 || inputs.speed_value.bits == 0x8000_0000
}

/// Whether any of the four sensors reports an error.
pub open spec fn any_error(inputs: SensorInputs) -> bool {
    inputs.pas_err || inputs.brake_err || inputs.speed_err || inputs.battery_err
}

/// What the readings mean, told by their plain values.
proof fn lemma_readings(inputs: SensorInputs)
    ensures
        sensor_fault(inputs) == any_error(inputs),
        inputs.speed_value.valid() == usable_speed(inputs),
        assist_wanted(cleaned(inputs)) == (inputs.pas_value > 0 && !fast(inputs)),
{
    let speed = inputs.speed_value;
    let limit = Speed { bits: SPEED_LIMIT };
    let zero = Speed { bits: 0 };
    law_speed_patterns(speed);
    law_speed_limit();
    law_speed_order(speed, limit);
    law_speed_order(zero, limit);
    law_speed_patterns(zero);
}

/// The readings acted on: a level over 100 counts as 100, an unusable speed as
/// standing still, and everything else as it was read.
pub proof fn law_cleaned_values(inputs: SensorInputs)
    ensures
        inputs.pas_value <= 100 ==> cleaned(inputs).pas_value == inputs.pas_value,
        inputs.pas_value > 100 ==> cleaned(inputs).pas_value == 100,
        inputs.brake_value <= 100 ==> cleaned(inputs).brake_value == inputs.brake_value,
        inputs.brake_value > 100 ==> cleaned(inputs).brake_value == 100,
        usable_speed(inputs) ==> cleaned(inputs).speed_value == inputs.speed_value,
        !usable_speed(inputs) ==> cleaned(inputs).speed_value.bits == 0,
        cleaned(inputs).pas_err == inputs.pas_err,
        cleaned(inputs).brake_err == inputs.brake_err,
        cleaned(inputs).speed_err == inputs.speed_err,
        cleaned(inputs).battery_ok == inputs.battery_ok,
        cleaned(inputs).battery_err == inputs.battery_err,
{
    lemma_readings(inputs);
}

/// A tick ends in `Fault` exactly by a sensor error, or by being in it already
/// with the brake not fully applied.
pub proof fn law_ends_in_fault(v: ControllerView, inputs: SensorInputs)
    ensures
        tick(v, inputs).state == SystemState::Fault <==> any_error(inputs) || (v.state
            == SystemState::Fault && inputs.brake_value < 100),
{
    lemma_readings(inputs);
}

/// A tick without sensor error ends in `EmergencyBraking` exactly by a fully
/// applied brake, or by being in it already with the brake not yet released.
pub proof fn law_ends_in_emergency_braking(v: ControllerView, inputs: SensorInputs)
    ensures
        tick(v, inputs).state == SystemState::EmergencyBraking <==> !any_error(inputs) && (
        inputs.brake_value >= 100 || (v.state == SystemState::EmergencyBraking
            && inputs.brake_value > 0)),
{
    lemma_readings(inputs);
}

/// A tick without sensor error and without full brake ends in `AssistOn` exactly
/// if the rider pedals below 25 km/h, starting from rest, from active assist, or
/// from passive assist with power left.
pub proof fn law_ends_in_active_assist(v: ControllerView, inputs: SensorInputs)
    ensures
        tick(v, inputs).state == SystemState::AssistOn <==> {
            &&& !any_error(inputs)
            &&& inputs.brake_value < 100
            &&& inputs.pas_value > 0
            &&& !fast(inputs)
            &&& v.state == SystemState::Idle || v.state == SystemState::AssistOn || (v.state
                == SystemState::AssistPassive && v.power > 0)
        },
{
    lemma_readings(inputs);
}

/// A tick without sensor error and without full brake ends in `AssistPassive`
/// exactly if the rider does not pedal or is at 25 km/h or above, coming from
/// active assist, or from passive assist with power left.
pub proof fn law_ends_in_passive_assist(v: ControllerView, inputs: SensorInputs)
    ensures
        tick(v, inputs).state == SystemState::AssistPassive <==> {
            &&& !any_error(inputs)
            &&& inputs.brake_value < 100
            &&& inputs.pas_value == 0 || fast(inputs)
            &&& v.state == SystemState::AssistOn || (v.state == SystemState::AssistPassive
                && v.power > 0)
        },
{
    lemma_readings(inputs);
}

/// A tick without sensor error and without full brake ends in `Idle` exactly at
/// rest without a start, after passive assist without power left, or when the
/// brake is fully released after emergency braking.
pub proof fn law_ends_in_idle(v: ControllerView, inputs: SensorInputs)
    ensures
        tick(v, inputs).state == SystemState::Idle <==> {
            &&& !any_error(inputs)
            &&& inputs.brake_value < 100
            &&& {
                ||| v.state == SystemState::Idle && (inputs.pas_value == 0 || fast(inputs))
                ||| v.state == SystemState::AssistPassive && v.power == 0
                ||| v.state == SystemState::EmergencyBraking && inputs.brake_value == 0
            }
        },
{
    lemma_readings(inputs);
}

/// Passive assist keeps the power, less one step when the passive timer runs out,
/// unless the brake allows less: then it is what the brake allows. The brake does
/// nothing to power that is within its bound.
pub proof fn law_passive_power(v: ControllerView, inputs: SensorInputs)
    requires
        v.passive_ticks < 500,
        v.passive_ticks > 0 ==> v.state == SystemState::AssistPassive,
        tick(v, inputs).state == SystemState::AssistPassive,
    ensures
        ({
            let after = tick(v, inputs);
            let kept = if v.passive_ticks == 499 {
                v.power - 1
            } else {
                v.power as int
            };
            let allowed = brake_ceiling(after.ceiling, inputs.brake_value as nat);
            &&& after.power <= kept
            &&& after.power <= allowed
            &&& after.power == kept || after.power == allowed
        }),
{
    lemma_readings(inputs);
}

/// In active assist the motor power follows from ceiling, pedals and brake alone;
/// pedalling over 100 counts as 100.
pub proof fn law_active_power(v: ControllerView, inputs: SensorInputs)
    requires
        tick(v, inputs).state == SystemState::AssistOn,
    ensures
        inputs.pas_value <= 100 ==> tick(v, inputs).power == assist_power(
            tick(v, inputs).ceiling,
            inputs.pas_value as nat,
            inputs.brake_value as nat,
        ),
        inputs.pas_value > 100 ==> tick(v, inputs).power == assist_power(
            tick(v, inputs).ceiling,
            100,
            inputs.brake_value as nat,
        ),
{
    lemma_readings(inputs);
}

/// A tick that ends outside the two assist states leaves the motor off.
pub proof fn law_no_power_without_assist(v: ControllerView, inputs: SensorInputs)
    requires
        tick(v, inputs).state != SystemState::AssistOn,
        tick(v, inputs).state != SystemState::AssistPassive,
    ensures
        tick(v, inputs).power == 0,
{
}

/// The power ceiling changes only in the tick in which a bad battery has driven
/// the assist states for 10000 ticks; it then loses one step, unless it is zero.
pub proof fn law_ceiling_falls_only_when_due(v: ControllerView, inputs: SensorInputs)
    requires
        v.battery_ticks < 10_000,
    ensures
        ({
            let after = tick(v, inputs);
            let on_bad_battery = !inputs.battery_ok && (after.state == SystemState::AssistOn
                || after.state == SystemState::AssistPassive);
            if on_bad_battery && v.battery_ticks == 9_999 && v.ceiling > 0 {
                after.ceiling == v.ceiling - 1
            } else {
                after.ceiling == v.ceiling
            }
        }),
{
}

/// The battery timer counts the ticks in the assist states on a bad battery, from
/// zero again after 10000 of them, and is zero otherwise.
pub proof fn law_battery_timer(v: ControllerView, inputs: SensorInputs)
    requires
        v.battery_ticks < 10_000,
    ensures
        ({
            let after = tick(v, inputs);
            let on_bad_battery = !inputs.battery_ok && (after.state == SystemState::AssistOn
                || after.state == SystemState::AssistPassive);
            after.battery_ticks == if on_bad_battery {
                (v.battery_ticks + 1) % 10_000
            } else {
                0
            }
        }),
{
}

/// The passive timer counts the ticks in passive assist since it began, from zero
/// again after 500 of them, and is zero in every other state.
pub proof fn law_passive_timer(v: ControllerView, inputs: SensorInputs)
    requires
        v.passive_ticks < 500,
        v.passive_ticks > 0 ==> v.state == SystemState::AssistPassive,
    ensures
        tick(v, inputs).passive_ticks == if tick(v, inputs).state == SystemState::AssistPassive {
            (v.passive_ticks + 1) % 500
        } else {
            0
        },
{
}

/// What the invariant says, in plain numbers, and what a new controller is.
pub proof fn law_invariant_meaning(v: ControllerView)
    ensures
        v.wf() <==> {
            &&& v.power <= v.ceiling <= 100
            &&& v.battery_ticks < 10_000
            &&& v.passive_ticks < 500
            &&& v.passive_ticks > 0 ==> v.state == SystemState::AssistPassive
            &&& v.battery_ticks > 0 || v.power > 0 ==> v.state == SystemState::AssistOn || v.state
                == SystemState::AssistPassive
        },
        initial().state == SystemState::Idle,
        initial().power == 0,
        initial().ceiling == 100,
        initial().battery_ticks == 0,
        initial().passive_ticks == 0,
{
}

/// What a tick reports, and nothing else: one warning for each level over 100 and
/// for an unusable speed, in this order, and last the change of state, if any.
pub proof fn law_tick_reports(v: ControllerView, inputs: SensorInputs)
    ensures
        ({
            let log = tick_log(v, inputs);
            let after = tick(v, inputs);
            let pas: int = if inputs.pas_value > 100 { 1 } else { 0 };
            let brake: int = if inputs.brake_value > 100 { 1 } else { 0 };
            let speed: int = if usable_speed(inputs) { 0 } else { 1 };
            let change: int = if after.state == v.state { 0 } else { 1 };
            &&& log.len() == pas + brake + speed + change
            &&& pas == 1 ==> log[0] == LogEntry::Event(
                "Ostrzezenie: Przekroczono zakres PAS_Value, obcieto do MAX_PAS_VALUE"@,
            )
            &&& brake == 1 ==> log[pas] == LogEntry::Event(
                "Ostrzezenie: Przekroczono zakres Brake_Value, obcieto do MAX_BRAKE_VALUE"@,
            )
            &&& speed == 1 ==> log[pas + brake] == LogEntry::Event(
                "Ostrzezenie: Nieprawidlowa predkosc, obcieto do 0.0"@,
            )
            &&& change == 1 ==> log[pas + brake + speed] == (LogEntry::StateChange {
                from: v.state,
                to: after.state,
            })
        }),
{
    lemma_readings(inputs);
}

/// What a run returns: after at least one tick, the power of the controller it
/// leaves behind and a lamp lit exactly in its fault state; without ticks, what
/// was driven before.
pub proof fn law_run_outputs(r: RunView, inputs: SensorInputs, ticks: nat)
    requires
        r.controller.wf(),
    ensures
        ticks == 0 ==> run(r, inputs, ticks) == r,
        ticks > 0 ==> {
            let after = run(r, inputs, ticks);
            &&& after.outputs.motor_power == after.controller.power
            &&& after.outputs.status_led <==> after.controller.state == SystemState::Fault
        },
        silent().motor_power == 0,
        !silent().status_led,
{
    lemma_run_wf(r, inputs, ticks);
}

proof fn lemma_run_wf(r: RunView, inputs: SensorInputs, ticks: nat)
    requires
        r.controller.wf(),
    ensures
        run(r, inputs, ticks).controller.wf(),
    decreases ticks,
{
    if ticks > 0 {
        lemma_run_wf(r, inputs, (ticks - 1) as nat);
        law_invariant_kept(run(r, inputs, (ticks - 1) as nat).controller, inputs);
    }
}

/// The last tick of a run takes the controller on by one tick and adds what that
/// tick reports.
pub proof fn law_run_advances(r: RunView, inputs: SensorInputs, ticks: nat)
    ensures
        ({
            let before = run(r, inputs, ticks);
            let after = run(r, inputs, ticks + 1);
            &&& after.controller == tick(before.controller, inputs)
            &&& after.log == before.log + tick_log(before.controller, inputs)
        }),
{
}

/// A run counts its ticks, up to the largest count there is.
pub proof fn law_run_counts(r: RunView, inputs: SensorInputs, ticks: nat)
    requires
        r.total <= u64::MAX,
    ensures
        r.total + ticks <= u64::MAX ==> run(r, inputs, ticks).total == r.total + ticks,
        r.total + ticks > u64::MAX ==> run(r, inputs, ticks).total == u64::MAX,
        ticks > 0 ==> run(r, inputs, ticks).seen == run(r, inputs, ticks).controller.state,
    decreases ticks,
{
    if ticks > 0 {
        law_run_counts(r, inputs, (ticks - 1) as nat);
    }
}

/// The start of the present state is dated by the tick that last changed the state
/// seen, and stays as it was where no tick changes it.
pub proof fn law_run_dates_changes(r: RunView, inputs: SensorInputs, ticks: nat)
    ensures
        ({
            let before = run(r, inputs, ticks);
            let after = run(r, inputs, ticks + 1);
            &&& after.controller.state == before.seen ==> after.since == before.since
            &&& after.controller.state != before.seen ==> after.since == after.total
        }),
{
}

/// The state at the end of a run has held since the tick by which it is dated.
pub proof fn law_state_held_since(r: RunView, inputs: SensorInputs, ticks: nat, k: nat)
    requires
        r.since <= r.total,
        r.total + ticks <= u64::MAX,
        r.seen == r.controller.state,
        k <= ticks,
        run(r, inputs, ticks).since <= r.total + k,
    ensures
        run(r, inputs, k).controller.state == run(r, inputs, ticks).controller.state,
    decreases ticks,
{
    law_run_counts(r, inputs, ticks);
    if k < ticks {
        let before = (ticks - 1) as nat;
        law_run_counts(r, inputs, before);
        law_run_dates_changes(r, inputs, before);
        law_state_held_since(r, inputs, before, k);
    }
}

} // verus!
