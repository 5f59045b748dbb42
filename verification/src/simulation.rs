//! Runs of many ticks with the same readings.
use vstd::prelude::*;
use crate::controller::BikeEngineController;
use crate::logger::{LogEntry, Logger};
use crate::model::{outputs_of, tick, tick_log, ControllerView};
use crate::types::{SensorInputs, SystemOutputs, SystemState};

verus! {

/// Everything that a run carries from tick to tick.
#[verifier::ext_equal]
pub struct RunView {
    pub controller: ControllerView,
    /// The ticks run so far.
    pub total: nat,
    /// The tick at which the present state began.
    pub since: nat,
    /// The state seen last.
    pub seen: SystemState,
    /// What was driven last.
    pub outputs: SystemOutputs,
    /// All reports so far.
    pub log: Seq<LogEntry>,
}

/// What is driven before the first tick: nothing.
pub open spec fn silent() -> SystemOutputs {
    SystemOutputs { motor_power: 0, status_led: false }
}

/// The next count of ticks; the count stops at its largest value.
pub open spec fn next_total(total: nat) -> nat {
    if total < u64::MAX {
        total + 1
    } else {
        total
    }
}

/// A run extended by one tick.
pub open spec fn run_tick(r: RunView, inputs: SensorInputs) -> RunView {
    let controller = tick(r.controller, inputs);
    let total = next_total(r.total);
    RunView {
        controller,
        total,
        since: if controller.state == r.seen {
            r.since
        } else {
            total
        },
        seen: controller.state,
        outputs: outputs_of(controller),
        log: r.log + tick_log(r.controller, inputs),
    }
}

/// A run extended by `ticks` ticks with the same readings.
pub open spec fn run(r: RunView, inputs: SensorInputs, ticks: nat) -> RunView
    decreases ticks,
{
    if ticks == 0 {
        r
    } else {
        run_tick(run(r, inputs, (ticks - 1) as nat), inputs)
    }
}

/// Runs the controller for `ticks` ticks with the same readings, keeps count of
/// the ticks and of when the state last changed, and returns what was driven last.
pub fn simulate<L: Logger + ?Sized>(
    controller: &mut BikeEngineController,
    logger: &mut L,
    inputs: &SensorInputs,
    ticks: u32,
    total_ticks: &mut u64,
    state_since_ticks: &mut u64,
    prev_state: &mut SystemState,
) -> (outputs: SystemOutputs)
    requires
        old(controller).wf(),
    ensures
        final(controller).wf(),
        (RunView {
            controller: final(controller)@,
            total: *final(total_ticks) as nat,
            since: *final(state_since_ticks) as nat,
            seen: *final(prev_state),
            outputs,
            log: final(logger).history(),
        }) == run(
            (RunView {
                controller: old(controller)@,
                total: *old(total_ticks) as nat,
                since: *old(state_since_ticks) as nat,
                seen: *old(prev_state),
                outputs: silent(),
                log: old(logger).history(),
            }),
            *inputs,
            ticks as nat,
        ),
{
    let mut last_outputs = SystemOutputs { motor_power: 0, status_led: false };
    let ghost start = RunView {
        controller: controller@,
        total: *total_ticks as nat,
        since: *state_since_ticks as nat,
        seen: *prev_state,
        outputs: silent(),
        log: logger.history(),
    };
    let mut done: u32 = 0;
    while done < ticks
        invariant
            done <= ticks,
            controller.wf(),
            (RunView {
                controller: controller@,
                total: *total_ticks as nat,
                since: *state_since_ticks as nat,
                seen: *prev_state,
                outputs: last_outputs,
                log: logger.history(),
            }) == run(start, *inputs, done as nat),
        decreases ticks - done,
    {
        last_outputs = controller.update(inputs, logger);
        *total_ticks = total_ticks.saturating_add(1);
        let cur = controller.current_state();
        if cur != *prev_state {
            *state_since_ticks = *total_ticks;
            *prev_state = cur;
        }
        done = done + 1;
    }
    last_outputs
}

} // verus!
