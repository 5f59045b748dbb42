//! What a status report shows.
use vstd::prelude::*;
use crate::controller::BikeEngineController;
use crate::model::TICK_RATE_MS;
use crate::types::{SensorInputs, SystemOutputs, SystemState};

verus! {

/// Yes or no, in words.
pub open spec fn yes_or_no(v: bool) -> Seq<char> {
    if v {
        "tak"@
    } else {
        "nie"@
    }
}

/// The name of a state.
pub open spec fn state_name(state: SystemState) -> Seq<char> {
    match state {
        SystemState::Idle => "Idle"@,
        SystemState::AssistOn => "AssistOn"@,
        SystemState::AssistPassive => "AssistPassive"@,
        SystemState::EmergencyBraking => "EmergencyBraking"@,
        SystemState::Fault => "Fault"@,
    }
}

/// The fault lamp, in words.
pub open spec fn lamp_words(on: bool) -> Seq<char> {
    if on {
        "SWIECI (awaria)"@
    } else {
        "nie swieci (OK)"@
    }
}

/// Yes or no, in words.
pub fn bool_str(v: bool) -> (s: &'static str)
    ensures
        s@ == yes_or_no(v),
{
    if v {
        "tak"
    } else {
        "nie"
    }
}

/// The name of a state.
pub fn state_label(state: SystemState) -> (s: &'static str)
    ensures
        s@ == state_name(state),
{
    match state {
        SystemState::Idle => "Idle",
        SystemState::AssistOn => "AssistOn",
        SystemState::AssistPassive => "AssistPassive",
        SystemState::EmergencyBraking => "EmergencyBraking",
        SystemState::Fault => "Fault",
    }
}

/// The fault lamp, in words.
pub fn led_label(on: bool) -> (s: &'static str)
    ensures
        s@ == lamp_words(on),
{
    if on {
        "SWIECI (awaria)"
    } else {
        "nie swieci (OK)"
    }
}

/// A span of simulated time in the unit that suits its length. Spans below a
/// minute, and what is left over beside whole minutes, are in milliseconds.
#[derive(Debug, Clone, Copy, PartialEq, Eq, Structural)]
pub enum VirtualTime {
    Milliseconds { ms: u64 },
    Seconds { ms: u64 },
    Minutes { mins: u64, ms: u64 },
}

impl VirtualTime {
    /// The length of the span in milliseconds.
    pub open spec fn total_ms(self) -> int {
        match self {
            VirtualTime::Milliseconds { ms } => ms as int,
            VirtualTime::Seconds { ms } => ms as int,
            VirtualTime::Minutes { mins, ms } => mins * 60_000 + ms,
        }
    }

    /// Whether the unit suits the length: milliseconds below a second, seconds
    /// below a minute, and minutes with less than a minute left over.
    pub open spec fn wf(self) -> bool {
        match self {
            VirtualTime::Milliseconds { ms } => ms < 1_000,
            VirtualTime::Seconds { ms } => 1_000 <= ms < 60_000,
            VirtualTime::Minutes { mins, ms } => 0 < mins && ms < 60_000,
        }
    }
}

/// The time that a number of ticks takes.
pub fn virtual_time(ticks: u64) -> (time: VirtualTime)
    requires
        ticks * TICK_RATE_MS <= u64::MAX,
    ensures
        time.wf(),
        time.total_ms() == ticks * TICK_RATE_MS,
{
    let total_ms: u64 = ticks * TICK_RATE_MS as u64;
    if total_ms < 1_000 {
        VirtualTime::Milliseconds { ms: total_ms }
    } else if total_ms < 60_000 {
        VirtualTime::Seconds { ms: total_ms }
    } else {
        VirtualTime::Minutes { mins: total_ms / 60_000, ms: total_ms % 60_000 }
    }
}

/// The length and a suiting unit determine the span.
pub proof fn law_virtual_time_unique(a: VirtualTime, b: VirtualTime)
    requires
        a.wf(),
        b.wf(),
        a.total_ms() == b.total_ms(),
    ensures
        a == b,
{
}

/// How a number of ticks is shown: below a second in milliseconds, below a minute
/// in seconds, and from a minute on in whole minutes and what is left over.
pub proof fn law_virtual_time_units(ticks: nat, time: VirtualTime)
    requires
        time.wf(),
        time.total_ms() == ticks * TICK_RATE_MS,
    ensures
        ticks < 100 <==> time is Milliseconds,
        100 <= ticks < 6_000 <==> time is Seconds,
        6_000 <= ticks <==> time is Minutes,
        time matches VirtualTime::Milliseconds { ms } ==> ms == ticks * 10,
        time matches VirtualTime::Seconds { ms } ==> ms == ticks * 10,
        time matches VirtualTime::Minutes { mins, ms } ==> mins == ticks / 6_000 && ms == (ticks
            % 6_000) * 10,
{
    assert(ticks * TICK_RATE_MS == ticks * 10);
}

/// The entries of a status report that are not plain readings.
#[derive(Debug, Clone, Copy)]
pub struct StatusReport {
    pub pas_err: &'static str,
    pub brake_err: &'static str,
    pub speed_err: &'static str,
    pub battery_ok: &'static str,
    pub battery_err: &'static str,
    pub motor_power: u8,
    pub max_motor_power: u8,
    pub led: &'static str,
    pub state: &'static str,
    pub battery_timer_ticks: u32,
    pub passive_timer_ticks: u32,
    pub simulated: VirtualTime,
    pub in_state: VirtualTime,
}

/// Gathers a status report after a run.
pub fn status_report(
    inputs: &SensorInputs,
    outputs: &SystemOutputs,
    controller: &BikeEngineController,
    total_ticks: u64,
    state_since_ticks: u64,
) -> (report: StatusReport)
    requires
        state_since_ticks <= total_ticks,
        total_ticks * TICK_RATE_MS <= u64::MAX,
    ensures
        report.pas_err@ == yes_or_no(inputs.pas_err),
        report.brake_err@ == yes_or_no(inputs.brake_err),
        report.speed_err@ == yes_or_no(inputs.speed_err),
        report.battery_ok@ == yes_or_no(inputs.battery_ok),
        report.battery_err@ == yes_or_no(inputs.battery_err),
        report.motor_power == outputs.motor_power,
        report.max_motor_power == controller@.ceiling,
        report.led@ == lamp_words(outputs.status_led),
        report.state@ == state_name(controller@.state),
        report.battery_timer_ticks == controller@.battery_ticks,
        report.passive_timer_ticks == controller@.passive_ticks,
        report.simulated.wf(),
        report.simulated.total_ms() == total_ticks * TICK_RATE_MS,
        report.in_state.wf(),
        report.in_state.total_ms() == (total_ticks - state_since_ticks) * TICK_RATE_MS,
{
    StatusReport {
        pas_err: bool_str(inputs.pas_err),
        brake_err: bool_str(inputs.brake_err),
        speed_err: bool_str(inputs.speed_err),
        battery_ok: bool_str(inputs.battery_ok),
        battery_err: bool_str(inputs.battery_err),
        motor_power: outputs.motor_power,
        max_motor_power: controller.max_motor_power(),
        led: led_label(outputs.status_led),
        state: state_label(controller.current_state()),
        battery_timer_ticks: controller.battery_timer_ticks(),
        passive_timer_ticks: controller.passive_timer_ticks(),
        simulated: virtual_time(total_ticks),
        in_state: virtual_time(total_ticks - state_since_ticks),
    }
}

} // verus!
