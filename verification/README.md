# bike_controller

A verified controller for the electric motor of a pedal-assist bike. Once per
tick of ten milliseconds it reads the sensors, moves its state machine on
(`Idle`, `AssistOn`, `AssistPassive`, `EmergencyBraking`, `Fault`) and decides
the motor power and the fault lamp.

- `src/controller.rs` is the controller; `src/model.rs` states what a tick does
  over mathematical values, and `src/laws.rs` proves what follows from it.
- `src/power.rs` and `src/rounding.rs` compute motor power with the rounding of
  single precision, in whole numbers; `src/speed.rs` orders speed readings by
  their single-precision bit patterns.
- `src/logger.rs` is the interface through which the controller reports.
- `src/simulation.rs` runs many ticks; `src/report.rs` gathers a status report.
- `app/` plays a scripted ride on the console.

A speed is passed as the bits of a single-precision number in km/h:
`Speed::from_bits(15.0f32.to_bits())`.
