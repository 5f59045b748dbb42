//! A controller for the electric motor of a pedal-assist bike.
//!
//! Every ten milliseconds the controller reads the sensors, moves its state
//! machine on and decides the motor power. What each tick does is stated in
//! [`model`] over mathematical values, and [`laws`] proves what follows for the
//! rider.
pub mod controller;
pub mod laws;
pub mod logger;
pub mod model;
pub mod power;
pub mod report;
pub mod rounding;
pub mod simulation;
pub mod speed;
pub mod types;

pub use crate::controller::BikeEngineController;
pub use crate::logger::Logger;
pub use crate::model::TICK_RATE_MS;
pub use crate::speed::{Speed, SPEED_LIMIT};
pub use crate::types::{SensorInputs, SystemOutputs, SystemState};
