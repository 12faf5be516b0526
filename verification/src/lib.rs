//! Hardware-agnostic core of a two-motor sensorless BLDC slot-car controller:
//! six-step commutation, zero-cross detection, the electronic differential,
//! fault and drag-brake supervision, the UART line protocol, persisted
//! parameters and the small scheduling utilities the firmware is built on.
//!
//! Quantities that are fractions of one (duty cycles, steer commands, slip
//! estimates, gains) are carried as fixed-point integers in millionths: see
//! [`units`].
use vstd::prelude::*;

pub mod units;
pub mod commutator;
pub mod tick;
pub mod number;
pub mod protocol;
pub mod params;
pub mod fault;
pub mod brake;
pub mod scheduler;
pub mod diff_ctrl;
pub mod axle_balance;
pub mod drive_layout;
pub mod drive;
pub mod control;

verus! {
} // verus!
